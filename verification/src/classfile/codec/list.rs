//! Lists of elements as bytes: the elements one after another.

use vstd::prelude::*;
use crate::classfile::codec::bytes::{
    be16, holds_at, lemma_holds_at_concat, lemma_holds_itself, lemma_parsed_u16, parsed_u16,
    read_u16, write_u16,
};
use crate::classfile::constant_pool::{pool_view, ConstantPool, TypeView};

verus! {

/// A value that has a place in a class file.
///
/// `fits` says which values can stand in a class file with the constant
/// pool `cp`; `bytes` are the bytes of such a value; `parsed` is the value
/// that stands at a place of a sequence, and the place after it.
pub trait Element: Sized {
    type V;

    spec fn value(&self) -> Self::V;

    spec fn fits(cp: Seq<TypeView>, v: Self::V) -> bool;

    spec fn bytes(v: Self::V) -> Seq<u8>;

    spec fn parsed(cp: Seq<TypeView>, s: Seq<u8>, at: int) -> Option<(Self::V, int)>;

    /// What is parsed can stand in a class file, ends within the sequence,
    /// and has as many bytes as were read.
    proof fn lemma_parsed_fits(cp: Seq<TypeView>, s: Seq<u8>, at: int)
        requires
            0 <= at,
            Self::parsed(cp, s, at) is Some,
        ensures
            Self::fits(cp, Self::parsed(cp, s, at)->Some_0.0),
            Self::parsed(cp, s, at)->Some_0.1 <= s.len(),
            Self::parsed(cp, s, at)->Some_0.1 == at + Self::bytes(
                Self::parsed(cp, s, at)->Some_0.0,
            ).len(),
    ;

    /// Where a sequence holds the bytes of a value that can stand in a
    /// class file, that value is parsed from it.
    proof fn lemma_round_trip(cp: Seq<TypeView>, s: Seq<u8>, at: int, v: Self::V)
        requires
            Self::fits(cp, v),
            holds_at(s, at, Self::bytes(v)),
        ensures
            Self::parsed(cp, s, at) == Some((v, at + Self::bytes(v).len())),
    ;

    /// The value that stands in `s` at `at`.
    fn read(cp: &ConstantPool, s: &[u8], at: usize) -> (r: Option<(Self, usize)>)
        ensures
            match r {
                Some((got, to)) => Self::parsed(pool_view(cp@), s@, at as int) == Some(
                    (got.value(), to as int),
                ) && at <= to <= s@.len(),
                None => Self::parsed(pool_view(cp@), s@, at as int) is None,
            },
    ;

    /// Appends the bytes of this value to `out`.
    fn write(&self, out: &mut Vec<u8>)
        ensures
            final(out)@ == old(out)@ + Self::bytes(self.value()),
    ;
}

/// The values of a vector of elements.
pub open spec fn values<T: Element>(items: Seq<T>) -> Seq<T::V> {
    items.map_values(|t: T| t.value())
}

/// Whether each of `items` can stand in a class file.
pub open spec fn all_fit<T: Element>(cp: Seq<TypeView>, items: Seq<T::V>) -> bool {
    forall|i: int| 0 <= i < items.len() ==> T::fits(cp, #[trigger] items[i])
}

/// The bytes of `items`, one after another.
pub open spec fn list_bytes<T: Element>(items: Seq<T::V>) -> Seq<u8>
    decreases items.len(),
{
    if items.len() == 0 {
        Seq::empty()
    } else {
        T::bytes(items[0]) + list_bytes::<T>(items.drop_first())
    }
}

/// The `n` elements that stand in `s` from `at` on, and the place after
/// them.
pub open spec fn parsed_list<T: Element>(cp: Seq<TypeView>, s: Seq<u8>, at: int, n: int) -> Option<
    (Seq<T::V>, int),
>
    decreases n,
{
    if n <= 0 {
        Some((Seq::empty(), at))
    } else {
        let first = T::parsed(cp, s, at);
        if first is None {
            None
        } else {
            let rest = parsed_list::<T>(cp, s, first->Some_0.1, n - 1);
            if rest is None {
                None
            } else {
                Some((seq![first->Some_0.0] + rest->Some_0.0, rest->Some_0.1))
            }
        }
    }
}

/// What is parsed as a list of `n` elements is `n` elements that can stand
/// in a class file, ends within the sequence, and has as many bytes as
/// were read.
pub proof fn lemma_parsed_list_fits<T: Element>(cp: Seq<TypeView>, s: Seq<u8>, at: int, n: int)
    requires
        0 <= n,
        0 <= at <= s.len(),
        parsed_list::<T>(cp, s, at, n) is Some,
    ensures
        parsed_list::<T>(cp, s, at, n)->Some_0.0.len() == n,
        all_fit::<T>(cp, parsed_list::<T>(cp, s, at, n)->Some_0.0),
        parsed_list::<T>(cp, s, at, n)->Some_0.1 <= s.len(),
        parsed_list::<T>(cp, s, at, n)->Some_0.1 == at + list_bytes::<T>(
            parsed_list::<T>(cp, s, at, n)->Some_0.0,
        ).len(),
    decreases n,
{
    if n > 0 {
        T::lemma_parsed_fits(cp, s, at);
        let first = T::parsed(cp, s, at)->Some_0;
        lemma_parsed_list_fits::<T>(cp, s, first.1, n - 1);
        let rest = parsed_list::<T>(cp, s, first.1, n - 1)->Some_0.0;
        let all = seq![first.0] + rest;
        assert(all[0] == first.0);
        assert(all.drop_first() =~= rest);
        assert forall|i: int| 0 <= i < all.len() implies T::fits(cp, #[trigger] all[i]) by {
            if i > 0 {
                assert(all[i] == rest[i - 1]);
            }
        }
    }
}

/// Where a sequence holds the bytes of elements that can stand in a class
/// file, those elements are parsed from it.
pub proof fn lemma_list_round_trip<T: Element>(
    cp: Seq<TypeView>,
    s: Seq<u8>,
    at: int,
    items: Seq<T::V>,
)
    requires
        all_fit::<T>(cp, items),
        holds_at(s, at, list_bytes::<T>(items)),
    ensures
        parsed_list::<T>(cp, s, at, items.len() as int) == Some(
            (items, at + list_bytes::<T>(items).len()),
        ),
    decreases items.len(),
{
    if items.len() > 0 {
        let rest = items.drop_first();
        lemma_holds_at_concat(s, at, T::bytes(items[0]), list_bytes::<T>(rest));
        T::lemma_round_trip(cp, s, at, items[0]);
        assert forall|i: int| 0 <= i < rest.len() implies T::fits(cp, #[trigger] rest[i]) by {
            assert(rest[i] == items[i + 1]);
        }
        lemma_list_round_trip::<T>(cp, s, at + T::bytes(items[0]).len(), rest);
        assert(seq![items[0]] + rest =~= items);
    }
}

/// The bytes of a list with one more element are the bytes of the list and
/// then those of the element.
pub proof fn lemma_list_bytes_push<T: Element>(items: Seq<T::V>, v: T::V)
    ensures
        list_bytes::<T>(items.push(v)) == list_bytes::<T>(items) + T::bytes(v),
    decreases items.len(),
{
    if items.len() == 0 {
        assert(items.push(v)[0] == v);
        assert(items.push(v).drop_first().len() == 0);
        assert(list_bytes::<T>(items.push(v).drop_first()) =~= Seq::<u8>::empty());
        assert(list_bytes::<T>(items) =~= Seq::<u8>::empty());
        assert(list_bytes::<T>(items.push(v)) =~= list_bytes::<T>(items) + T::bytes(v));
    } else {
        lemma_list_bytes_push::<T>(items.drop_first(), v);
        assert(items.push(v)[0] == items[0]);
        assert(items.push(v).drop_first() =~= items.drop_first().push(v));
        assert(list_bytes::<T>(items.push(v)) =~= list_bytes::<T>(items) + T::bytes(v));
    }
}

/// The `n` elements that stand in `s` from `at` on.
pub fn read_list<T: Element>(cp: &ConstantPool, s: &[u8], at: usize, n: usize) -> (r: Option<
    (Vec<T>, usize),
>)
    requires
        at <= s@.len(),
    ensures
        match r {
            Some((got, to)) => parsed_list::<T>(pool_view(cp@), s@, at as int, n as int) == Some(
                (values(got@), to as int),
            ) && at <= to <= s@.len(),
            None => parsed_list::<T>(pool_view(cp@), s@, at as int, n as int) is None,
        },
{
    let ghost pool = pool_view(cp@);
    let mut items: Vec<T> = Vec::new();
    let mut p = at;
    let mut i: usize = 0;
    assert(values(items@) =~= Seq::<T::V>::empty());
    while i < n
        invariant
            pool == pool_view(cp@),
            i <= n,
            at <= p <= s@.len(),
            match parsed_list::<T>(pool, s@, p as int, n - i) {
                Some((rest, end)) => parsed_list::<T>(pool, s@, at as int, n as int) == Some(
                    (values(items@) + rest, end),
                ),
                None => parsed_list::<T>(pool, s@, at as int, n as int) is None,
            },
        decreases n - i,
    {
        match T::read(cp, s, p) {
            Some((item, next)) => {
                proof {
                    let before = values(items@);
                    let after = values(items@.push(item));
                    assert(after =~= before.push(item.value()));
                    match parsed_list::<T>(pool, s@, next as int, n - i - 1) {
                        Some((rest, end)) => {
                            assert(before + (seq![item.value()] + rest) =~= after + rest);
                        },
                        None => {},
                    }
                }
                items.push(item);
                p = next;
            },
            None => {
                return None;
            },
        }
        i = i + 1;
    }
    assert(values(items@) + Seq::<T::V>::empty() =~= values(items@));
    Some((items, p))
}

/// Appends the bytes of `items` to `out`.
pub fn write_list<T: Element>(out: &mut Vec<u8>, items: &Vec<T>)
    ensures
        final(out)@ == old(out)@ + list_bytes::<T>(values(items@)),
{
    let ghost vs = values(items@);
    let mut i: usize = 0;
    assert(vs.take(0) =~= Seq::<T::V>::empty());
    assert(out@ =~= old(out)@ + list_bytes::<T>(vs.take(0)));
    while i < items.len()
        invariant
            vs == values(items@),
            i <= items@.len(),
            out@ == old(out)@ + list_bytes::<T>(vs.take(i as int)),
        decreases items@.len() - i,
    {
        items[i].write(out);
        proof {
            assert(vs[i as int] == items@[i as int].value());
            lemma_list_bytes_push::<T>(vs.take(i as int), vs[i as int]);
            assert(vs.take(i as int).push(vs[i as int]) =~= vs.take(i + 1));
            assert(out@ =~= old(out)@ + list_bytes::<T>(vs.take(i + 1)));
        }
        i = i + 1;
    }
    assert(vs.take(items@.len() as int) =~= vs);
}

/// Whether `items` can stand in a class file as a list that is preceded by
/// its length in two bytes.
pub open spec fn counted_fits<T: Element>(cp: Seq<TypeView>, items: Seq<T::V>) -> bool {
    items.len() <= 0xffff && all_fit::<T>(cp, items)
}

/// The bytes of a list that is preceded by its length in two bytes.
pub open spec fn counted_bytes<T: Element>(items: Seq<T::V>) -> Seq<u8> {
    be16(items.len() as u16) + list_bytes::<T>(items)
}

/// The list that stands in `s` at `at`, preceded by its length in two
/// bytes, and the place after it.
pub open spec fn parsed_counted<T: Element>(cp: Seq<TypeView>, s: Seq<u8>, at: int) -> Option<
    (Seq<T::V>, int),
> {
    let n = parsed_u16(s, at);
    if n is None {
        None
    } else {
        parsed_list::<T>(cp, s, at + 2, n->Some_0.0 as int)
    }
}

/// What is parsed as a list with its length can stand in a class file, and
/// ends within the sequence.
pub proof fn lemma_parsed_counted_fits<T: Element>(cp: Seq<TypeView>, s: Seq<u8>, at: int)
    requires
        0 <= at,
        parsed_counted::<T>(cp, s, at) is Some,
    ensures
        counted_fits::<T>(cp, parsed_counted::<T>(cp, s, at)->Some_0.0),
        parsed_counted::<T>(cp, s, at)->Some_0.1 <= s.len(),
        parsed_counted::<T>(cp, s, at)->Some_0.1 == at + counted_bytes::<T>(
            parsed_counted::<T>(cp, s, at)->Some_0.0,
        ).len(),
{
    lemma_parsed_list_fits::<T>(cp, s, at + 2, parsed_u16(s, at)->Some_0.0 as int);
}

/// Where a sequence holds the bytes of a list with its length, and the
/// list can stand in a class file, that list is parsed from it.
pub proof fn lemma_counted_round_trip<T: Element>(
    cp: Seq<TypeView>,
    s: Seq<u8>,
    at: int,
    items: Seq<T::V>,
)
    requires
        counted_fits::<T>(cp, items),
        holds_at(s, at, counted_bytes::<T>(items)),
    ensures
        parsed_counted::<T>(cp, s, at) == Some((items, at + counted_bytes::<T>(items).len())),
{
    lemma_holds_at_concat(s, at, be16(items.len() as u16), list_bytes::<T>(items));
    lemma_parsed_u16(s, at, items.len() as u16);
    lemma_list_round_trip::<T>(cp, s, at + 2, items);
}

/// The list that stands in `s` at `at`, preceded by its length in two
/// bytes.
pub fn read_counted<T: Element>(cp: &ConstantPool, s: &[u8], at: usize) -> (r: Option<
    (Vec<T>, usize),
>)
    ensures
        match r {
            Some((got, to)) => parsed_counted::<T>(pool_view(cp@), s@, at as int) == Some(
                (values(got@), to as int),
            ) && at <= to <= s@.len(),
            None => parsed_counted::<T>(pool_view(cp@), s@, at as int) is None,
        },
{
    match read_u16(s, at) {
        Some((n, p)) => read_list::<T>(cp, s, p, n as usize),
        None => None,
    }
}

/// Appends the bytes of `items`, preceded by their number in two bytes, to
/// `out`.
pub fn write_counted<T: Element>(out: &mut Vec<u8>, items: &Vec<T>)
    ensures
        final(out)@ == old(out)@ + counted_bytes::<T>(values(items@)),
{
    write_u16(out, items.len() as u16);
    write_list::<T>(out, items);
    assert(out@ =~= old(out)@ + counted_bytes::<T>(values(items@)));
}

/// Whether each of `items` can stand in a class file.
pub fn each_fits<T: Checked>(cp: &ConstantPool, items: &Vec<T>) -> (r: bool)
    ensures
        r == all_fit::<T>(pool_view(cp@), values(items@)),
{
    let ghost vs = values(items@);
    let mut i: usize = 0;
    while i < items.len()
        invariant
            vs == values(items@),
            i <= items@.len(),
            forall|k: int| 0 <= k < i ==> T::fits(pool_view(cp@), #[trigger] vs[k]),
        decreases items@.len() - i,
    {
        assert(vs[i as int] == items@[i as int].value());
        if !items[i].is_sound(cp) {
            return false;
        }
        i = i + 1;
    }
    true
}

/// An element that can tell whether it can stand in a class file.
pub trait Checked: Element {
    /// Whether this value can stand in a class file with the constant pool
    /// `cp`.
    fn is_sound(&self, cp: &ConstantPool) -> (r: bool)
        ensures
            r == Self::fits(pool_view(cp@), self.value()),
    ;
}

/// An element that is parsed from bytes, written as bytes and parsed again
/// is the same element.
pub proof fn lemma_parse_serialize_parse<T: Element>(cp: Seq<TypeView>, s: Seq<u8>, at: int)
    requires
        0 <= at,
        T::parsed(cp, s, at) is Some,
    ensures
        T::parsed(cp, T::bytes(T::parsed(cp, s, at)->Some_0.0), 0) == Some(
            (
                T::parsed(cp, s, at)->Some_0.0,
                T::bytes(T::parsed(cp, s, at)->Some_0.0).len() as int,
            ),
        ),
{
    let v = T::parsed(cp, s, at)->Some_0.0;
    T::lemma_parsed_fits(cp, s, at);
    lemma_holds_itself(T::bytes(v));
    T::lemma_round_trip(cp, T::bytes(v), 0, v);
}

} // verus!
