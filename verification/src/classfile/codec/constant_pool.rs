//! The constant pool as bytes.
//!
//! The pool begins with the number of its entries, counted with entry 0,
//! which no bytes stand for. Each entry that follows is a tag and what
//! belongs to the tag. A `Long` or a `Double` takes two places of the pool;
//! no bytes stand for the second.

use vstd::prelude::*;
use crate::classfile::codec::bytes::{
    be16, holds_at, lemma_holds_at_concat, lemma_holds_itself, lemma_parsed_bytes,
    lemma_parsed_u16, lemma_parsed_u8, parsed_bytes, parsed_u16, parsed_u8, read_bytes,
    read_u16, read_u8, write_bytes, write_u16,
};
use crate::classfile::constant_pool::{pool_view, ConstantPool, Type, TypeView};

verus! {

/// Whether an entry takes two places of the pool.
pub open spec fn is_double_width(e: TypeView) -> bool {
    e is Long || e is Double
}

/// The bytes of one entry. No bytes stand for `Nop` and for `Unknown`.
pub open spec fn entry_bytes(e: TypeView) -> Seq<u8> {
    match e {
        TypeView::Nop => Seq::empty(),
        TypeView::Unknown => Seq::empty(),
        TypeView::Utf8 { bytes } => seq![1u8] + be16(bytes.len() as u16) + bytes,
        TypeView::Integer { v } => seq![3u8] + v,
        TypeView::Float { v } => seq![4u8] + v,
        TypeView::Long { v } => seq![5u8] + v,
        TypeView::Double { v } => seq![6u8] + v,
        TypeView::Class { name_index } => seq![7u8] + be16(name_index),
        TypeView::String { string_index } => seq![8u8] + be16(string_index),
        TypeView::FieldRef { class_index, name_and_type_index } => seq![9u8] + be16(class_index)
            + be16(name_and_type_index),
        TypeView::MethodRef { class_index, name_and_type_index } => seq![10u8] + be16(
            class_index,
        ) + be16(name_and_type_index),
        TypeView::InterfaceMethodRef { class_index, name_and_type_index } => seq![11u8] + be16(
            class_index,
        ) + be16(name_and_type_index),
        TypeView::NameAndType { name_index, desc_index } => seq![12u8] + be16(name_index) + be16(
            desc_index,
        ),
        TypeView::MethodHandle { ref_kind, ref_index } => seq![15u8] + seq![ref_kind] + be16(
            ref_index,
        ),
        TypeView::MethodType { desc_index } => seq![16u8] + be16(desc_index),
        TypeView::InvokeDynamic { bootstrap_method_attr_index, name_and_type_index } => seq![18u8]
            + be16(bootstrap_method_attr_index) + be16(name_and_type_index),
    }
}

/// Whether an entry can stand in a class file: its bytes have the length
/// that its kind asks for, and it is no placeholder.
pub open spec fn entry_fits(e: TypeView) -> bool {
    match e {
        TypeView::Nop => false,
        TypeView::Unknown => false,
        TypeView::Utf8 { bytes } => bytes.len() <= 0xffff,
        TypeView::Integer { v } => v.len() == 4,
        TypeView::Float { v } => v.len() == 4,
        TypeView::Long { v } => v.len() == 8,
        TypeView::Double { v } => v.len() == 8,
        _ => true,
    }
}

/// The entry that stands in `s` at `at`, and the place after it.
pub open spec fn parsed_entry(s: Seq<u8>, at: int) -> Option<(TypeView, int)> {
    let tag = parsed_u8(s, at);
    if tag is None {
        None
    } else {
        let t = tag->Some_0.0;
        let p = at + 1;
        if t == 1 {
            let len = parsed_u16(s, p);
            if len is None {
                None
            } else {
                match parsed_bytes(s, p + 2, len->Some_0.0 as int) {
                    Some((bytes, next)) => Some((TypeView::Utf8 { bytes }, next)),
                    None => None,
                }
            }
        } else if t == 3 || t == 4 {
            match parsed_bytes(s, p, 4) {
                Some((v, next)) => Some(
                    (
                        if t == 3 {
                            TypeView::Integer { v }
                        } else {
                            TypeView::Float { v }
                        },
                        next,
                    ),
                ),
                None => None,
            }
        } else if t == 5 || t == 6 {
            match parsed_bytes(s, p, 8) {
                Some((v, next)) => Some(
                    (
                        if t == 5 {
                            TypeView::Long { v }
                        } else {
                            TypeView::Double { v }
                        },
                        next,
                    ),
                ),
                None => None,
            }
        } else if t == 7 || t == 8 || t == 16 {
            match parsed_u16(s, p) {
                Some((index, next)) => Some(
                    (
                        if t == 7 {
                            TypeView::Class { name_index: index }
                        } else if t == 8 {
                            TypeView::String { string_index: index }
                        } else {
                            TypeView::MethodType { desc_index: index }
                        },
                        next,
                    ),
                ),
                None => None,
            }
        } else if t == 9 || t == 10 || t == 11 || t == 12 || t == 18 {
            let first = parsed_u16(s, p);
            let second = parsed_u16(s, p + 2);
            if first is None || second is None {
                None
            } else {
                let a = first->Some_0.0;
                let b = second->Some_0.0;
                Some(
                    (
                        if t == 9 {
                            TypeView::FieldRef { class_index: a, name_and_type_index: b }
                        } else if t == 10 {
                            TypeView::MethodRef { class_index: a, name_and_type_index: b }
                        } else if t == 11 {
                            TypeView::InterfaceMethodRef { class_index: a, name_and_type_index: b }
                        } else if t == 12 {
                            TypeView::NameAndType { name_index: a, desc_index: b }
                        } else {
                            TypeView::InvokeDynamic {
                                bootstrap_method_attr_index: a,
                                name_and_type_index: b,
                            }
                        },
                        p + 4,
                    ),
                )
            }
        } else if t == 15 {
            let kind = parsed_u8(s, p);
            let index = parsed_u16(s, p + 1);
            if kind is None || index is None {
                None
            } else {
                Some(
                    (
                        TypeView::MethodHandle {
                            ref_kind: kind->Some_0.0,
                            ref_index: index->Some_0.0,
                        },
                        p + 3,
                    ),
                )
            }
        } else {
            None
        }
    }
}

/// An entry that is parsed can stand in a class file, and it ends after
/// where it begins.
pub proof fn lemma_parsed_entry_fits(s: Seq<u8>, at: int)
    requires
        parsed_entry(s, at) is Some,
    ensures
        entry_fits(parsed_entry(s, at)->Some_0.0),
        at < parsed_entry(s, at)->Some_0.1 <= s.len(),
{
}

/// Where a sequence holds the bytes of an entry that can stand in a class
/// file, that entry is parsed from it.
pub proof fn lemma_entry_round_trip(s: Seq<u8>, at: int, e: TypeView)
    requires
        entry_fits(e),
        holds_at(s, at, entry_bytes(e)),
    ensures
        parsed_entry(s, at) == Some((e, at + entry_bytes(e).len())),
{
    match e {
        TypeView::Utf8 { bytes } => {
            let len = bytes.len() as u16;
            lemma_holds_at_concat(s, at, seq![1u8] + be16(len), bytes);
            lemma_holds_at_concat(s, at, seq![1u8], be16(len));
            lemma_parsed_u8(s, at, 1);
            lemma_parsed_u16(s, at + 1, len);
            lemma_parsed_bytes(s, at + 3, bytes);
        },
        TypeView::Integer { v } => {
            lemma_holds_at_concat(s, at, seq![3u8], v);
            lemma_parsed_u8(s, at, 3);
            lemma_parsed_bytes(s, at + 1, v);
        },
        TypeView::Float { v } => {
            lemma_holds_at_concat(s, at, seq![4u8], v);
            lemma_parsed_u8(s, at, 4);
            lemma_parsed_bytes(s, at + 1, v);
        },
        TypeView::Long { v } => {
            lemma_holds_at_concat(s, at, seq![5u8], v);
            lemma_parsed_u8(s, at, 5);
            lemma_parsed_bytes(s, at + 1, v);
        },
        TypeView::Double { v } => {
            lemma_holds_at_concat(s, at, seq![6u8], v);
            lemma_parsed_u8(s, at, 6);
            lemma_parsed_bytes(s, at + 1, v);
        },
        TypeView::Class { name_index } => {
            lemma_one_index(s, at, 7, name_index);
        },
        TypeView::String { string_index } => {
            lemma_one_index(s, at, 8, string_index);
        },
        TypeView::MethodType { desc_index } => {
            lemma_one_index(s, at, 16, desc_index);
        },
        TypeView::FieldRef { class_index, name_and_type_index } => {
            lemma_two_indices(s, at, 9, class_index, name_and_type_index);
        },
        TypeView::MethodRef { class_index, name_and_type_index } => {
            lemma_two_indices(s, at, 10, class_index, name_and_type_index);
        },
        TypeView::InterfaceMethodRef { class_index, name_and_type_index } => {
            lemma_two_indices(s, at, 11, class_index, name_and_type_index);
        },
        TypeView::NameAndType { name_index, desc_index } => {
            lemma_two_indices(s, at, 12, name_index, desc_index);
        },
        TypeView::InvokeDynamic { bootstrap_method_attr_index, name_and_type_index } => {
            lemma_two_indices(s, at, 18, bootstrap_method_attr_index, name_and_type_index);
        },
        TypeView::MethodHandle { ref_kind, ref_index } => {
            lemma_holds_at_concat(s, at, seq![15u8] + seq![ref_kind], be16(ref_index));
            lemma_holds_at_concat(s, at, seq![15u8], seq![ref_kind]);
            lemma_parsed_u8(s, at, 15);
            lemma_parsed_u8(s, at + 1, ref_kind);
            lemma_parsed_u16(s, at + 2, ref_index);
        },
        _ => {},
    }
}

/// A tag and one index, held by a sequence, are parsed from it.
proof fn lemma_one_index(s: Seq<u8>, at: int, tag: u8, index: u16)
    requires
        holds_at(s, at, seq![tag] + be16(index)),
    ensures
        parsed_u8(s, at) == Some((tag, at + 1)),
        parsed_u16(s, at + 1) == Some((index, at + 3)),
        (seq![tag] + be16(index)).len() == 3,
{
    lemma_holds_at_concat(s, at, seq![tag], be16(index));
    lemma_parsed_u8(s, at, tag);
    lemma_parsed_u16(s, at + 1, index);
}

/// A tag and two indices, held by a sequence, are parsed from it.
proof fn lemma_two_indices(s: Seq<u8>, at: int, tag: u8, a: u16, b: u16)
    requires
        holds_at(s, at, seq![tag] + be16(a) + be16(b)),
    ensures
        parsed_u8(s, at) == Some((tag, at + 1)),
        parsed_u16(s, at + 1) == Some((a, at + 3)),
        parsed_u16(s, at + 3) == Some((b, at + 5)),
        (seq![tag] + be16(a) + be16(b)).len() == 5,
{
    lemma_holds_at_concat(s, at, seq![tag] + be16(a), be16(b));
    lemma_holds_at_concat(s, at, seq![tag], be16(a));
    lemma_parsed_u8(s, at, tag);
    lemma_parsed_u16(s, at + 1, a);
    lemma_parsed_u16(s, at + 3, b);
}

/// Whether entry `k` of `entries` can stand where it stands: it is a
/// placeholder if it follows a `Long` or a `Double`, and can stand in a
/// class file else.
pub open spec fn place_fits(entries: Seq<TypeView>, k: int) -> bool {
    if k > 0 && is_double_width(entries[k - 1]) {
        entries[k] is Nop
    } else {
        entry_fits(entries[k])
    }
}

/// Whether a pool can stand in a class file: it has entry 0 and at most
/// 65535 entries, entry 0 and each entry after a `Long` or a `Double` are
/// placeholders, and every other entry can stand in a class file.
pub open spec fn pool_fits(cp: Seq<TypeView>) -> bool {
    &&& 1 <= cp.len() <= 0xffff
    &&& cp[0] is Nop
    &&& forall|i: int| 1 <= i < cp.len() ==> #[trigger] place_fits(cp, i)
    &&& !is_double_width(cp.last())
}

/// The bytes of the entries of `cp` from entry `i` on.
pub open spec fn entries_bytes(cp: Seq<TypeView>, i: int) -> Seq<u8>
    decreases cp.len() - i,
{
    if i < 0 || i >= cp.len() {
        Seq::empty()
    } else {
        entry_bytes(cp[i]) + entries_bytes(cp, i + 1)
    }
}

/// The bytes of a pool: the number of its entries and the entries.
pub open spec fn pool_bytes(cp: Seq<TypeView>) -> Seq<u8> {
    be16(cp.len() as u16) + entries_bytes(cp, 1)
}

/// The entries `i` to `count - 1` of the pool that stands in `s`, read from
/// `at` on, and the place after them.
pub open spec fn parsed_entries(s: Seq<u8>, at: int, i: int, count: int) -> Option<
    (Seq<TypeView>, int),
>
    decreases count - i,
{
    if i >= count {
        Some((Seq::empty(), at))
    } else {
        let first = parsed_entry(s, at);
        if first is None {
            None
        } else {
            let e = first->Some_0.0;
            let next = first->Some_0.1;
            if is_double_width(e) {
                if i + 1 >= count {
                    None
                } else {
                    let rest = parsed_entries(s, next, i + 2, count);
                    if rest is None {
                        None
                    } else {
                        Some((seq![e, TypeView::Nop] + rest->Some_0.0, rest->Some_0.1))
                    }
                }
            } else {
                let rest = parsed_entries(s, next, i + 1, count);
                if rest is None {
                    None
                } else {
                    Some((seq![e] + rest->Some_0.0, rest->Some_0.1))
                }
            }
        }
    }
}

/// The pool that stands in `s` at `at`, and the place after it.
pub open spec fn parsed_pool(s: Seq<u8>, at: int) -> Option<(Seq<TypeView>, int)> {
    let count = parsed_u16(s, at);
    if count is None || count->Some_0.0 == 0 {
        None
    } else {
        let entries = parsed_entries(s, at + 2, 1, count->Some_0.0 as int);
        if entries is None {
            None
        } else {
            Some((seq![TypeView::Nop] + entries->Some_0.0, entries->Some_0.1))
        }
    }
}

/// What is parsed as the entries `i` to `count - 1` is that many entries,
/// each of which can stand where it stands.
pub proof fn lemma_parsed_entries_fit(s: Seq<u8>, at: int, i: int, count: int)
    requires
        parsed_entries(s, at, i, count) is Some,
        i <= count,
    ensures
        ({
            let entries = parsed_entries(s, at, i, count)->Some_0.0;
            &&& entries.len() == count - i
            &&& forall|k: int| 0 <= k < entries.len() ==> #[trigger] place_fits(entries, k)
            &&& entries.len() > 0 ==> !is_double_width(entries.last())
        }),
    decreases count - i,
{
    if i < count {
        lemma_parsed_entry_fits(s, at);
        let first = parsed_entry(s, at)->Some_0;
        if is_double_width(first.0) {
            lemma_parsed_entries_fit(s, first.1, i + 2, count);
            let rest = parsed_entries(s, first.1, i + 2, count)->Some_0.0;
            let entries = seq![first.0, TypeView::Nop] + rest;
            assert(entries[0] == first.0);
            assert(entries[1] == TypeView::Nop);
            assert forall|k: int| 0 <= k < entries.len() implies #[trigger] place_fits(
                entries,
                k,
            ) by {
                if k >= 2 {
                    assert(place_fits(rest, k - 2));
                    assert(entries[k] == rest[k - 2]);
                    if k >= 3 {
                        assert(entries[k - 1] == rest[k - 3]);
                    }
                }
            }
            if rest.len() > 0 {
                assert(entries.last() == rest.last());
            } else {
                assert(entries.last() == entries[1]);
            }
        } else {
            lemma_parsed_entries_fit(s, first.1, i + 1, count);
            let rest = parsed_entries(s, first.1, i + 1, count)->Some_0.0;
            let entries = seq![first.0] + rest;
            assert(entries[0] == first.0);
            assert forall|k: int| 0 <= k < entries.len() implies #[trigger] place_fits(
                entries,
                k,
            ) by {
                if k >= 1 {
                    assert(place_fits(rest, k - 1));
                    assert(entries[k] == rest[k - 1]);
                    if k >= 2 {
                        assert(entries[k - 1] == rest[k - 2]);
                    }
                }
            }
            if rest.len() > 0 {
                assert(entries.last() == rest.last());
            } else {
                assert(entries.last() == entries[0]);
            }
        }
    }
}

/// A pool that is parsed can stand in a class file.
pub proof fn lemma_parsed_pool_fits(s: Seq<u8>, at: int)
    requires
        parsed_pool(s, at) is Some,
    ensures
        pool_fits(parsed_pool(s, at)->Some_0.0),
{
    let count = parsed_u16(s, at)->Some_0.0 as int;
    lemma_parsed_entries_fit(s, at + 2, 1, count);
    let entries = parsed_entries(s, at + 2, 1, count)->Some_0.0;
    let cp = seq![TypeView::Nop] + entries;
    assert(cp[0] == TypeView::Nop);
    assert forall|i: int| 1 <= i < cp.len() implies #[trigger] place_fits(cp, i) by {
        assert(place_fits(entries, i - 1));
        assert(cp[i] == entries[i - 1]);
        if i >= 2 {
            assert(cp[i - 1] == entries[i - 2]);
        }
    }
    if entries.len() > 0 {
        assert(cp.last() == entries.last());
    } else {
        assert(cp.last() == cp[0]);
    }
}

/// Where a sequence holds the bytes of the entries of a pool from entry
/// `i` on, and entry `i` is no placeholder of the entry before it, those
/// entries are parsed from it.
pub proof fn lemma_entries_round_trip(s: Seq<u8>, at: int, cp: Seq<TypeView>, i: int)
    requires
        pool_fits(cp),
        1 <= i <= cp.len(),
        !is_double_width(cp[i - 1]),
        holds_at(s, at, entries_bytes(cp, i)),
    ensures
        parsed_entries(s, at, i, cp.len() as int) == Some(
            (cp.subrange(i, cp.len() as int), at + entries_bytes(cp, i).len()),
        ),
    decreases cp.len() - i,
{
    if i >= cp.len() {
        assert(cp.subrange(i, cp.len() as int) =~= Seq::<TypeView>::empty());
    } else {
        let e = cp[i];
        assert(place_fits(cp, i));
        assert(entry_fits(e));
        lemma_holds_at_concat(s, at, entry_bytes(e), entries_bytes(cp, i + 1));
        lemma_entry_round_trip(s, at, e);
        let next = at + entry_bytes(e).len();
        if is_double_width(e) {
            assert(cp.last() == cp[cp.len() - 1]);
            assert(i + 1 < cp.len());
            assert(place_fits(cp, i + 1));
            assert(cp[i + 1] is Nop);
            assert(entries_bytes(cp, i + 1) =~= entries_bytes(cp, i + 2));
            lemma_entries_round_trip(s, next, cp, i + 2);
            assert(seq![e, TypeView::Nop] + cp.subrange(i + 2, cp.len() as int) =~= cp.subrange(
                i,
                cp.len() as int,
            ));
        } else {
            lemma_entries_round_trip(s, next, cp, i + 1);
            assert(seq![e] + cp.subrange(i + 1, cp.len() as int) =~= cp.subrange(
                i,
                cp.len() as int,
            ));
        }
    }
}

/// Where a sequence holds the bytes of a pool that can stand in a class
/// file, that pool is parsed from it.
pub proof fn lemma_pool_round_trip(s: Seq<u8>, at: int, cp: Seq<TypeView>)
    requires
        pool_fits(cp),
        holds_at(s, at, pool_bytes(cp)),
    ensures
        parsed_pool(s, at) == Some((cp, at + pool_bytes(cp).len())),
{
    lemma_holds_at_concat(s, at, be16(cp.len() as u16), entries_bytes(cp, 1));
    lemma_parsed_u16(s, at, cp.len() as u16);
    lemma_entries_round_trip(s, at + 2, cp, 1);
    assert(seq![TypeView::Nop] + cp.subrange(1, cp.len() as int) =~= cp);
}

/// A pool that is parsed from bytes, written as bytes and parsed again is
/// the same pool.
pub proof fn lemma_pool_parse_serialize_parse(s: Seq<u8>)
    requires
        parsed_pool(s, 0) is Some,
    ensures
        parsed_pool(pool_bytes(parsed_pool(s, 0)->Some_0.0), 0) is Some,
        parsed_pool(pool_bytes(parsed_pool(s, 0)->Some_0.0), 0)->Some_0.0 == parsed_pool(
            s,
            0,
        )->Some_0.0,
{
    let cp = parsed_pool(s, 0)->Some_0.0;
    lemma_parsed_pool_fits(s, 0);
    lemma_holds_itself(pool_bytes(cp));
    lemma_pool_round_trip(pool_bytes(cp), 0, cp);
}

/// The four bytes of `s` from `at` on.
fn read_4(s: &[u8], at: usize) -> (r: Option<([u8; 4], usize)>)
    ensures
        match r {
            Some((v, to)) => parsed_bytes(s@, at as int, 4) == Some((v@, to as int)) && to
                <= s@.len(),
            None => parsed_bytes(s@, at as int, 4) is None,
        },
{
    if at <= s.len() && s.len() - at >= 4 {
        let v: [u8; 4] = [s[at], s[at + 1], s[at + 2], s[at + 3]];
        assert(v@ =~= s@.subrange(at as int, at + 4));
        Some((v, at + 4))
    } else {
        None
    }
}

/// The eight bytes of `s` from `at` on.
fn read_8(s: &[u8], at: usize) -> (r: Option<([u8; 8], usize)>)
    ensures
        match r {
            Some((v, to)) => parsed_bytes(s@, at as int, 8) == Some((v@, to as int)) && to
                <= s@.len(),
            None => parsed_bytes(s@, at as int, 8) is None,
        },
{
    if at <= s.len() && s.len() - at >= 8 {
        let v: [u8; 8] = [
            s[at],
            s[at + 1],
            s[at + 2],
            s[at + 3],
            s[at + 4],
            s[at + 5],
            s[at + 6],
            s[at + 7],
        ];
        assert(v@ =~= s@.subrange(at as int, at + 8));
        Some((v, at + 8))
    } else {
        None
    }
}

/// The entry that stands in `s` at `at`.
pub fn parse_entry(s: &[u8], at: usize) -> (r: Option<(Type, usize)>)
    ensures
        match r {
            Some((got, to)) => parsed_entry(s@, at as int) == Some((got@, to as int)) && at < to
                <= s@.len(),
            None => parsed_entry(s@, at as int) is None,
        },
{
    let (t, p) = match read_u8(s, at) {
        Some(r) => r,
        None => {
            return None;
        },
    };
    if t == 1 {
        let (len, q) = match read_u16(s, p) {
            Some(r) => r,
            None => {
                return None;
            },
        };
        match read_bytes(s, q, len as usize) {
            Some((bytes, next)) => Some((Type::Utf8 { bytes }, next)),
            None => None,
        }
    } else if t == 3 || t == 4 {
        match read_4(s, p) {
            Some((v, next)) => if t == 3 {
                Some((Type::Integer { v }, next))
            } else {
                Some((Type::Float { v }, next))
            },
            None => None,
        }
    } else if t == 5 || t == 6 {
        match read_8(s, p) {
            Some((v, next)) => if t == 5 {
                Some((Type::Long { v }, next))
            } else {
                Some((Type::Double { v }, next))
            },
            None => None,
        }
    } else if t == 7 || t == 8 || t == 16 {
        match read_u16(s, p) {
            Some((index, next)) => if t == 7 {
                Some((Type::Class { name_index: index }, next))
            } else if t == 8 {
                Some((Type::String { string_index: index }, next))
            } else {
                Some((Type::MethodType { desc_index: index }, next))
            },
            None => None,
        }
    } else if t == 9 || t == 10 || t == 11 || t == 12 || t == 18 {
        let (a, q) = match read_u16(s, p) {
            Some(r) => r,
            None => {
                return None;
            },
        };
        let (b, next) = match read_u16(s, q) {
            Some(r) => r,
            None => {
                return None;
            },
        };
        let e = if t == 9 {
            Type::FieldRef { class_index: a, name_and_type_index: b }
        } else if t == 10 {
            Type::MethodRef { class_index: a, name_and_type_index: b }
        } else if t == 11 {
            Type::InterfaceMethodRef { class_index: a, name_and_type_index: b }
        } else if t == 12 {
            Type::NameAndType { name_index: a, desc_index: b }
        } else {
            Type::InvokeDynamic { bootstrap_method_attr_index: a, name_and_type_index: b }
        };
        Some((e, next))
    } else if t == 15 {
        let (kind, q) = match read_u8(s, p) {
            Some(r) => r,
            None => {
                return None;
            },
        };
        match read_u16(s, q) {
            Some((index, next)) => Some(
                (Type::MethodHandle { ref_kind: kind, ref_index: index }, next),
            ),
            None => None,
        }
    } else {
        None
    }
}

/// The pool that stands in `s` at `at`, and the place after it.
pub fn parse_pool(s: &[u8], at: usize) -> (r: Option<(ConstantPool, usize)>)
    ensures
        match r {
            Some((got, to)) => parsed_pool(s@, at as int) == Some((pool_view(got@), to as int))
                && to <= s@.len(),
            None => parsed_pool(s@, at as int) is None,
        },
{
    let (count, start) = match read_u16(s, at) {
        Some(r) => r,
        None => {
            return None;
        },
    };
    if count == 0 {
        return None;
    }
    let count = count as usize;
    let mut cp: Vec<Type> = Vec::new();
    cp.push(Type::Nop);
    let mut p = start;
    let mut i: usize = 1;
    assert(pool_view(cp@) =~= seq![TypeView::Nop]);
    while i < count
        invariant
            1 <= i <= count,
            count <= 0xffff,
            p <= s@.len(),
            cp@.len() == i,
            cp@[0]@ == TypeView::Nop,
            parsed_u16(s@, at as int) == Some((count as u16, start as int)),
            match parsed_entries(s@, p as int, i as int, count as int) {
                Some((rest, end)) => parsed_entries(s@, start as int, 1, count as int) == Some(
                    (pool_view(cp@).subrange(1, i as int) + rest, end),
                ),
                None => parsed_entries(s@, start as int, 1, count as int) is None,
            },
        decreases count - i,
    {
        let ghost before = pool_view(cp@);
        match parse_entry(s, p) {
            Some((e, next)) => {
                let wide = match e {
                    Type::Long { .. } => true,
                    Type::Double { .. } => true,
                    _ => false,
                };
                let ghost ev = e@;
                cp.push(e);
                if wide {
                    if i + 1 >= count {
                        return None;
                    }
                    cp.push(Type::Nop);
                    proof {
                        assert(pool_view(cp@) =~= before.push(ev).push(TypeView::Nop));
                        match parsed_entries(s@, next as int, i + 2, count as int) {
                            Some((rest, end)) => {
                                assert(before.subrange(1, i as int) + (seq![ev, TypeView::Nop]
                                    + rest) =~= pool_view(cp@).subrange(1, i + 2) + rest);
                            },
                            None => {},
                        }
                    }
                    i = i + 2;
                } else {
                    proof {
                        assert(pool_view(cp@) =~= before.push(ev));
                        match parsed_entries(s@, next as int, i + 1, count as int) {
                            Some((rest, end)) => {
                                assert(before.subrange(1, i as int) + (seq![ev] + rest)
                                    =~= pool_view(cp@).subrange(1, i + 1) + rest);
                            },
                            None => {},
                        }
                    }
                    i = i + 1;
                }
                p = next;
            },
            None => {
                return None;
            },
        }
    }
    proof {
        let view = pool_view(cp@);
        assert(view.subrange(1, i as int) + Seq::<TypeView>::empty() =~= view.subrange(
            1,
            i as int,
        ));
        assert(seq![TypeView::Nop] + view.subrange(1, i as int) =~= view);
    }
    Some((cp, p))
}

/// The bytes of one entry, appended to `out`.
fn write_entry(out: &mut Vec<u8>, e: &Type)
    ensures
        final(out)@ == old(out)@ + entry_bytes(e@),
{
    match e {
        Type::Nop => {
            assert(out@ =~= old(out)@ + entry_bytes(e@));
        },
        Type::Unknown => {
            assert(out@ =~= old(out)@ + entry_bytes(e@));
        },
        Type::Utf8 { bytes } => {
            out.push(1);
            write_u16(out, bytes.len() as u16);
            write_bytes(out, bytes.as_slice());
            assert(out@ =~= old(out)@ + entry_bytes(e@));
        },
        Type::Integer { v } => {
            out.push(3);
            write_bytes(out, v.as_slice());
            assert(out@ =~= old(out)@ + entry_bytes(e@));
        },
        Type::Float { v } => {
            out.push(4);
            write_bytes(out, v.as_slice());
            assert(out@ =~= old(out)@ + entry_bytes(e@));
        },
        Type::Long { v } => {
            out.push(5);
            write_bytes(out, v.as_slice());
            assert(out@ =~= old(out)@ + entry_bytes(e@));
        },
        Type::Double { v } => {
            out.push(6);
            write_bytes(out, v.as_slice());
            assert(out@ =~= old(out)@ + entry_bytes(e@));
        },
        Type::Class { name_index } => {
            out.push(7);
            write_u16(out, *name_index);
            assert(out@ =~= old(out)@ + entry_bytes(e@));
        },
        Type::String { string_index } => {
            out.push(8);
            write_u16(out, *string_index);
            assert(out@ =~= old(out)@ + entry_bytes(e@));
        },
        Type::FieldRef { class_index, name_and_type_index } => {
            out.push(9);
            write_u16(out, *class_index);
            write_u16(out, *name_and_type_index);
            assert(out@ =~= old(out)@ + entry_bytes(e@));
        },
        Type::MethodRef { class_index, name_and_type_index } => {
            out.push(10);
            write_u16(out, *class_index);
            write_u16(out, *name_and_type_index);
            assert(out@ =~= old(out)@ + entry_bytes(e@));
        },
        Type::InterfaceMethodRef { class_index, name_and_type_index } => {
            out.push(11);
            write_u16(out, *class_index);
            write_u16(out, *name_and_type_index);
            assert(out@ =~= old(out)@ + entry_bytes(e@));
        },
        Type::NameAndType { name_index, desc_index } => {
            out.push(12);
            write_u16(out, *name_index);
            write_u16(out, *desc_index);
            assert(out@ =~= old(out)@ + entry_bytes(e@));
        },
        Type::MethodHandle { ref_kind, ref_index } => {
            out.push(15);
            out.push(*ref_kind);
            write_u16(out, *ref_index);
            assert(out@ =~= old(out)@ + entry_bytes(e@));
        },
        Type::MethodType { desc_index } => {
            out.push(16);
            write_u16(out, *desc_index);
            assert(out@ =~= old(out)@ + entry_bytes(e@));
        },
        Type::InvokeDynamic { bootstrap_method_attr_index, name_and_type_index } => {
            out.push(18);
            write_u16(out, *bootstrap_method_attr_index);
            write_u16(out, *name_and_type_index);
            assert(out@ =~= old(out)@ + entry_bytes(e@));
        },
    }
}

/// Whether an entry can stand in a class file.
fn fits(e: &Type) -> (r: bool)
    ensures
        r == entry_fits(e@),
{
    match e {
        Type::Nop => false,
        Type::Unknown => false,
        Type::Utf8 { bytes } => bytes.len() <= 0xffff,
        _ => true,
    }
}

/// Whether a pool can stand in a class file.
pub fn pool_is_sound(cp: &ConstantPool) -> (r: bool)
    ensures
        r == pool_fits(pool_view(cp@)),
{
    let n = cp.len();
    if n < 1 || n > 0xffff {
        return false;
    }
    match cp[0] {
        Type::Nop => {},
        _ => {
            return false;
        },
    }
    let ghost view = pool_view(cp@);
    let mut wide = false;
    let mut i: usize = 1;
    while i < n
        invariant
            n == cp@.len(),
            view == pool_view(cp@),
            1 <= i <= n,
            wide == is_double_width(view[i - 1]),
            forall|k: int| 1 <= k < i ==> #[trigger] place_fits(view, k),
        decreases n - i,
    {
        let e = &cp[i];
        assert(view[i as int] == e@);
        if wide {
            match e {
                Type::Nop => {},
                _ => {
                    assert(!place_fits(view, i as int));
                    return false;
                },
            }
        } else if !fits(e) {
            assert(!place_fits(view, i as int));
            return false;
        }
        assert(place_fits(view, i as int));
        wide = match e {
            Type::Long { .. } => true,
            Type::Double { .. } => true,
            _ => false,
        };
        i = i + 1;
    }
    assert(view.last() == view[n - 1]);
    !wide
}

/// The bytes of a pool, if the pool can stand in a class file.
pub fn serialize_pool(cp: &ConstantPool) -> (r: Option<Vec<u8>>)
    ensures
        match r {
            Some(bytes) => pool_fits(pool_view(cp@)) && bytes@ == pool_bytes(pool_view(cp@)),
            None => !pool_fits(pool_view(cp@)),
        },
{
    if !pool_is_sound(cp) {
        return None;
    }
    let ghost view = pool_view(cp@);
    let mut out: Vec<u8> = Vec::new();
    write_u16(&mut out, cp.len() as u16);
    let n = cp.len();
    let mut k: usize = 1;
    assert(out@ + entries_bytes(view, 1) =~= pool_bytes(view));
    while k < n
        invariant
            n == cp@.len(),
            view == pool_view(cp@),
            1 <= k <= n,
            out@ + entries_bytes(view, k as int) == pool_bytes(view),
        decreases n - k,
    {
        let ghost before = out@;
        write_entry(&mut out, &cp[k]);
        proof {
            assert(view[k as int] == cp@[k as int]@);
            assert(before + (entry_bytes(view[k as int]) + entries_bytes(view, k + 1)) =~= out@
                + entries_bytes(view, k + 1));
        }
        k = k + 1;
    }
    assert(out@ + entries_bytes(view, n as int) =~= out@);
    Some(out)
}

} // verus!
