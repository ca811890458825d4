//! Descriptors: the types of a method's parameters and of its result, as
//! the class file spells them.
//!
//! A field type is a run of `[`, one for each dimension of an array, and
//! then a base type: one letter for a primitive type, or `L`, the name of
//! a class and `;`. A method descriptor is `(`, the field types of the
//! parameters, `)`, and the type of the result, which may be `V`.

use vstd::prelude::*;

verus! {

/// A type without its array dimensions.
#[derive(Clone, PartialEq, Eq, Debug)]
pub enum BaseType {
    Byte,
    Char,
    Double,
    Float,
    Int,
    Long,
    Short,
    Boolean,
    Object(Vec<u8>),
    Void,
}

pub enum BaseTypeView {
    Byte,
    Char,
    Double,
    Float,
    Int,
    Long,
    Short,
    Boolean,
    Object(Seq<u8>),
    Void,
}

impl View for BaseType {
    type V = BaseTypeView;

    open spec fn view(&self) -> BaseTypeView {
        match *self {
            BaseType::Byte => BaseTypeView::Byte,
            BaseType::Char => BaseTypeView::Char,
            BaseType::Double => BaseTypeView::Double,
            BaseType::Float => BaseTypeView::Float,
            BaseType::Int => BaseTypeView::Int,
            BaseType::Long => BaseTypeView::Long,
            BaseType::Short => BaseTypeView::Short,
            BaseType::Boolean => BaseTypeView::Boolean,
            BaseType::Object(name) => BaseTypeView::Object(name@),
            BaseType::Void => BaseTypeView::Void,
        }
    }
}

/// A type: a base type and the number of array dimensions around it.
#[derive(Clone, PartialEq, Eq, Debug)]
pub struct SignatureType {
    pub base: BaseType,
    pub dims: usize,
}

pub struct SignatureTypeView {
    pub base: BaseTypeView,
    pub dims: nat,
}

impl View for SignatureType {
    type V = SignatureTypeView;

    open spec fn view(&self) -> SignatureTypeView {
        SignatureTypeView { base: self.base@, dims: self.dims as nat }
    }
}

/// The types of a method's parameters and of its result.
#[derive(Clone, PartialEq, Eq, Debug)]
pub struct MethodSignature {
    pub args: Vec<SignatureType>,
    pub retype: SignatureType,
}

pub struct MethodSignatureView {
    pub args: Seq<SignatureTypeView>,
    pub retype: SignatureTypeView,
}

impl View for MethodSignature {
    type V = MethodSignatureView;

    open spec fn view(&self) -> MethodSignatureView {
        MethodSignatureView {
            args: self.args@.map_values(|t: SignatureType| t@),
            retype: self.retype@,
        }
    }
}

/// The most dimensions that an array type may have.
pub const MAX_DIMENSIONS: usize = 255;

/// The number of `[` that stand in `s` from `at` on without a break.
pub open spec fn count_brackets(s: Seq<u8>, at: int) -> nat
    decreases s.len() - at,
{
    if 0 <= at < s.len() && s[at] == 0x5b {
        1 + count_brackets(s, at + 1)
    } else {
        0
    }
}

/// The place of the first `;` in `s` from `at` on.
pub open spec fn semicolon_from(s: Seq<u8>, at: int) -> Option<int>
    decreases s.len() - at,
{
    if at < 0 || at >= s.len() {
        None
    } else if s[at] == 0x3b {
        Some(at)
    } else {
        semicolon_from(s, at + 1)
    }
}

/// The base type that stands in `s` at `at`, and the place after it. The
/// name of a class is not empty.
pub open spec fn parsed_base(s: Seq<u8>, at: int) -> Option<(BaseTypeView, int)> {
    if at < 0 || at >= s.len() {
        None
    } else if s[at] == 0x42 {
        Some((BaseTypeView::Byte, at + 1))
    } else if s[at] == 0x43 {
        Some((BaseTypeView::Char, at + 1))
    } else if s[at] == 0x44 {
        Some((BaseTypeView::Double, at + 1))
    } else if s[at] == 0x46 {
        Some((BaseTypeView::Float, at + 1))
    } else if s[at] == 0x49 {
        Some((BaseTypeView::Int, at + 1))
    } else if s[at] == 0x4a {
        Some((BaseTypeView::Long, at + 1))
    } else if s[at] == 0x53 {
        Some((BaseTypeView::Short, at + 1))
    } else if s[at] == 0x5a {
        Some((BaseTypeView::Boolean, at + 1))
    } else if s[at] == 0x56 {
        Some((BaseTypeView::Void, at + 1))
    } else if s[at] == 0x4c {
        match semicolon_from(s, at + 1) {
            Some(end) => if end > at + 1 {
                Some((BaseTypeView::Object(s.subrange(at + 1, end)), end + 1))
            } else {
                None
            },
            None => None,
        }
    } else {
        None
    }
}

/// The type that stands in `s` at `at`, and the place after it. An array
/// has at most [`MAX_DIMENSIONS`] dimensions, and none of `V`.
pub open spec fn parsed_type(s: Seq<u8>, at: int) -> Option<(SignatureTypeView, int)> {
    let dims = count_brackets(s, at);
    match parsed_base(s, at + dims) {
        Some((base, next)) => if dims > MAX_DIMENSIONS || (base is Void && dims > 0) {
            None
        } else {
            Some((SignatureTypeView { base, dims }, next))
        },
        None => None,
    }
}

/// The types of the parameters that stand in `s` from `at` on, up to the
/// `)` that ends them, and the place after that `)`. No parameter is of
/// type `V`.
pub open spec fn parsed_args(s: Seq<u8>, at: int) -> Option<(Seq<SignatureTypeView>, int)>
    decreases s.len() - at,
{
    if at < 0 || at >= s.len() {
        None
    } else if s[at] == 0x29 {
        Some((Seq::empty(), at + 1))
    } else {
        let first = parsed_type(s, at);
        if first is None {
            None
        } else {
            let t = first->Some_0.0;
            let next = first->Some_0.1;
            if t.base is Void || next <= at || next > s.len() {
                None
            } else {
                let others = parsed_args(s, next);
                if others is None {
                    None
                } else {
                    Some((seq![t] + others->Some_0.0, others->Some_0.1))
                }
            }
        }
    }
}

/// The signature that the method descriptor `s` spells, if `s` is one.
pub open spec fn parsed_method_descriptor(s: Seq<u8>) -> Option<MethodSignatureView> {
    if s.len() == 0 || s[0] != 0x28 {
        None
    } else {
        match parsed_args(s, 1) {
            Some((args, at)) => match parsed_type(s, at) {
                Some((retype, end)) => if end == s.len() {
                    Some(MethodSignatureView { args, retype })
                } else {
                    None
                },
                None => None,
            },
            None => None,
        }
    }
}

/// The base type at `at` and the place after it.
fn parse_base(s: &[u8], at: usize) -> (r: Option<(BaseType, usize)>)
    ensures
        match parsed_base(s@, at as int) {
            Some((base, next)) => r matches Some((b, n)) && b@ == base && n == next && at < n
                <= s@.len(),
            None => r is None,
        },
{
    if at >= s.len() {
        return None;
    }
    let c = s[at];
    if c == 0x42 {
        Some((BaseType::Byte, at + 1))
    } else if c == 0x43 {
        Some((BaseType::Char, at + 1))
    } else if c == 0x44 {
        Some((BaseType::Double, at + 1))
    } else if c == 0x46 {
        Some((BaseType::Float, at + 1))
    } else if c == 0x49 {
        Some((BaseType::Int, at + 1))
    } else if c == 0x4a {
        Some((BaseType::Long, at + 1))
    } else if c == 0x53 {
        Some((BaseType::Short, at + 1))
    } else if c == 0x5a {
        Some((BaseType::Boolean, at + 1))
    } else if c == 0x56 {
        Some((BaseType::Void, at + 1))
    } else if c == 0x4c {
        let mut end = at + 1;
        while end < s.len() && s[end] != 0x3b
            invariant
                at + 1 <= end <= s@.len(),
                semicolon_from(s@, at + 1) == semicolon_from(s@, end as int),
            decreases s@.len() - end,
        {
            end = end + 1;
        }
        if end >= s.len() || end == at + 1 {
            return None;
        }
        let mut name: Vec<u8> = Vec::new();
        let mut i = at + 1;
        while i < end
            invariant
                at + 1 <= i <= end <= s@.len(),
                name@ == s@.subrange(at + 1, i as int),
            decreases end - i,
        {
            name.push(s[i]);
            assert(name@ =~= s@.subrange(at + 1, i + 1));
            i = i + 1;
        }
        Some((BaseType::Object(name), end + 1))
    } else {
        None
    }
}

/// The type at `at` and the place after it.
fn parse_type(s: &[u8], at: usize) -> (r: Option<(SignatureType, usize)>)
    requires
        at <= s@.len(),
    ensures
        match parsed_type(s@, at as int) {
            Some((t, next)) => r matches Some((got, n)) && got@ == t && n == next && at < n
                <= s@.len(),
            None => r is None,
        },
{
    assert(s@.len() == s.len());
    let mut dims: usize = 0;
    while at + dims < s.len() && s[at + dims] == 0x5b
        invariant
            s@.len() <= usize::MAX,
            at + dims <= s@.len(),
            count_brackets(s@, at as int) == dims + count_brackets(s@, at + dims),
        decreases s@.len() - dims,
    {
        dims = dims + 1;
    }
    match parse_base(s, at + dims) {
        Some((base, next)) => {
            let is_void = match base {
                BaseType::Void => true,
                _ => false,
            };
            if dims > MAX_DIMENSIONS || (is_void && dims > 0) {
                None
            } else {
                Some((SignatureType { base, dims }, next))
            }
        },
        None => None,
    }
}

impl MethodSignature {
    /// The signature that the method descriptor `desc` spells, if `desc`
    /// is one.
    pub fn new(desc: &[u8]) -> (r: Option<MethodSignature>)
        ensures
            match parsed_method_descriptor(desc@) {
                Some(sig) => r matches Some(got) && got@ == sig && got.args@.len() < desc@.len(),
                None => r is None,
            },
    {
        if desc.len() == 0 || desc[0] != 0x28 {
            return None;
        }
        let mut args: Vec<SignatureType> = Vec::new();
        let mut at: usize = 1;
        loop
            invariant_except_break
                1 <= at <= desc@.len(),
                args@.len() < at,
                match parsed_args(desc@, at as int) {
                    Some((rest, end)) => parsed_args(desc@, 1) == Some(
                        (args@.map_values(|t: SignatureType| t@) + rest, end),
                    ),
                    None => parsed_args(desc@, 1) is None,
                },
            ensures
                1 <= at <= desc@.len(),
                args@.len() < at,
                parsed_args(desc@, 1) == Some(
                    (args@.map_values(|t: SignatureType| t@), at as int),
                ),
            decreases desc@.len() - at,
        {
            if at >= desc.len() {
                return None;
            }
            if desc[at] == 0x29 {
                assert(args@.map_values(|t: SignatureType| t@) + Seq::<
                    SignatureTypeView,
                >::empty() =~= args@.map_values(|t: SignatureType| t@));
                at = at + 1;
                break;
            }
            match parse_type(desc, at) {
                Some((t, next)) => {
                    let is_void = match t.base {
                        BaseType::Void => true,
                        _ => false,
                    };
                    if is_void {
                        return None;
                    }
                    proof {
                        let before = args@.map_values(|t: SignatureType| t@);
                        let after = args@.push(t).map_values(|t: SignatureType| t@);
                        assert(after =~= before + seq![t@]);
                        match parsed_args(desc@, next as int) {
                            Some((rest, end)) => {
                                assert(before + (seq![t@] + rest) =~= after + rest);
                            },
                            None => {},
                        }
                    }
                    args.push(t);
                    at = next;
                },
                None => {
                    return None;
                },
            }
        }
        match parse_type(desc, at) {
            Some((retype, end)) => if end == desc.len() {
                Some(MethodSignature { args, retype })
            } else {
                None
            },
            None => None,
        }
    }
}

} // verus!
