//! The types of a signature as the source language writes them.

use vstd::prelude::*;
use vstd::string::StringExecFns;
use crate::classfile::signature::{BaseType, BaseTypeView, SignatureType, SignatureTypeView};
use crate::trans::text::{dots_for_slashes, dotted, from_utf8_lossy, lossy_utf8};

verus! {

/// The name of a base type: the keyword of a primitive type or of `void`,
/// and the name of a class with dots between its parts.
pub open spec fn base_text(base: BaseTypeView) -> Seq<char> {
    match base {
        BaseTypeView::Byte => "byte"@,
        BaseTypeView::Char => "char"@,
        BaseTypeView::Double => "double"@,
        BaseTypeView::Float => "float"@,
        BaseTypeView::Int => "int"@,
        BaseTypeView::Long => "long"@,
        BaseTypeView::Short => "short"@,
        BaseTypeView::Boolean => "boolean"@,
        BaseTypeView::Object(name) => dotted(lossy_utf8(name)),
        BaseTypeView::Void => "void"@,
    }
}

/// One pair of brackets for each dimension.
pub open spec fn brackets(dims: nat) -> Seq<char>
    decreases dims,
{
    if dims == 0 {
        Seq::empty()
    } else {
        brackets((dims - 1) as nat) + "[]"@
    }
}

/// The name of a type: that of its base type, and one pair of brackets for
/// each dimension.
pub open spec fn type_text(t: SignatureTypeView) -> Seq<char> {
    base_text(t.base) + brackets(t.dims)
}

/// A type that can be written as the source language writes it.
pub trait SignatureTypeTranslator {
    /// The text that stands for this type.
    spec fn text(&self) -> Seq<char>;

    /// This type as the source language writes it.
    fn into_string(&self) -> (s: String)
        ensures
            s@ == self.text(),
    ;
}

impl SignatureTypeTranslator for SignatureType {
    open spec fn text(&self) -> Seq<char> {
        type_text(self@)
    }

    fn into_string(&self) -> (s: String) {
        let mut s = match &self.base {
            BaseType::Byte => String::from_str("byte"),
            BaseType::Char => String::from_str("char"),
            BaseType::Double => String::from_str("double"),
            BaseType::Float => String::from_str("float"),
            BaseType::Int => String::from_str("int"),
            BaseType::Long => String::from_str("long"),
            BaseType::Short => String::from_str("short"),
            BaseType::Boolean => String::from_str("boolean"),
            BaseType::Object(name) => {
                let text = from_utf8_lossy(name.as_slice());
                dots_for_slashes(text.as_str())
            },
            BaseType::Void => String::from_str("void"),
        };
        let mut i: usize = 0;
        assert(s@ =~= base_text(self.base@) + brackets(0));
        while i < self.dims
            invariant
                i <= self.dims,
                s@ == base_text(self.base@) + brackets(i as nat),
            decreases self.dims - i,
        {
            s.append("[]");
            assert(s@ =~= base_text(self.base@) + brackets((i + 1) as nat));
            i = i + 1;
        }
        s
    }
}

} // verus!
