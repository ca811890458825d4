//! Attributes as bytes: the constant pool index of the name, the length of
//! what follows in four bytes, and what follows.

use vstd::prelude::*;
use vstd::string::StringSliceAdditionalSpecFns;
use crate::classfile::codec::bytes::{
    be16, be32, holds_at, lemma_holds_at_concat, lemma_parsed_u16, lemma_parsed_u32, parsed_u16,
    parsed_u32, read_u16, read_u32, write_bytes, write_u16, write_u32,
};
use crate::classfile::constant_pool::{pool_view, ConstantPool, Type, TypeView};
use crate::util::bytes_eq;

verus! {

/// The kinds of attributes that are read part by part.
#[derive(Clone, Copy, PartialEq, Eq, Structural, Debug)]
pub enum AttributeKind {
    Code,
    Exceptions,
    LineNumberTable,
    LocalVariableTable,
    StackMapTable,
    Other,
}

/// The kind of the attribute whose name is entry `name_index` of the
/// constant pool: the name decides.
pub open spec fn attribute_kind(cp: Seq<TypeView>, name_index: u16) -> AttributeKind {
    if name_index >= cp.len() {
        AttributeKind::Other
    } else {
        match cp[name_index as int] {
            TypeView::Utf8 { bytes } => if bytes == "Code".spec_bytes() {
                AttributeKind::Code
            } else if bytes == "Exceptions".spec_bytes() {
                AttributeKind::Exceptions
            } else if bytes == "LineNumberTable".spec_bytes() {
                AttributeKind::LineNumberTable
            } else if bytes == "LocalVariableTable".spec_bytes() {
                AttributeKind::LocalVariableTable
            } else if bytes == "StackMapTable".spec_bytes() {
                AttributeKind::StackMapTable
            } else {
                AttributeKind::Other
            },
            _ => AttributeKind::Other,
        }
    }
}

/// The kind of the attribute whose name is entry `name_index` of the
/// constant pool.
pub fn kind_of(cp: &ConstantPool, name_index: u16) -> (kind: AttributeKind)
    ensures
        kind == attribute_kind(pool_view(cp@), name_index),
{
    if name_index as usize >= cp.len() {
        return AttributeKind::Other;
    }
    assert(pool_view(cp@)[name_index as int] == cp@[name_index as int]@);
    match &cp[name_index as usize] {
        Type::Utf8 { bytes } => {
            let name = bytes.as_slice();
            if bytes_eq(name, "Code".as_bytes()) {
                AttributeKind::Code
            } else if bytes_eq(name, "Exceptions".as_bytes()) {
                AttributeKind::Exceptions
            } else if bytes_eq(name, "LineNumberTable".as_bytes()) {
                AttributeKind::LineNumberTable
            } else if bytes_eq(name, "LocalVariableTable".as_bytes()) {
                AttributeKind::LocalVariableTable
            } else if bytes_eq(name, "StackMapTable".as_bytes()) {
                AttributeKind::StackMapTable
            } else {
                AttributeKind::Other
            }
        },
        _ => AttributeKind::Other,
    }
}

/// The bytes of an attribute whose name is entry `name_index` and whose
/// content is `body`.
pub open spec fn framed(name_index: u16, body: Seq<u8>) -> Seq<u8> {
    be16(name_index) + be32(body.len() as u32) + body
}

/// The head of the attribute that stands in `s` at `at`: the index of its
/// name, the place where its content begins and the place where it ends,
/// which lies within `s`.
pub open spec fn parsed_head(s: Seq<u8>, at: int) -> Option<(u16, int, int)> {
    let name = parsed_u16(s, at);
    let len = parsed_u32(s, at + 2);
    if name is None || len is None || at + 6 + len->Some_0.0 > s.len() {
        None
    } else {
        Some((name->Some_0.0, at + 6, at + 6 + len->Some_0.0))
    }
}

/// Where a sequence holds the bytes of an attribute whose content has a
/// length that four bytes can hold, the head of the attribute is parsed
/// from it, and the sequence holds the content after the head.
pub proof fn lemma_parsed_head(s: Seq<u8>, at: int, name_index: u16, body: Seq<u8>)
    requires
        body.len() <= 0xffff_ffff,
        holds_at(s, at, framed(name_index, body)),
    ensures
        parsed_head(s, at) == Some((name_index, at + 6, at + 6 + body.len())),
        holds_at(s, at + 6, body),
        framed(name_index, body).len() == 6 + body.len(),
{
    lemma_holds_at_concat(s, at, be16(name_index) + be32(body.len() as u32), body);
    lemma_holds_at_concat(s, at, be16(name_index), be32(body.len() as u32));
    lemma_parsed_u16(s, at, name_index);
    lemma_parsed_u32(s, at + 2, body.len() as u32);
}

/// The head of the attribute that stands in `s` at `at`.
pub fn read_head(s: &[u8], at: usize) -> (r: Option<(u16, usize, usize)>)
    ensures
        match r {
            Some((name, start, end)) => parsed_head(s@, at as int) == Some(
                (name, start as int, end as int),
            ) && start == at + 6 && start <= end <= s@.len(),
            None => parsed_head(s@, at as int) is None,
        },
{
    let (name, p) = match read_u16(s, at) {
        Some(r) => r,
        None => {
            return None;
        },
    };
    let (len, start) = match read_u32(s, p) {
        Some(r) => r,
        None => {
            return None;
        },
    };
    let total = s.len();
    if total - start < len as usize {
        return None;
    }
    Some((name, start, start + len as usize))
}

/// Appends the bytes of an attribute whose name is entry `name_index` and
/// whose content is `body` to `out`.
pub fn write_framed(out: &mut Vec<u8>, name_index: u16, body: &Vec<u8>)
    ensures
        final(out)@ == old(out)@ + framed(name_index, body@),
{
    write_u16(out, name_index);
    write_u32(out, body.len() as u32);
    write_bytes(out, body.as_slice());
    assert(out@ =~= old(out)@ + framed(name_index, body@));
}

} // verus!
