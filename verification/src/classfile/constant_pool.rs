//! The constant pool of a class file.

use vstd::prelude::*;

verus! {

/// One entry of a constant pool. Entry 0, and the entry after a `Long` or
/// a `Double`, is `Nop`.
#[allow(inconsistent_fields)]
#[derive(Clone, PartialEq, Eq, Debug)]
pub enum Type {
    Nop,
    Class { name_index: u16 },
    FieldRef { class_index: u16, name_and_type_index: u16 },
    MethodRef { class_index: u16, name_and_type_index: u16 },
    InterfaceMethodRef { class_index: u16, name_and_type_index: u16 },
    String { string_index: u16 },
    Integer { v: [u8; 4] },
    Float { v: [u8; 4] },
    Long { v: [u8; 8] },
    Double { v: [u8; 8] },
    NameAndType { name_index: u16, desc_index: u16 },
    Utf8 { bytes: Vec<u8> },
    MethodHandle { ref_kind: u8, ref_index: u16 },
    MethodType { desc_index: u16 },
    InvokeDynamic { bootstrap_method_attr_index: u16, name_and_type_index: u16 },
    Unknown,
}

/// The mathematical value of an entry.
#[allow(inconsistent_fields)]
pub enum TypeView {
    Nop,
    Class { name_index: u16 },
    FieldRef { class_index: u16, name_and_type_index: u16 },
    MethodRef { class_index: u16, name_and_type_index: u16 },
    InterfaceMethodRef { class_index: u16, name_and_type_index: u16 },
    String { string_index: u16 },
    Integer { v: Seq<u8> },
    Float { v: Seq<u8> },
    Long { v: Seq<u8> },
    Double { v: Seq<u8> },
    NameAndType { name_index: u16, desc_index: u16 },
    Utf8 { bytes: Seq<u8> },
    MethodHandle { ref_kind: u8, ref_index: u16 },
    MethodType { desc_index: u16 },
    InvokeDynamic { bootstrap_method_attr_index: u16, name_and_type_index: u16 },
    Unknown,
}

impl View for Type {
    type V = TypeView;

    open spec fn view(&self) -> TypeView {
        match *self {
            Type::Nop => TypeView::Nop,
            Type::Class { name_index } => TypeView::Class { name_index },
            Type::FieldRef { class_index, name_and_type_index } => TypeView::FieldRef {
                class_index,
                name_and_type_index,
            },
            Type::MethodRef { class_index, name_and_type_index } => TypeView::MethodRef {
                class_index,
                name_and_type_index,
            },
            Type::InterfaceMethodRef {
                class_index,
                name_and_type_index,
            } => TypeView::InterfaceMethodRef { class_index, name_and_type_index },
            Type::String { string_index } => TypeView::String { string_index },
            Type::Integer { v } => TypeView::Integer { v: v@ },
            Type::Float { v } => TypeView::Float { v: v@ },
            Type::Long { v } => TypeView::Long { v: v@ },
            Type::Double { v } => TypeView::Double { v: v@ },
            Type::NameAndType { name_index, desc_index } => TypeView::NameAndType {
                name_index,
                desc_index,
            },
            Type::Utf8 { bytes } => TypeView::Utf8 { bytes: bytes@ },
            Type::MethodHandle { ref_kind, ref_index } => TypeView::MethodHandle {
                ref_kind,
                ref_index,
            },
            Type::MethodType { desc_index } => TypeView::MethodType { desc_index },
            Type::InvokeDynamic {
                bootstrap_method_attr_index,
                name_and_type_index,
            } => TypeView::InvokeDynamic { bootstrap_method_attr_index, name_and_type_index },
            Type::Unknown => TypeView::Unknown,
        }
    }
}

/// A constant pool.
pub type ConstantPool = Vec<Type>;

/// The views of the entries of a constant pool.
pub open spec fn pool_view(cp: Seq<Type>) -> Seq<TypeView> {
    cp.map_values(|e: Type| e@)
}

/// The bytes of the `Utf8` entry at `idx`, if there is one.
pub open spec fn utf8_at(cp: Seq<Type>, idx: int) -> Option<Seq<u8>> {
    if 0 <= idx < cp.len() {
        match cp[idx] {
            Type::Utf8 { bytes } => Some(bytes@),
            _ => None,
        }
    } else {
        None
    }
}

/// The name of the class that the `Class` entry at `idx` names, if there
/// is such an entry and its name is a `Utf8` entry.
pub open spec fn class_name_at(cp: Seq<Type>, idx: int) -> Option<Seq<u8>> {
    if 0 <= idx < cp.len() {
        match cp[idx] {
            Type::Class { name_index } => utf8_at(cp, name_index as int),
            _ => None,
        }
    } else {
        None
    }
}

/// The bytes of the `Utf8` entry at `idx`.
pub fn get_utf8(cp: &ConstantPool, idx: usize) -> (r: Option<&Vec<u8>>)
    ensures
        match utf8_at(cp@, idx as int) {
            Some(bytes) => r matches Some(v) && v@ == bytes,
            None => r is None,
        },
{
    if idx < cp.len() {
        match &cp[idx] {
            Type::Utf8 { bytes } => Some(bytes),
            _ => None,
        }
    } else {
        None
    }
}

/// The name of the class that the `Class` entry at `idx` names.
pub fn get_class_name(cp: &ConstantPool, idx: usize) -> (r: Option<&Vec<u8>>)
    ensures
        match class_name_at(cp@, idx as int) {
            Some(bytes) => r matches Some(v) && v@ == bytes,
            None => r is None,
        },
{
    if idx < cp.len() {
        match &cp[idx] {
            Type::Class { name_index } => get_utf8(cp, *name_index as usize),
            _ => None,
        }
    } else {
        None
    }
}

} // verus!
