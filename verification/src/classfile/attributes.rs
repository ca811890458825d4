//! The attributes of a method that the tools read.

use vstd::prelude::*;

verus! {

/// One entry of a line number table: the instruction at `start_pc` begins
/// source line `number`.
#[derive(Clone, Copy, PartialEq, Eq, Structural, Debug)]
pub struct LineNumber {
    pub start_pc: u16,
    pub number: u16,
}

/// One entry of an exception table: the handler at `handler_pc` catches
/// exceptions of the class at `catch_type` that are raised from `start_pc`
/// up to, and not including, `end_pc`.
#[derive(Clone, Copy, PartialEq, Eq, Structural, Debug)]
pub struct CodeException {
    pub start_pc: u16,
    pub end_pc: u16,
    pub handler_pc: u16,
    pub catch_type: u16,
}

/// One entry of a local variable table.
#[derive(Clone, Copy, PartialEq, Eq, Structural, Debug)]
pub struct LocalVariable {
    pub start_pc: u16,
    pub length: u16,
    pub name_index: u16,
    pub signature_index: u16,
    pub index: u16,
}

/// The type of one local variable or stack entry in a stack map frame.
#[derive(Clone, Copy, PartialEq, Eq, Structural, Debug)]
pub enum VerificationTypeInfo {
    Top,
    Integer,
    Float,
    Long,
    Double,
    Null,
    UninitializedThis,
    Object { cpool_index: u16 },
    Uninitialized { offset: u16 },
}

/// One frame of a stack map table.
#[allow(inconsistent_fields)]
#[derive(Clone, PartialEq, Eq, Debug)]
pub enum StackMapFrame {
    Same { tag: u8, offset_delta: u16 },
    SameLocals1StackItem { tag: u8, offset_delta: u16, stack: VerificationTypeInfo },
    SameLocals1StackItemExtended { tag: u8, offset_delta: u16, stack: VerificationTypeInfo },
    Chop { tag: u8, offset_delta: u16 },
    SameExtended { tag: u8, offset_delta: u16 },
    Append { tag: u8, offset_delta: u16, locals: Vec<VerificationTypeInfo> },
    Full {
        tag: u8,
        offset_delta: u16,
        locals: Vec<VerificationTypeInfo>,
        stack: Vec<VerificationTypeInfo>,
    },
    Reserved(u8),
}

/// One attribute of the code of a method. The name of each attribute is
/// an entry of the constant pool.
#[allow(inconsistent_fields)]
#[derive(Clone, PartialEq, Eq, Debug)]
pub enum CodeAttribute {
    LineNumberTable { name_index: u16, tables: Vec<LineNumber> },
    LocalVariableTable { name_index: u16, tables: Vec<LocalVariable> },
    StackMapTable { name_index: u16, entries: Vec<StackMapFrame> },
    Unknown { name_index: u16, info: Vec<u8> },
}

/// The code of a method with its exception table and its attributes.
#[derive(Clone, PartialEq, Eq, Debug)]
pub struct Code {
    pub max_stack: u16,
    pub max_locals: u16,
    pub code: Vec<u8>,
    pub exceptions: Vec<CodeException>,
    pub attrs: Vec<CodeAttribute>,
}

/// One attribute of a method.
#[allow(inconsistent_fields)]
#[derive(Clone, PartialEq, Eq, Debug)]
pub enum AttributeType {
    Code { name_index: u16, code: Code },
    Exceptions { name_index: u16, exceptions: Vec<u16> },
    Unknown { name_index: u16, info: Vec<u8> },
}

} // verus!
