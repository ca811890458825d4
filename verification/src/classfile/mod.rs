//! The class file as the machine and its tools read it.

pub mod attributes;
pub mod codec;
pub mod constant_pool;
pub mod opcode;
pub mod signature;

use vstd::prelude::*;
use crate::classfile::attributes::{
    AttributeType, Code, CodeAttribute, CodeException, LineNumber, LocalVariable, StackMapFrame,
};
use crate::classfile::constant_pool::ConstantPool;

verus! {

/// A method of a class file: its flags, the constant pool indices of its
/// name and its descriptor, and its attributes.
#[derive(Clone, PartialEq, Eq, Debug)]
pub struct MethodInfo {
    pub acc_flags: u16,
    pub name_index: u16,
    pub desc_index: u16,
    pub attrs: Vec<AttributeType>,
}

/// The place of the first `Code` attribute among `attrs` from `from` on.
pub open spec fn first_code(attrs: Seq<AttributeType>, from: int) -> Option<int>
    decreases attrs.len() - from,
{
    if from < 0 || from >= attrs.len() {
        None
    } else if attrs[from] is Code {
        Some(from)
    } else {
        first_code(attrs, from + 1)
    }
}

/// The place of the first `Exceptions` attribute among `attrs` from `from`
/// on.
pub open spec fn first_exceptions(attrs: Seq<AttributeType>, from: int) -> Option<int>
    decreases attrs.len() - from,
{
    if from < 0 || from >= attrs.len() {
        None
    } else if attrs[from] is Exceptions {
        Some(from)
    } else {
        first_exceptions(attrs, from + 1)
    }
}

/// The place of the first `LineNumberTable` attribute among `attrs` from
/// `from` on.
pub open spec fn first_line_numbers(attrs: Seq<CodeAttribute>, from: int) -> Option<int>
    decreases attrs.len() - from,
{
    if from < 0 || from >= attrs.len() {
        None
    } else if attrs[from] is LineNumberTable {
        Some(from)
    } else {
        first_line_numbers(attrs, from + 1)
    }
}

/// The place of the first `LocalVariableTable` attribute among `attrs` from
/// `from` on.
pub open spec fn first_local_variables(attrs: Seq<CodeAttribute>, from: int) -> Option<int>
    decreases attrs.len() - from,
{
    if from < 0 || from >= attrs.len() {
        None
    } else if attrs[from] is LocalVariableTable {
        Some(from)
    } else {
        first_local_variables(attrs, from + 1)
    }
}

/// The place of the first `StackMapTable` attribute among `attrs` from
/// `from` on.
pub open spec fn first_stack_map(attrs: Seq<CodeAttribute>, from: int) -> Option<int>
    decreases attrs.len() - from,
{
    if from < 0 || from >= attrs.len() {
        None
    } else if attrs[from] is StackMapTable {
        Some(from)
    } else {
        first_stack_map(attrs, from + 1)
    }
}

/// The code of a method: that of its first `Code` attribute.
pub open spec fn code_of(method: &MethodInfo) -> Option<Code> {
    match first_code(method.attrs@, 0) {
        Some(i) => Some(method.attrs@[i]->Code_code),
        None => None,
    }
}

/// The constant pool indices of the classes that a method declares to
/// throw: those of its first `Exceptions` attribute.
pub open spec fn throws_of(method: &MethodInfo) -> Option<Seq<u16>> {
    match first_exceptions(method.attrs@, 0) {
        Some(i) => Some(method.attrs@[i]->Exceptions_exceptions@),
        None => None,
    }
}

/// The exception table of a method: that of its code, if the code has
/// entries in it.
pub open spec fn ex_table_of(method: &MethodInfo) -> Option<Seq<CodeException>> {
    match code_of(method) {
        Some(code) => if code.exceptions@.len() > 0 {
            Some(code.exceptions@)
        } else {
            None
        },
        None => None,
    }
}

/// The stack map table of a method: the first of its code.
pub open spec fn stack_map_table_of(method: &MethodInfo) -> Option<Seq<StackMapFrame>> {
    match code_of(method) {
        Some(code) => match first_stack_map(code.attrs@, 0) {
            Some(i) => Some(code.attrs@[i]->StackMapTable_entries@),
            None => None,
        },
        None => None,
    }
}

/// The local variable table of a method: the first of its code.
pub open spec fn local_variable_table_of(method: &MethodInfo) -> Option<Seq<LocalVariable>> {
    match code_of(method) {
        Some(code) => match first_local_variables(code.attrs@, 0) {
            Some(i) => Some(code.attrs@[i]->LocalVariableTable_tables@),
            None => None,
        },
        None => None,
    }
}

/// The line number table of a method: the first of its code, and empty
/// where there is none.
pub open spec fn line_number_table_of(method: &MethodInfo) -> Seq<LineNumber> {
    match code_of(method) {
        Some(code) => match first_line_numbers(code.attrs@, 0) {
            Some(i) => code.attrs@[i]->LineNumberTable_tables@,
            None => Seq::empty(),
        },
        None => Seq::empty(),
    }
}

impl MethodInfo {
    /// The code of the method.
    pub fn get_code(&self) -> (r: Option<&Code>)
        ensures
            match code_of(self) {
                Some(code) => r == Some(&code),
                None => r is None,
            },
    {
        let mut i: usize = 0;
        while i < self.attrs.len()
            invariant
                i <= self.attrs@.len(),
                first_code(self.attrs@, 0) == first_code(self.attrs@, i as int),
            decreases self.attrs@.len() - i,
        {
            match &self.attrs[i] {
                AttributeType::Code { code, .. } => {
                    return Some(code);
                },
                _ => {},
            }
            i = i + 1;
        }
        None
    }

    /// The constant pool indices of the classes that the method declares
    /// to throw.
    pub fn get_throws(&self) -> (r: Option<&Vec<u16>>)
        ensures
            match throws_of(self) {
                Some(throws) => r matches Some(v) && v@ == throws,
                None => r is None,
            },
    {
        let mut i: usize = 0;
        while i < self.attrs.len()
            invariant
                i <= self.attrs@.len(),
                first_exceptions(self.attrs@, 0) == first_exceptions(self.attrs@, i as int),
            decreases self.attrs@.len() - i,
        {
            match &self.attrs[i] {
                AttributeType::Exceptions { exceptions, .. } => {
                    return Some(exceptions);
                },
                _ => {},
            }
            i = i + 1;
        }
        None
    }

    /// The line number table of the method.
    pub fn get_line_number_table(&self) -> (r: Vec<LineNumber>)
        ensures
            r@ == line_number_table_of(self),
    {
        let mut table: Vec<LineNumber> = Vec::new();
        let code = match self.get_code() {
            Some(code) => code,
            None => {
                return table;
            },
        };
        let mut i: usize = 0;
        while i < code.attrs.len()
            invariant
                code_of(self) == Some(*code),
                i <= code.attrs@.len(),
                table@ == Seq::<LineNumber>::empty(),
                first_line_numbers(code.attrs@, 0) == first_line_numbers(code.attrs@, i as int),
            decreases code.attrs@.len() - i,
        {
            match &code.attrs[i] {
                CodeAttribute::LineNumberTable { tables, .. } => {
                    let mut k: usize = 0;
                    while k < tables.len()
                        invariant
                            k <= tables@.len(),
                            table@ == tables@.take(k as int),
                        decreases tables@.len() - k,
                    {
                        table.push(tables[k]);
                        assert(table@ =~= tables@.take(k + 1));
                        k = k + 1;
                    }
                    assert(tables@.take(tables@.len() as int) =~= tables@);
                    return table;
                },
                _ => {},
            }
            i = i + 1;
        }
        table
    }

    /// The exception table of the method.
    pub fn get_ex_table(&self) -> (r: Option<&Vec<CodeException>>)
        ensures
            match ex_table_of(self) {
                Some(table) => r matches Some(v) && v@ == table,
                None => r is None,
            },
    {
        match self.get_code() {
            Some(code) => if code.exceptions.len() > 0 {
                Some(&code.exceptions)
            } else {
                None
            },
            None => None,
        }
    }

    /// The stack map table of the method.
    pub fn get_stack_map_table(&self) -> (r: Option<&Vec<StackMapFrame>>)
        ensures
            match stack_map_table_of(self) {
                Some(table) => r matches Some(v) && v@ == table,
                None => r is None,
            },
    {
        let code = match self.get_code() {
            Some(code) => code,
            None => {
                return None;
            },
        };
        let mut i: usize = 0;
        while i < code.attrs.len()
            invariant
                code_of(self) == Some(*code),
                i <= code.attrs@.len(),
                first_stack_map(code.attrs@, 0) == first_stack_map(code.attrs@, i as int),
            decreases code.attrs@.len() - i,
        {
            match &code.attrs[i] {
                CodeAttribute::StackMapTable { entries, .. } => {
                    return Some(entries);
                },
                _ => {},
            }
            i = i + 1;
        }
        None
    }

    /// The local variable table of the method.
    pub fn get_local_variable_table(&self) -> (r: Option<&Vec<LocalVariable>>)
        ensures
            match local_variable_table_of(self) {
                Some(table) => r matches Some(v) && v@ == table,
                None => r is None,
            },
    {
        let code = match self.get_code() {
            Some(code) => code,
            None => {
                return None;
            },
        };
        let mut i: usize = 0;
        while i < code.attrs.len()
            invariant
                code_of(self) == Some(*code),
                i <= code.attrs@.len(),
                first_local_variables(code.attrs@, 0) == first_local_variables(
                    code.attrs@,
                    i as int,
                ),
            decreases code.attrs@.len() - i,
        {
            match &code.attrs[i] {
                CodeAttribute::LocalVariableTable { tables, .. } => {
                    return Some(tables);
                },
                _ => {},
            }
            i = i + 1;
        }
        None
    }
}

/// An attribute that is kept as the bytes that it came as.
#[derive(Clone, PartialEq, Eq, Debug)]
pub struct RawAttribute {
    pub name_index: u16,
    pub info: Vec<u8>,
}

/// A field of a class file: its flags, the constant pool indices of its
/// name and its descriptor, and its attributes.
#[derive(Clone, PartialEq, Eq, Debug)]
pub struct FieldInfo {
    pub acc_flags: u16,
    pub name_index: u16,
    pub desc_index: u16,
    pub attrs: Vec<RawAttribute>,
}

/// A class file.
#[derive(Clone, PartialEq, Eq, Debug)]
pub struct ClassFile {
    pub minor_version: u16,
    pub major_version: u16,
    pub cp: ConstantPool,
    pub acc_flags: u16,
    pub this_class: u16,
    pub super_class: u16,
    pub interfaces: Vec<u16>,
    pub fields: Vec<FieldInfo>,
    pub methods: Vec<MethodInfo>,
    pub attrs: Vec<RawAttribute>,
}

} // verus!
