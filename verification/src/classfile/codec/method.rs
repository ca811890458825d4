//! The code of a method, its attributes and the method itself as bytes.

use vstd::prelude::*;
use crate::classfile::attributes::{
    AttributeType, Code, CodeAttribute, CodeException, LineNumber, LocalVariable, StackMapFrame,
};
use crate::classfile::codec::bytes::{
    be16, be32, holds_at, lemma_holds_at_concat, lemma_parsed_bytes, lemma_parsed_u16,
    lemma_parsed_u32, parsed_bytes, parsed_u16, parsed_u32, read_bytes, read_u16, read_u32,
    write_bytes, write_u16, write_u32,
};
use crate::classfile::codec::framed::{
    attribute_kind, framed, kind_of, lemma_parsed_head, parsed_head, read_head, write_framed,
    AttributeKind,
};
use crate::classfile::codec::frames::StackMapFrameView;
use crate::classfile::codec::list::{
    counted_bytes, counted_fits, each_fits, lemma_counted_round_trip, lemma_parsed_counted_fits,
    parsed_counted, read_counted, values, write_counted, Checked, Element,
};
use crate::classfile::constant_pool::{pool_view, ConstantPool, TypeView};
use crate::classfile::MethodInfo;

verus! {

/// The values of a vector of exception table entries are its elements.
pub proof fn lemma_values_of_exceptions(items: Seq<CodeException>)
    ensures
        values::<CodeException>(items) == items,
{
    assert(values::<CodeException>(items) =~= items);
}

/// The values of a vector of line numbers are its elements.
pub proof fn lemma_values_of_line_numbers(items: Seq<LineNumber>)
    ensures
        values::<LineNumber>(items) == items,
{
    assert(values::<LineNumber>(items) =~= items);
}

/// The values of a vector of local variables are its elements.
pub proof fn lemma_values_of_local_variables(items: Seq<LocalVariable>)
    ensures
        values::<LocalVariable>(items) == items,
{
    assert(values::<LocalVariable>(items) =~= items);
}

/// The values of a vector of indices are its elements.
pub proof fn lemma_values_of_indices(items: Seq<u16>)
    ensures
        values::<u16>(items) == items,
{
    assert(values::<u16>(items) =~= items);
}

/// The mathematical value of an attribute of code.
#[allow(inconsistent_fields)]
pub enum CodeAttributeView {
    LineNumberTable { name_index: u16, tables: Seq<LineNumber> },
    LocalVariableTable { name_index: u16, tables: Seq<LocalVariable> },
    StackMapTable { name_index: u16, entries: Seq<StackMapFrameView> },
    Unknown { name_index: u16, info: Seq<u8> },
}

impl View for CodeAttribute {
    type V = CodeAttributeView;

    open spec fn view(&self) -> CodeAttributeView {
        match *self {
            CodeAttribute::LineNumberTable { name_index, tables } => CodeAttributeView::LineNumberTable {
                name_index,
                tables: tables@,
            },
            CodeAttribute::LocalVariableTable {
                name_index,
                tables,
            } => CodeAttributeView::LocalVariableTable { name_index, tables: tables@ },
            CodeAttribute::StackMapTable { name_index, entries } => CodeAttributeView::StackMapTable {
                name_index,
                entries: values::<StackMapFrame>(entries@),
            },
            CodeAttribute::Unknown { name_index, info } => CodeAttributeView::Unknown {
                name_index,
                info: info@,
            },
        }
    }
}

/// The constant pool index of the name of an attribute of code.
pub open spec fn code_attribute_name(v: CodeAttributeView) -> u16 {
    match v {
        CodeAttributeView::LineNumberTable { name_index, .. } => name_index,
        CodeAttributeView::LocalVariableTable { name_index, .. } => name_index,
        CodeAttributeView::StackMapTable { name_index, .. } => name_index,
        CodeAttributeView::Unknown { name_index, .. } => name_index,
    }
}

/// The content of an attribute of code: a table with its length, or the
/// bytes of an attribute that is not read part by part.
pub open spec fn code_attribute_body(v: CodeAttributeView) -> Seq<u8> {
    match v {
        CodeAttributeView::LineNumberTable { tables, .. } => counted_bytes::<LineNumber>(tables),
        CodeAttributeView::LocalVariableTable { tables, .. } => counted_bytes::<LocalVariable>(
            tables,
        ),
        CodeAttributeView::StackMapTable { entries, .. } => counted_bytes::<StackMapFrame>(
            entries,
        ),
        CodeAttributeView::Unknown { info, .. } => info,
    }
}

impl Element for CodeAttribute {
    type V = CodeAttributeView;

    open spec fn value(&self) -> CodeAttributeView {
        self@
    }

    /// An attribute is of the kind that its name says, its table can stand
    /// in a class file, and four bytes can hold the length of its content.
    open spec fn fits(cp: Seq<TypeView>, v: CodeAttributeView) -> bool {
        &&& code_attribute_body(v).len() <= 0xffff_ffff
        &&& match v {
            CodeAttributeView::LineNumberTable { name_index, tables } => attribute_kind(
                cp,
                name_index,
            ) == AttributeKind::LineNumberTable && counted_fits::<LineNumber>(cp, tables),
            CodeAttributeView::LocalVariableTable { name_index, tables } => attribute_kind(
                cp,
                name_index,
            ) == AttributeKind::LocalVariableTable && counted_fits::<LocalVariable>(cp, tables),
            CodeAttributeView::StackMapTable { name_index, entries } => attribute_kind(
                cp,
                name_index,
            ) == AttributeKind::StackMapTable && counted_fits::<StackMapFrame>(cp, entries),
            CodeAttributeView::Unknown { name_index, .. } => {
                let kind = attribute_kind(cp, name_index);
                kind != AttributeKind::LineNumberTable && kind != AttributeKind::LocalVariableTable
                    && kind != AttributeKind::StackMapTable
            },
        }
    }

    open spec fn bytes(v: CodeAttributeView) -> Seq<u8> {
        framed(code_attribute_name(v), code_attribute_body(v))
    }

    open spec fn parsed(cp: Seq<TypeView>, s: Seq<u8>, at: int) -> Option<
        (CodeAttributeView, int),
    > {
        let head = parsed_head(s, at);
        if head is None {
            None
        } else {
            let name_index = head->Some_0.0;
            let start = head->Some_0.1;
            let end = head->Some_0.2;
            let kind = attribute_kind(cp, name_index);
            if kind == AttributeKind::LineNumberTable {
                let tables = parsed_counted::<LineNumber>(cp, s, start);
                if tables is None || tables->Some_0.1 != end {
                    None
                } else {
                    Some(
                        (
                            CodeAttributeView::LineNumberTable {
                                name_index,
                                tables: tables->Some_0.0,
                            },
                            end,
                        ),
                    )
                }
            } else if kind == AttributeKind::LocalVariableTable {
                let tables = parsed_counted::<LocalVariable>(cp, s, start);
                if tables is None || tables->Some_0.1 != end {
                    None
                } else {
                    Some(
                        (
                            CodeAttributeView::LocalVariableTable {
                                name_index,
                                tables: tables->Some_0.0,
                            },
                            end,
                        ),
                    )
                }
            } else if kind == AttributeKind::StackMapTable {
                let entries = parsed_counted::<StackMapFrame>(cp, s, start);
                if entries is None || entries->Some_0.1 != end {
                    None
                } else {
                    Some(
                        (
                            CodeAttributeView::StackMapTable {
                                name_index,
                                entries: entries->Some_0.0,
                            },
                            end,
                        ),
                    )
                }
            } else {
                Some((CodeAttributeView::Unknown { name_index, info: s.subrange(start, end) }, end))
            }
        }
    }

    proof fn lemma_parsed_fits(cp: Seq<TypeView>, s: Seq<u8>, at: int) {
        let head = parsed_head(s, at)->Some_0;
        let kind = attribute_kind(cp, head.0);
        if kind == AttributeKind::LineNumberTable {
            lemma_parsed_counted_fits::<LineNumber>(cp, s, head.1);
        } else if kind == AttributeKind::LocalVariableTable {
            lemma_parsed_counted_fits::<LocalVariable>(cp, s, head.1);
        } else if kind == AttributeKind::StackMapTable {
            lemma_parsed_counted_fits::<StackMapFrame>(cp, s, head.1);
        }
    }

    proof fn lemma_round_trip(cp: Seq<TypeView>, s: Seq<u8>, at: int, v: CodeAttributeView) {
        let body = code_attribute_body(v);
        lemma_parsed_head(s, at, code_attribute_name(v), body);
        match v {
            CodeAttributeView::LineNumberTable { tables, .. } => {
                lemma_counted_round_trip::<LineNumber>(cp, s, at + 6, tables);
            },
            CodeAttributeView::LocalVariableTable { tables, .. } => {
                lemma_counted_round_trip::<LocalVariable>(cp, s, at + 6, tables);
            },
            CodeAttributeView::StackMapTable { entries, .. } => {
                lemma_counted_round_trip::<StackMapFrame>(cp, s, at + 6, entries);
            },
            CodeAttributeView::Unknown { info, .. } => {
                lemma_parsed_bytes(s, at + 6, info);
            },
        }
    }

    fn read(cp: &ConstantPool, s: &[u8], at: usize) -> (r: Option<(CodeAttribute, usize)>) {
        let (name_index, start, end) = match read_head(s, at) {
            Some(r) => r,
            None => {
                return None;
            },
        };
        match kind_of(cp, name_index) {
            AttributeKind::LineNumberTable => match read_counted::<LineNumber>(cp, s, start) {
                Some((tables, next)) => {
                    proof {
                        lemma_values_of_line_numbers(tables@);
                    }
                    if next == end {
                        Some((CodeAttribute::LineNumberTable { name_index, tables }, end))
                    } else {
                        None
                    }
                },
                None => None,
            },
            AttributeKind::LocalVariableTable => match read_counted::<LocalVariable>(
                cp,
                s,
                start,
            ) {
                Some((tables, next)) => {
                    proof {
                        lemma_values_of_local_variables(tables@);
                    }
                    if next == end {
                        Some((CodeAttribute::LocalVariableTable { name_index, tables }, end))
                    } else {
                        None
                    }
                },
                None => None,
            },
            AttributeKind::StackMapTable => match read_counted::<StackMapFrame>(cp, s, start) {
                Some((entries, next)) => if next == end {
                    Some((CodeAttribute::StackMapTable { name_index, entries }, end))
                } else {
                    None
                },
                None => None,
            },
            _ => match read_bytes(s, start, end - start) {
                Some((info, next)) => Some((CodeAttribute::Unknown { name_index, info }, end)),
                None => None,
            },
        }
    }

    fn write(&self, out: &mut Vec<u8>) {
        let mut body: Vec<u8> = Vec::new();
        match self {
            CodeAttribute::LineNumberTable { name_index, tables } => {
                write_counted::<LineNumber>(&mut body, tables);
                proof {
                    lemma_values_of_line_numbers(tables@);
                }
                assert(body@ =~= code_attribute_body(self@));
                write_framed(out, *name_index, &body);
            },
            CodeAttribute::LocalVariableTable { name_index, tables } => {
                write_counted::<LocalVariable>(&mut body, tables);
                proof {
                    lemma_values_of_local_variables(tables@);
                }
                assert(body@ =~= code_attribute_body(self@));
                write_framed(out, *name_index, &body);
            },
            CodeAttribute::StackMapTable { name_index, entries } => {
                write_counted::<StackMapFrame>(&mut body, entries);
                assert(body@ =~= code_attribute_body(self@));
                write_framed(out, *name_index, &body);
            },
            CodeAttribute::Unknown { name_index, info } => {
                write_framed(out, *name_index, info);
            },
        }
    }
}

impl Checked for CodeAttribute {
    fn is_sound(&self, cp: &ConstantPool) -> (r: bool) {
        let mut body: Vec<u8> = Vec::new();
        let ok = match self {
            CodeAttribute::LineNumberTable { name_index, tables } => {
                write_counted::<LineNumber>(&mut body, tables);
                proof {
                    lemma_values_of_line_numbers(tables@);
                }
                assert(body@ =~= code_attribute_body(self@));
                tables.len() <= 0xffff && matches!(
                    kind_of(cp, *name_index),
                    AttributeKind::LineNumberTable
                ) && each_fits::<LineNumber>(cp, tables)
            },
            CodeAttribute::LocalVariableTable { name_index, tables } => {
                write_counted::<LocalVariable>(&mut body, tables);
                proof {
                    lemma_values_of_local_variables(tables@);
                }
                assert(body@ =~= code_attribute_body(self@));
                tables.len() <= 0xffff && matches!(
                    kind_of(cp, *name_index),
                    AttributeKind::LocalVariableTable
                ) && each_fits::<LocalVariable>(cp, tables)
            },
            CodeAttribute::StackMapTable { name_index, entries } => {
                write_counted::<StackMapFrame>(&mut body, entries);
                assert(body@ =~= code_attribute_body(self@));
                entries.len() <= 0xffff && matches!(
                    kind_of(cp, *name_index),
                    AttributeKind::StackMapTable
                ) && each_fits::<StackMapFrame>(cp, entries)
            },
            CodeAttribute::Unknown { name_index, info } => {
                write_bytes(&mut body, info.as_slice());
                assert(body@ =~= code_attribute_body(self@));
                match kind_of(cp, *name_index) {
                    AttributeKind::LineNumberTable => false,
                    AttributeKind::LocalVariableTable => false,
                    AttributeKind::StackMapTable => false,
                    _ => true,
                }
            },
        };
        ok && body.len() <= 0xffff_ffff
    }
}

/// The mathematical value of the code of a method.
pub struct CodeView {
    pub max_stack: u16,
    pub max_locals: u16,
    pub code: Seq<u8>,
    pub exceptions: Seq<CodeException>,
    pub attrs: Seq<CodeAttributeView>,
}

impl View for Code {
    type V = CodeView;

    open spec fn view(&self) -> CodeView {
        CodeView {
            max_stack: self.max_stack,
            max_locals: self.max_locals,
            code: self.code@,
            exceptions: self.exceptions@,
            attrs: values::<CodeAttribute>(self.attrs@),
        }
    }
}

/// Whether the code of a method can stand in a class file: four bytes can
/// hold the length of the code, and the tables can stand in a class file.
pub open spec fn code_fits(cp: Seq<TypeView>, c: CodeView) -> bool {
    &&& c.code.len() <= 0xffff_ffff
    &&& counted_fits::<CodeException>(cp, c.exceptions)
    &&& counted_fits::<CodeAttribute>(cp, c.attrs)
}

/// The bytes of the code of a method: the limits, the code with its
/// length, the exception table and the attributes.
pub open spec fn code_bytes(c: CodeView) -> Seq<u8> {
    be16(c.max_stack) + be16(c.max_locals) + be32(c.code.len() as u32) + c.code + counted_bytes::<
        CodeException,
    >(c.exceptions) + counted_bytes::<CodeAttribute>(c.attrs)
}

/// The code of a method that stands in `s` at `at`, and the place after
/// it.
pub open spec fn parsed_code(cp: Seq<TypeView>, s: Seq<u8>, at: int) -> Option<(CodeView, int)> {
    let max_stack = parsed_u16(s, at);
    let max_locals = parsed_u16(s, at + 2);
    let len = parsed_u32(s, at + 4);
    if max_stack is None || max_locals is None || len is None {
        None
    } else {
        let code = parsed_bytes(s, at + 8, len->Some_0.0 as int);
        if code is None {
            None
        } else {
            let exceptions = parsed_counted::<CodeException>(cp, s, code->Some_0.1);
            if exceptions is None {
                None
            } else {
                let attrs = parsed_counted::<CodeAttribute>(cp, s, exceptions->Some_0.1);
                if attrs is None {
                    None
                } else {
                    Some(
                        (
                            CodeView {
                                max_stack: max_stack->Some_0.0,
                                max_locals: max_locals->Some_0.0,
                                code: code->Some_0.0,
                                exceptions: exceptions->Some_0.0,
                                attrs: attrs->Some_0.0,
                            },
                            attrs->Some_0.1,
                        ),
                    )
                }
            }
        }
    }
}

/// Code that is parsed can stand in a class file, ends within the
/// sequence, and has as many bytes as were read.
pub proof fn lemma_parsed_code_fits(cp: Seq<TypeView>, s: Seq<u8>, at: int)
    requires
        0 <= at,
        parsed_code(cp, s, at) is Some,
    ensures
        code_fits(cp, parsed_code(cp, s, at)->Some_0.0),
        parsed_code(cp, s, at)->Some_0.1 <= s.len(),
        parsed_code(cp, s, at)->Some_0.1 == at + code_bytes(parsed_code(cp, s, at)->Some_0.0).len(),
{
    let len = parsed_u32(s, at + 4)->Some_0.0;
    let code = parsed_bytes(s, at + 8, len as int)->Some_0;
    lemma_parsed_counted_fits::<CodeException>(cp, s, code.1);
    let exceptions = parsed_counted::<CodeException>(cp, s, code.1)->Some_0;
    lemma_parsed_counted_fits::<CodeAttribute>(cp, s, exceptions.1);
}

/// Where a sequence holds the bytes of code that can stand in a class
/// file, that code is parsed from it.
pub proof fn lemma_code_round_trip(cp: Seq<TypeView>, s: Seq<u8>, at: int, c: CodeView)
    requires
        code_fits(cp, c),
        holds_at(s, at, code_bytes(c)),
    ensures
        parsed_code(cp, s, at) == Some((c, at + code_bytes(c).len())),
{
    let a = be16(c.max_stack);
    let b = be16(c.max_locals);
    let l = be32(c.code.len() as u32);
    let e = counted_bytes::<CodeException>(c.exceptions);
    let t = counted_bytes::<CodeAttribute>(c.attrs);
    lemma_holds_at_concat(s, at, a + b + l + c.code + e, t);
    lemma_holds_at_concat(s, at, a + b + l + c.code, e);
    lemma_holds_at_concat(s, at, a + b + l, c.code);
    lemma_holds_at_concat(s, at, a + b, l);
    lemma_holds_at_concat(s, at, a, b);
    lemma_parsed_u16(s, at, c.max_stack);
    lemma_parsed_u16(s, at + 2, c.max_locals);
    lemma_parsed_u32(s, at + 4, c.code.len() as u32);
    lemma_parsed_bytes(s, at + 8, c.code);
    lemma_counted_round_trip::<CodeException>(cp, s, at + 8 + c.code.len(), c.exceptions);
    lemma_counted_round_trip::<CodeAttribute>(cp, s, at + 8 + c.code.len() + e.len(), c.attrs);
}

/// The code of a method that stands in `s` at `at`.
pub fn read_code(cp: &ConstantPool, s: &[u8], at: usize) -> (r: Option<(Code, usize)>)
    ensures
        match r {
            Some((got, to)) => parsed_code(pool_view(cp@), s@, at as int) == Some(
                (got@, to as int),
            ) && at <= to <= s@.len(),
            None => parsed_code(pool_view(cp@), s@, at as int) is None,
        },
{
    let (max_stack, p) = match read_u16(s, at) {
        Some(r) => r,
        None => {
            return None;
        },
    };
    let (max_locals, p) = match read_u16(s, p) {
        Some(r) => r,
        None => {
            return None;
        },
    };
    let (len, p) = match read_u32(s, p) {
        Some(r) => r,
        None => {
            return None;
        },
    };
    let (code, p) = match read_bytes(s, p, len as usize) {
        Some(r) => r,
        None => {
            return None;
        },
    };
    let (exceptions, p) = match read_counted::<CodeException>(cp, s, p) {
        Some(r) => r,
        None => {
            return None;
        },
    };
    let (attrs, p) = match read_counted::<CodeAttribute>(cp, s, p) {
        Some(r) => r,
        None => {
            return None;
        },
    };
    proof {
        lemma_values_of_exceptions(exceptions@);
    }
    Some((Code { max_stack, max_locals, code, exceptions, attrs }, p))
}

/// Appends the bytes of the code of a method to `out`.
pub fn write_code(out: &mut Vec<u8>, c: &Code)
    ensures
        final(out)@ == old(out)@ + code_bytes(c@),
{
    write_u16(out, c.max_stack);
    write_u16(out, c.max_locals);
    write_u32(out, c.code.len() as u32);
    write_bytes(out, c.code.as_slice());
    write_counted::<CodeException>(out, &c.exceptions);
    write_counted::<CodeAttribute>(out, &c.attrs);
    proof {
        lemma_values_of_exceptions(c.exceptions@);
    }
    assert(out@ =~= old(out)@ + code_bytes(c@));
}

/// Whether the code of a method can stand in a class file.
pub fn code_is_sound(cp: &ConstantPool, c: &Code) -> (r: bool)
    ensures
        r == code_fits(pool_view(cp@), c@),
{
    proof {
        lemma_values_of_exceptions(c.exceptions@);
    }
    c.code.len() <= 0xffff_ffff && c.exceptions.len() <= 0xffff && each_fits::<CodeException>(
        cp,
        &c.exceptions,
    ) && c.attrs.len() <= 0xffff && each_fits::<CodeAttribute>(cp, &c.attrs)
}

/// The mathematical value of an attribute of a method.
#[allow(inconsistent_fields)]
pub enum AttributeTypeView {
    Code { name_index: u16, code: CodeView },
    Exceptions { name_index: u16, exceptions: Seq<u16> },
    Unknown { name_index: u16, info: Seq<u8> },
}

impl View for AttributeType {
    type V = AttributeTypeView;

    open spec fn view(&self) -> AttributeTypeView {
        match *self {
            AttributeType::Code { name_index, code } => AttributeTypeView::Code {
                name_index,
                code: code@,
            },
            AttributeType::Exceptions { name_index, exceptions } => AttributeTypeView::Exceptions {
                name_index,
                exceptions: exceptions@,
            },
            AttributeType::Unknown { name_index, info } => AttributeTypeView::Unknown {
                name_index,
                info: info@,
            },
        }
    }
}

/// The constant pool index of the name of an attribute of a method.
pub open spec fn attribute_name(v: AttributeTypeView) -> u16 {
    match v {
        AttributeTypeView::Code { name_index, .. } => name_index,
        AttributeTypeView::Exceptions { name_index, .. } => name_index,
        AttributeTypeView::Unknown { name_index, .. } => name_index,
    }
}

/// The content of an attribute of a method.
pub open spec fn attribute_body(v: AttributeTypeView) -> Seq<u8> {
    match v {
        AttributeTypeView::Code { code, .. } => code_bytes(code),
        AttributeTypeView::Exceptions { exceptions, .. } => counted_bytes::<u16>(exceptions),
        AttributeTypeView::Unknown { info, .. } => info,
    }
}

impl Element for AttributeType {
    type V = AttributeTypeView;

    open spec fn value(&self) -> AttributeTypeView {
        self@
    }

    /// An attribute is of the kind that its name says, its content can
    /// stand in a class file, and four bytes can hold the length of its
    /// content.
    open spec fn fits(cp: Seq<TypeView>, v: AttributeTypeView) -> bool {
        &&& attribute_body(v).len() <= 0xffff_ffff
        &&& match v {
            AttributeTypeView::Code { name_index, code } => attribute_kind(cp, name_index)
                == AttributeKind::Code && code_fits(cp, code),
            AttributeTypeView::Exceptions { name_index, exceptions } => attribute_kind(
                cp,
                name_index,
            ) == AttributeKind::Exceptions && counted_fits::<u16>(cp, exceptions),
            AttributeTypeView::Unknown { name_index, .. } => {
                let kind = attribute_kind(cp, name_index);
                kind != AttributeKind::Code && kind != AttributeKind::Exceptions
            },
        }
    }

    open spec fn bytes(v: AttributeTypeView) -> Seq<u8> {
        framed(attribute_name(v), attribute_body(v))
    }

    open spec fn parsed(cp: Seq<TypeView>, s: Seq<u8>, at: int) -> Option<
        (AttributeTypeView, int),
    > {
        let head = parsed_head(s, at);
        if head is None {
            None
        } else {
            let name_index = head->Some_0.0;
            let start = head->Some_0.1;
            let end = head->Some_0.2;
            let kind = attribute_kind(cp, name_index);
            if kind == AttributeKind::Code {
                let code = parsed_code(cp, s, start);
                if code is None || code->Some_0.1 != end {
                    None
                } else {
                    Some((AttributeTypeView::Code { name_index, code: code->Some_0.0 }, end))
                }
            } else if kind == AttributeKind::Exceptions {
                let exceptions = parsed_counted::<u16>(cp, s, start);
                if exceptions is None || exceptions->Some_0.1 != end {
                    None
                } else {
                    Some(
                        (
                            AttributeTypeView::Exceptions {
                                name_index,
                                exceptions: exceptions->Some_0.0,
                            },
                            end,
                        ),
                    )
                }
            } else {
                Some((AttributeTypeView::Unknown { name_index, info: s.subrange(start, end) }, end))
            }
        }
    }

    proof fn lemma_parsed_fits(cp: Seq<TypeView>, s: Seq<u8>, at: int) {
        let head = parsed_head(s, at)->Some_0;
        let kind = attribute_kind(cp, head.0);
        if kind == AttributeKind::Code {
            lemma_parsed_code_fits(cp, s, head.1);
        } else if kind == AttributeKind::Exceptions {
            lemma_parsed_counted_fits::<u16>(cp, s, head.1);
        }
    }

    proof fn lemma_round_trip(cp: Seq<TypeView>, s: Seq<u8>, at: int, v: AttributeTypeView) {
        lemma_parsed_head(s, at, attribute_name(v), attribute_body(v));
        match v {
            AttributeTypeView::Code { code, .. } => {
                lemma_code_round_trip(cp, s, at + 6, code);
            },
            AttributeTypeView::Exceptions { exceptions, .. } => {
                lemma_counted_round_trip::<u16>(cp, s, at + 6, exceptions);
            },
            AttributeTypeView::Unknown { info, .. } => {
                lemma_parsed_bytes(s, at + 6, info);
            },
        }
    }

    fn read(cp: &ConstantPool, s: &[u8], at: usize) -> (r: Option<(AttributeType, usize)>) {
        let (name_index, start, end) = match read_head(s, at) {
            Some(r) => r,
            None => {
                return None;
            },
        };
        match kind_of(cp, name_index) {
            AttributeKind::Code => match read_code(cp, s, start) {
                Some((code, next)) => if next == end {
                    Some((AttributeType::Code { name_index, code }, end))
                } else {
                    None
                },
                None => None,
            },
            AttributeKind::Exceptions => match read_counted::<u16>(cp, s, start) {
                Some((exceptions, next)) => {
                    proof {
                        lemma_values_of_indices(exceptions@);
                    }
                    if next == end {
                        Some((AttributeType::Exceptions { name_index, exceptions }, end))
                    } else {
                        None
                    }
                },
                None => None,
            },
            _ => match read_bytes(s, start, end - start) {
                Some((info, next)) => Some((AttributeType::Unknown { name_index, info }, end)),
                None => None,
            },
        }
    }

    fn write(&self, out: &mut Vec<u8>) {
        let mut body: Vec<u8> = Vec::new();
        match self {
            AttributeType::Code { name_index, code } => {
                write_code(&mut body, code);
                assert(body@ =~= attribute_body(self@));
                write_framed(out, *name_index, &body);
            },
            AttributeType::Exceptions { name_index, exceptions } => {
                write_counted::<u16>(&mut body, exceptions);
                proof {
                    lemma_values_of_indices(exceptions@);
                }
                assert(body@ =~= attribute_body(self@));
                write_framed(out, *name_index, &body);
            },
            AttributeType::Unknown { name_index, info } => {
                write_framed(out, *name_index, info);
            },
        }
    }
}

impl Checked for AttributeType {
    fn is_sound(&self, cp: &ConstantPool) -> (r: bool) {
        let mut body: Vec<u8> = Vec::new();
        let ok = match self {
            AttributeType::Code { name_index, code } => {
                write_code(&mut body, code);
                assert(body@ =~= attribute_body(self@));
                matches!(kind_of(cp, *name_index), AttributeKind::Code) && code_is_sound(cp, code)
            },
            AttributeType::Exceptions { name_index, exceptions } => {
                write_counted::<u16>(&mut body, exceptions);
                proof {
                    lemma_values_of_indices(exceptions@);
                }
                assert(body@ =~= attribute_body(self@));
                exceptions.len() <= 0xffff && matches!(
                    kind_of(cp, *name_index),
                    AttributeKind::Exceptions
                ) && each_fits::<u16>(cp, exceptions)
            },
            AttributeType::Unknown { name_index, info } => {
                write_bytes(&mut body, info.as_slice());
                assert(body@ =~= attribute_body(self@));
                match kind_of(cp, *name_index) {
                    AttributeKind::Code => false,
                    AttributeKind::Exceptions => false,
                    _ => true,
                }
            },
        };
        ok && body.len() <= 0xffff_ffff
    }
}

/// The mathematical value of a method.
pub struct MethodInfoView {
    pub acc_flags: u16,
    pub name_index: u16,
    pub desc_index: u16,
    pub attrs: Seq<AttributeTypeView>,
}

impl View for MethodInfo {
    type V = MethodInfoView;

    open spec fn view(&self) -> MethodInfoView {
        MethodInfoView {
            acc_flags: self.acc_flags,
            name_index: self.name_index,
            desc_index: self.desc_index,
            attrs: values::<AttributeType>(self.attrs@),
        }
    }
}

impl Element for MethodInfo {
    type V = MethodInfoView;

    open spec fn value(&self) -> MethodInfoView {
        self@
    }

    open spec fn fits(cp: Seq<TypeView>, v: MethodInfoView) -> bool {
        counted_fits::<AttributeType>(cp, v.attrs)
    }

    open spec fn bytes(v: MethodInfoView) -> Seq<u8> {
        be16(v.acc_flags) + be16(v.name_index) + be16(v.desc_index) + counted_bytes::<
            AttributeType,
        >(v.attrs)
    }

    open spec fn parsed(cp: Seq<TypeView>, s: Seq<u8>, at: int) -> Option<(MethodInfoView, int)> {
        let acc_flags = parsed_u16(s, at);
        let name_index = parsed_u16(s, at + 2);
        let desc_index = parsed_u16(s, at + 4);
        if acc_flags is None || name_index is None || desc_index is None {
            None
        } else {
            let attrs = parsed_counted::<AttributeType>(cp, s, at + 6);
            if attrs is None {
                None
            } else {
                Some(
                    (
                        MethodInfoView {
                            acc_flags: acc_flags->Some_0.0,
                            name_index: name_index->Some_0.0,
                            desc_index: desc_index->Some_0.0,
                            attrs: attrs->Some_0.0,
                        },
                        attrs->Some_0.1,
                    ),
                )
            }
        }
    }

    proof fn lemma_parsed_fits(cp: Seq<TypeView>, s: Seq<u8>, at: int) {
        lemma_parsed_counted_fits::<AttributeType>(cp, s, at + 6);
    }

    proof fn lemma_round_trip(cp: Seq<TypeView>, s: Seq<u8>, at: int, v: MethodInfoView) {
        let a = be16(v.acc_flags);
        let b = be16(v.name_index);
        let c = be16(v.desc_index);
        let t = counted_bytes::<AttributeType>(v.attrs);
        lemma_holds_at_concat(s, at, a + b + c, t);
        lemma_holds_at_concat(s, at, a + b, c);
        lemma_holds_at_concat(s, at, a, b);
        lemma_parsed_u16(s, at, v.acc_flags);
        lemma_parsed_u16(s, at + 2, v.name_index);
        lemma_parsed_u16(s, at + 4, v.desc_index);
        lemma_counted_round_trip::<AttributeType>(cp, s, at + 6, v.attrs);
    }

    fn read(cp: &ConstantPool, s: &[u8], at: usize) -> (r: Option<(MethodInfo, usize)>) {
        let (acc_flags, p) = match read_u16(s, at) {
            Some(r) => r,
            None => {
                return None;
            },
        };
        let (name_index, p) = match read_u16(s, p) {
            Some(r) => r,
            None => {
                return None;
            },
        };
        let (desc_index, p) = match read_u16(s, p) {
            Some(r) => r,
            None => {
                return None;
            },
        };
        match read_counted::<AttributeType>(cp, s, p) {
            Some((attrs, next)) => Some(
                (MethodInfo { acc_flags, name_index, desc_index, attrs }, next),
            ),
            None => None,
        }
    }

    fn write(&self, out: &mut Vec<u8>) {
        write_u16(out, self.acc_flags);
        write_u16(out, self.name_index);
        write_u16(out, self.desc_index);
        write_counted::<AttributeType>(out, &self.attrs);
        assert(out@ =~= old(out)@ + Self::bytes(self@));
    }
}

impl Checked for MethodInfo {
    fn is_sound(&self, cp: &ConstantPool) -> (r: bool) {
        self.attrs.len() <= 0xffff && each_fits::<AttributeType>(cp, &self.attrs)
    }
}

} // verus!
