//! A method of a class file as text: its declaration, its flags, its code
//! and the tables that belong to the code.

use vstd::prelude::*;
use vstd::string::{StrSliceExecFns, StringExecFns, StringSliceAdditionalSpecFns};
use crate::classfile::attributes::{
    CodeException, LineNumber, LocalVariable, StackMapFrame, VerificationTypeInfo,
};
use crate::classfile::constant_pool::{
    class_name_at, get_class_name, get_utf8, utf8_at, ConstantPool, Type,
};
use crate::classfile::{
    code_of, ex_table_of, line_number_table_of, local_variable_table_of, stack_map_table_of,
    throws_of, ClassFile, MethodInfo,
};
use crate::classfile::signature::{
    parsed_method_descriptor, MethodSignature, MethodSignatureView,
};
use crate::sd::{no_code, CodeSerde, CodeSerdeView};
use crate::trans::access_flag::{
    has_flag, is_static, method_flag_names, method_modifiers, AccessFlagsTranslator, ACC_STATIC,
};
use crate::trans::code::{code_text, CodeTranslator};
use crate::trans::render::{
    binding_views, declaration_rendering, flags_template, plain_template, render_template,
};
use crate::trans::signature_type::{type_text, SignatureTypeTranslator};
use crate::util::bytes_eq;
use crate::trans::text::{
    decimal, dots_for_slashes, dotted, from_utf8_lossy, join, joined, lemma_string_views_push,
    lossy_utf8,
    push_decimal, push_decimal_column, push_right_aligned, right_aligned, string_views,
};

verus! {

/// Why a method cannot be told as text.
#[derive(Clone, Copy, PartialEq, Eq, Structural, Debug)]
pub enum TranslateError {
    /// An index into the constant pool does not name an entry of the kind
    /// that is asked for.
    BadConstant,
    /// The descriptor of the method is no method descriptor.
    BadDescriptor,
    /// The template of the declaration could not be rendered.
    Render,
}

/// The name of the class at `idx` of the constant pool, with dots between
/// its parts.
pub open spec fn thrown_name(cp: Seq<Type>, idx: u16) -> Option<Seq<char>> {
    match class_name_at(cp, idx as int) {
        Some(name) => Some(dotted(lossy_utf8(name))),
        None => None,
    }
}

/// The names of the classes at `indices`, if each index names a class.
pub open spec fn thrown_names(cp: Seq<Type>, indices: Seq<u16>) -> Option<Seq<Seq<char>>> {
    if forall|i: int| 0 <= i < indices.len() ==> (#[trigger] thrown_name(cp, indices[i])) is Some {
        Some(Seq::new(indices.len(), |i: int| thrown_name(cp, indices[i])->Some_0))
    } else {
        None
    }
}

/// The `throws` clause of a method without the word `throws`: the names of
/// the classes that the method declares to throw, with a comma and a space
/// between each two. A method that declares none has no clause.
pub open spec fn throws_text(cp: Seq<Type>, method: &MethodInfo) -> Result<
    Option<Seq<char>>,
    TranslateError,
> {
    match throws_of(method) {
        None => Ok(None),
        Some(indices) => match thrown_names(cp, indices) {
            Some(names) => Ok(Some(joined(names, ", "@))),
            None => Err(TranslateError::BadConstant),
        },
    }
}

/// The head of an exception table.
pub open spec fn ex_table_head() -> Seq<char> {
    "from    to  target type"@
}

/// The three places of an entry of an exception table, each at the right
/// of a column of five characters.
pub open spec fn ex_table_places(ex: CodeException) -> Seq<char> {
    right_aligned(decimal(ex.start_pc as nat), 5) + " "@ + right_aligned(
        decimal(ex.end_pc as nat),
        5,
    ) + " "@ + right_aligned(decimal(ex.handler_pc as nat), 5)
}

/// One row of an exception table, from the decoded name of the class that
/// the entry catches: the three places, and the word `Class` and the name,
/// or `any` for an entry that catches everything and so has no name.
pub open spec fn ex_table_row_text(ex: CodeException, class: Option<Seq<char>>) -> Seq<char> {
    match class {
        Some(name) => ex_table_places(ex) + " "@ + "  Class"@ + " "@ + name,
        None => ex_table_places(ex) + " "@ + "  any"@,
    }
}

/// One row of an exception table: the three places and what is caught.
/// An entry whose type is the index 0 catches everything and is told as
/// `any`; every other entry is told with the name of its class.
pub open spec fn ex_table_row(cp: Seq<Type>, ex: CodeException) -> Option<Seq<char>> {
    if ex.catch_type == 0 {
        Some(ex_table_row_text(ex, None))
    } else {
        match class_name_at(cp, ex.catch_type as int) {
            Some(name) => Some(ex_table_row_text(ex, Some(lossy_utf8(name)))),
            None => None,
        }
    }
}

/// The rows of an exception table, if each entry that does not catch
/// everything names a class.
pub open spec fn ex_table_rows(cp: Seq<Type>, table: Seq<CodeException>) -> Option<
    Seq<Seq<char>>,
> {
    if forall|i: int| 0 <= i < table.len() ==> (#[trigger] ex_table_row(cp, table[i])) is Some {
        Some(Seq::new(table.len(), |i: int| ex_table_row(cp, table[i])->Some_0))
    } else {
        None
    }
}

/// The exception table of a method as lines: the head and one row for each
/// entry. A method that has no table has no lines.
pub open spec fn ex_table_text(cp: Seq<Type>, method: &MethodInfo) -> Result<
    Seq<Seq<char>>,
    TranslateError,
> {
    match ex_table_of(method) {
        None => Ok(Seq::empty()),
        Some(table) => match ex_table_rows(cp, table) {
            Some(rows) => Ok(seq![ex_table_head()] + rows),
            None => Err(TranslateError::BadConstant),
        },
    }
}

/// The head of a local variable table.
pub open spec fn local_variable_head() -> Seq<char> {
    "Start  Length  Slot   Name  Signature"@
}

/// One row of a local variable table, from the decoded name and signature
/// of the variable: the start, the length and the slot, each at the right
/// of its column, the name at the right of a column of five characters,
/// and the signature.
pub open spec fn local_variable_row_text(
    v: LocalVariable,
    name: Seq<char>,
    signature: Seq<char>,
) -> Seq<char> {
    right_aligned(decimal(v.start_pc as nat), 5) + "  "@ + right_aligned(
        decimal(v.length as nat),
        6,
    ) + "  "@ + right_aligned(decimal(v.index as nat), 4) + "  "@ + right_aligned(name, 5) + "  "@
        + signature
}

/// One row of a local variable table, if the entry names its name and its
/// signature.
pub open spec fn local_variable_row(cp: Seq<Type>, v: LocalVariable) -> Option<Seq<char>> {
    match (utf8_at(cp, v.name_index as int), utf8_at(cp, v.signature_index as int)) {
        (Some(name), Some(signature)) => Some(
            local_variable_row_text(v, lossy_utf8(name), lossy_utf8(signature)),
        ),
        _ => None,
    }
}

/// The rows of a local variable table, if each entry names its name and
/// its signature.
pub open spec fn local_variable_rows(cp: Seq<Type>, table: Seq<LocalVariable>) -> Option<
    Seq<Seq<char>>,
> {
    if forall|i: int|
        0 <= i < table.len() ==> (#[trigger] local_variable_row(cp, table[i])) is Some {
        Some(Seq::new(table.len(), |i: int| local_variable_row(cp, table[i])->Some_0))
    } else {
        None
    }
}

/// The local variable table of a method as lines: the head and one row for
/// each entry. A method that has no table has no lines.
pub open spec fn local_variable_table_text(cp: Seq<Type>, method: &MethodInfo) -> Result<
    Seq<Seq<char>>,
    TranslateError,
> {
    match local_variable_table_of(method) {
        None => Ok(Seq::empty()),
        Some(table) => match local_variable_rows(cp, table) {
            Some(rows) => Ok(seq![local_variable_head()] + rows),
            None => Err(TranslateError::BadConstant),
        },
    }
}

/// The name of one type of a stack map frame, from the decoded name of its
/// class where the type is that of an object. For every other type the
/// name is fixed, and `class` says nothing.
pub open spec fn verification_type_name(info: VerificationTypeInfo, class: Seq<char>) -> Seq<char> {
    match info {
        VerificationTypeInfo::Float => "float"@,
        VerificationTypeInfo::Top => "top"@,
        VerificationTypeInfo::Integer => "int"@,
        VerificationTypeInfo::Long => "long"@,
        VerificationTypeInfo::Double => "double"@,
        VerificationTypeInfo::Null => "null"@,
        VerificationTypeInfo::UninitializedThis => "UninitializedThis"@,
        VerificationTypeInfo::Object { .. } => "class \""@ + class + "\""@,
        VerificationTypeInfo::Uninitialized { .. } => "Uninitialized"@,
    }
}

/// The name of one type of a stack map frame, if the type, where it is
/// that of an object, names a class.
pub open spec fn verification_type_text(cp: Seq<Type>, info: VerificationTypeInfo) -> Option<
    Seq<char>,
> {
    match info {
        VerificationTypeInfo::Object { cpool_index } => match class_name_at(
            cp,
            cpool_index as int,
        ) {
            Some(name) => Some(verification_type_name(info, lossy_utf8(name))),
            None => None,
        },
        _ => Some(verification_type_name(info, Seq::empty())),
    }
}

/// The names of the types `locals`, if each type that names a class names
/// one that the constant pool holds.
pub open spec fn verification_type_texts(cp: Seq<Type>, locals: Seq<VerificationTypeInfo>)
    -> Option<Seq<Seq<char>>> {
    if forall|i: int|
        0 <= i < locals.len() ==> (#[trigger] verification_type_text(cp, locals[i])) is Some {
        Some(Seq::new(locals.len(), |i: int| verification_type_text(cp, locals[i])->Some_0))
    } else {
        None
    }
}

/// The locals of a stack map frame as one line.
pub open spec fn locals_text(cp: Seq<Type>, locals: Seq<VerificationTypeInfo>) -> Option<
    Seq<char>,
> {
    match verification_type_texts(cp, locals) {
        Some(infos) => Some("locals = [ "@ + joined(infos, ", "@) + " ]"@),
        None => None,
    }
}

/// The offset of a stack map frame as one line.
pub open spec fn offset_delta_text(offset_delta: u16) -> Seq<char> {
    "offset_delta = "@ + decimal(offset_delta as nat)
}

/// What is told of one frame of a stack map table: its tag, a comment that
/// names its kind, and the lines that tell what it holds.
#[derive(Clone, PartialEq, Eq, Debug)]
pub struct StackMapTableTranslation {
    pub tag: u8,
    pub comment: &'static str,
    pub items: Vec<String>,
}

pub struct StackMapTableTranslationView {
    pub tag: u8,
    pub comment: &'static str,
    pub items: Seq<Seq<char>>,
}

impl View for StackMapTableTranslation {
    type V = StackMapTableTranslationView;

    open spec fn view(&self) -> StackMapTableTranslationView {
        StackMapTableTranslationView {
            tag: self.tag,
            comment: self.comment,
            items: string_views(self.items@),
        }
    }
}

/// The views of a vector of frame translations.
pub open spec fn frame_views(frames: Seq<StackMapTableTranslation>) -> Seq<
    StackMapTableTranslationView,
> {
    frames.map_values(|t: StackMapTableTranslation| t@)
}

/// What is told of one frame. A frame that appends locals is told with its
/// offset and its locals; a frame that keeps or chops the locals with its
/// offset; the other kinds with their tag and their comment alone. Of a
/// reserved frame nothing is told.
pub open spec fn frame_text(cp: Seq<Type>, frame: StackMapFrame) -> Result<
    Option<StackMapTableTranslationView>,
    TranslateError,
> {
    match frame {
        StackMapFrame::Append { tag, offset_delta, locals } => match locals_text(cp, locals@) {
            Some(text) => Ok(
                Some(
                    StackMapTableTranslationView {
                        tag,
                        comment: "/* append */",
                        items: seq![offset_delta_text(offset_delta), text],
                    },
                ),
            ),
            None => Err(TranslateError::BadConstant),
        },
        StackMapFrame::Same { tag, offset_delta } => Ok(
            Some(
                StackMapTableTranslationView {
                    tag,
                    comment: "/* same */",
                    items: seq![offset_delta_text(offset_delta)],
                },
            ),
        ),
        StackMapFrame::SameLocals1StackItem { tag, .. } => Ok(
            Some(
                StackMapTableTranslationView {
                    tag,
                    comment: "/* todo: SameLocals1StackItem */",
                    items: Seq::empty(),
                },
            ),
        ),
        StackMapFrame::SameLocals1StackItemExtended { tag, .. } => Ok(
            Some(
                StackMapTableTranslationView {
                    tag,
                    comment: "/* todo: SameLocals1StackItemExtended */",
                    items: Seq::empty(),
                },
            ),
        ),
        StackMapFrame::Chop { tag, offset_delta } => Ok(
            Some(
                StackMapTableTranslationView {
                    tag,
                    comment: "/* chop */",
                    items: seq![offset_delta_text(offset_delta)],
                },
            ),
        ),
        StackMapFrame::SameExtended { tag, .. } => Ok(
            Some(
                StackMapTableTranslationView {
                    tag,
                    comment: "/* todo: SameExtended */",
                    items: Seq::empty(),
                },
            ),
        ),
        StackMapFrame::Full { tag, .. } => Ok(
            Some(
                StackMapTableTranslationView {
                    tag,
                    comment: "/* todo: Full */",
                    items: Seq::empty(),
                },
            ),
        ),
        StackMapFrame::Reserved(_) => Ok(None),
    }
}

/// What is told of the first `n` frames of `frames`, in their order.
pub open spec fn frames_text(cp: Seq<Type>, frames: Seq<StackMapFrame>, n: int) -> Result<
    Seq<StackMapTableTranslationView>,
    TranslateError,
>
    decreases n,
{
    if n <= 0 {
        Ok(Seq::empty())
    } else {
        match frames_text(cp, frames, n - 1) {
            Err(e) => Err(e),
            Ok(told) => match frame_text(cp, frames[n - 1]) {
                Err(e) => Err(e),
                Ok(None) => Ok(told),
                Ok(Some(t)) => Ok(told.push(t)),
            },
        }
    }
}

/// What is told of the stack map table of a method. A method that has no
/// table has nothing told.
pub open spec fn stack_map_table_text(cp: Seq<Type>, method: &MethodInfo) -> Result<
    Seq<StackMapTableTranslationView>,
    TranslateError,
> {
    match stack_map_table_of(method) {
        Some(table) => frames_text(cp, table, table.len() as int),
        None => Ok(Seq::empty()),
    }
}

/// The offset of a stack map frame as one line.
fn offset_delta_line(offset_delta: u16) -> (s: String)
    ensures
        s@ == offset_delta_text(offset_delta),
{
    let mut s = String::from_str("offset_delta = ");
    push_decimal(&mut s, offset_delta as u64);
    s
}

/// One frame translation.
fn frame_translation(tag: u8, comment: &'static str, items: Vec<String>) -> (t:
    StackMapTableTranslation)
    ensures
        t@ == (StackMapTableTranslationView { tag, comment, items: string_views(items@) }),
{
    StackMapTableTranslation { tag, comment, items }
}

/// The signature of a method: what its descriptor spells.
pub open spec fn signature_of(cp: Seq<Type>, method: &MethodInfo) -> Result<
    MethodSignatureView,
    TranslateError,
> {
    match utf8_at(cp, method.desc_index as int) {
        None => Err(TranslateError::BadConstant),
        Some(desc) => match parsed_method_descriptor(desc) {
            None => Err(TranslateError::BadDescriptor),
            Some(sig) => Ok(sig),
        },
    }
}

/// The types of the parameters of a signature as the source language
/// writes them.
pub open spec fn arg_texts(sig: MethodSignatureView) -> Seq<Seq<char>> {
    Seq::new(sig.args.len(), |i: int| type_text(sig.args[i]))
}

/// The template of the declaration of a method with the modifiers `flags`,
/// and the data that go into it: the modifiers, if there are any, the type
/// of the result, the name and the types of the parameters with a comma
/// and a space between each two.
pub open spec fn declaration_input(flags: Seq<char>, name: Seq<u8>, sig: MethodSignatureView) -> (
    Seq<char>,
    Seq<(Seq<char>, Seq<char>)>,
) {
    let rest = seq![
        ("return_type"@, type_text(sig.retype)),
        ("name"@, lossy_utf8(name)),
        ("args"@, joined(arg_texts(sig), ", "@)),
    ];
    if flags.len() == 0 {
        (plain_template(), rest)
    } else {
        (flags_template(), seq![("flags"@, flags)] + rest)
    }
}

/// The head of the declaration of a constructor, from its modifiers and
/// the decoded name of its class.
pub open spec fn constructor_head_text(flags: Seq<char>, class: Seq<char>) -> Seq<char> {
    flags + " "@ + class + "()"@
}

/// The declaration of a method without its `throws` clause.
///
/// A constructor is told as its modifiers and the name of its class, a
/// class initializer as `static {}`. Of any other method the template
/// engine renders the declaration from [`declaration_input`]: the text is
/// [`declaration_rendering`] of the data.
pub open spec fn declaration_head(cf: &ClassFile, method: &MethodInfo) -> Result<
    Seq<char>,
    TranslateError,
> {
    let cp = cf.cp@;
    let flags = joined(method_modifiers(method.acc_flags), " "@);
    match utf8_at(cp, method.name_index as int) {
        None => Err(TranslateError::BadConstant),
        Some(name) => if name == "<init>".spec_bytes() {
            match class_name_at(cp, cf.this_class as int) {
                Some(class) => Ok(constructor_head_text(flags, lossy_utf8(class))),
                None => Err(TranslateError::BadConstant),
            }
        } else if name == "<clinit>".spec_bytes() {
            Ok("static {}"@)
        } else {
            match signature_of(cp, method) {
                Err(e) => Err(e),
                Ok(sig) => Ok(declaration_rendering(declaration_input(flags, name, sig).1)),
            }
        },
    }
}

/// A declaration with its `throws` clause, if it has one, and the
/// semicolon that ends it.
pub open spec fn with_throws(head: Seq<char>, throws: Option<Seq<char>>) -> Seq<char> {
    match throws {
        Some(ex) => head + " throws"@ + " "@ + ex + ";"@,
        None => head + ";"@,
    }
}

/// The declaration of a method.
pub open spec fn declaration_text(cf: &ClassFile, method: &MethodInfo) -> Result<
    Seq<char>,
    TranslateError,
> {
    match declaration_head(cf, method) {
        Err(e) => Err(e),
        Ok(head) => match throws_text(cf.cp@, method) {
            Err(e) => Err(e),
            Ok(throws) => Ok(with_throws(head, throws)),
        },
    }
}

/// Ends the declaration `head` with its `throws` clause, if it has one,
/// and a semicolon.
pub fn end_declaration(head: String, throws: Option<String>) -> (desc: String)
    ensures
        desc@ == with_throws(
            head@,
            match throws {
                Some(ex) => Some(ex@),
                None => None,
            },
        ),
{
    let mut desc = head;
    match throws {
        Some(ex) => {
            desc.append(" throws");
            desc.append(" ");
            desc.append(ex.as_str());
            desc.append(";");
        },
        None => {
            desc.append(";");
        },
    }
    desc
}

/// What the rendering of a declaration has come to: the text, or the
/// error that says that there is none.
pub fn rendering_outcome(rendered: Result<String, handlebars::RenderError>) -> (r: Result<
    String,
    TranslateError,
>)
    ensures
        match rendered {
            Ok(text) => r matches Ok(s) && s@ == text@,
            Err(_) => r matches Err(e) && e == TranslateError::Render,
        },
{
    match rendered {
        Ok(text) => Ok(text),
        Err(_) => Err(TranslateError::Render),
    }
}

/// What is told of the code of a method: the limits of the code, the
/// number of entries that the arguments take, which is one more than the
/// number of parameters unless the method is static, and the listing. Of a
/// method without code nothing is told.
pub open spec fn code_serde_text(cp: Seq<Type>, method: &MethodInfo) -> Result<
    CodeSerdeView,
    TranslateError,
> {
    match code_of(method) {
        None => Ok(no_code()),
        Some(code) => match signature_of(cp, method) {
            Err(e) => Err(e),
            Ok(sig) => Ok(
                CodeSerdeView {
                    max_stack: code.max_stack,
                    max_locals: code.max_locals,
                    args_size: if has_flag(method.acc_flags, ACC_STATIC) {
                        sig.args.len() as usize
                    } else {
                        (sig.args.len() + 1) as usize
                    },
                    codes: code_text(code.code@, 0, false),
                    enable_verbose: false,
                },
            ),
        },
    }
}

/// What is told of a method.
#[derive(Clone, PartialEq, Eq, Debug)]
pub struct MethodTranslation {
    pub desc: String,
    pub line_num_table: Vec<LineNumber>,
    pub code: CodeSerde,
    pub signature: String,
    pub flags: String,
    pub throws: String,
    pub ex_table: Vec<String>,
    pub stack_map_table: Vec<StackMapTableTranslation>,
    pub local_variable_table: Vec<String>,
}

pub struct MethodTranslationView {
    pub desc: Seq<char>,
    pub line_num_table: Seq<LineNumber>,
    pub code: CodeSerdeView,
    pub signature: Seq<char>,
    pub flags: Seq<char>,
    pub throws: Seq<char>,
    pub ex_table: Seq<Seq<char>>,
    pub stack_map_table: Seq<StackMapTableTranslationView>,
    pub local_variable_table: Seq<Seq<char>>,
}

impl View for MethodTranslation {
    type V = MethodTranslationView;

    open spec fn view(&self) -> MethodTranslationView {
        MethodTranslationView {
            desc: self.desc@,
            line_num_table: self.line_num_table@,
            code: self.code@,
            signature: self.signature@,
            flags: self.flags@,
            throws: self.throws@,
            ex_table: string_views(self.ex_table@),
            stack_map_table: frame_views(self.stack_map_table@),
            local_variable_table: string_views(self.local_variable_table@),
        }
    }
}

/// What is told of a method: its declaration, its line number table if
/// `with_line_num` is set, its code if `with_code` is set, its descriptor,
/// its flags by their names, its `throws` clause, which is empty where the
/// method has none, and its tables. The first part that cannot be told, in
/// this order, decides the error.
pub open spec fn translation_text(
    cf: &ClassFile,
    method: &MethodInfo,
    with_line_num: bool,
    with_code: bool,
) -> Result<MethodTranslationView, TranslateError> {
    let cp = cf.cp@;
    let code = if with_code {
        code_serde_text(cp, method)
    } else {
        Ok(no_code())
    };
    match declaration_text(cf, method) {
        Err(e) => Err(e),
        Ok(desc) => match code {
            Err(e) => Err(e),
            Ok(code) => match utf8_at(cp, method.desc_index as int) {
                None => Err(TranslateError::BadConstant),
                Some(descriptor) => match throws_text(cp, method) {
                    Err(e) => Err(e),
                    Ok(throws) => match ex_table_text(cp, method) {
                        Err(e) => Err(e),
                        Ok(ex_table) => match stack_map_table_text(cp, method) {
                            Err(e) => Err(e),
                            Ok(stack_map_table) => match local_variable_table_text(cp, method) {
                                Err(e) => Err(e),
                                Ok(local_variable_table) => Ok(
                                    MethodTranslationView {
                                        desc,
                                        line_num_table: if with_line_num {
                                            line_number_table_of(method)
                                        } else {
                                            Seq::empty()
                                        },
                                        code,
                                        signature: lossy_utf8(descriptor),
                                        flags: joined(
                                            method_flag_names(method.acc_flags),
                                            ", "@,
                                        ),
                                        throws: match throws {
                                            Some(text) => text,
                                            None => Seq::empty(),
                                        },
                                        ex_table,
                                        stack_map_table,
                                        local_variable_table,
                                    },
                                ),
                            },
                        },
                    },
                },
            },
        },
    }
}

/// What is told of one method of a class file.
pub struct Translator<'a> {
    cf: &'a ClassFile,
    method: &'a MethodInfo,
}

impl<'a> Translator<'a> {
    /// The class file that the method belongs to.
    pub closed spec fn class_file(&self) -> &'a ClassFile {
        self.cf
    }

    /// The method that is told.
    pub closed spec fn method_info(&self) -> &'a MethodInfo {
        self.method
    }

    pub fn new(cf: &'a ClassFile, method: &'a MethodInfo) -> (t: Self)
        ensures
            t.class_file() == cf,
            t.method_info() == method,
    {
        Self { cf, method }
    }
}

/// The names of the classes at `indices`.
fn names_thrown(cp: &ConstantPool, indices: &Vec<u16>) -> (r: Option<Vec<String>>)
    ensures
        match thrown_names(cp@, indices@) {
            Some(names) => r matches Some(v) && string_views(v@) == names,
            None => r is None,
        },
{
    let mut exs: Vec<String> = Vec::new();
    let mut i: usize = 0;
    while i < indices.len()
        invariant
            i <= indices@.len(),
            forall|k: int| 0 <= k < i ==> (#[trigger] thrown_name(cp@, indices@[k])) is Some,
            string_views(exs@) == Seq::new(
                i as nat,
                |k: int| thrown_name(cp@, indices@[k])->Some_0,
            ),
        decreases indices@.len() - i,
    {
        match get_class_name(cp, indices[i] as usize) {
            Some(name) => {
                let text = from_utf8_lossy(name.as_slice());
                let text = dots_for_slashes(text.as_str());
                assert(thrown_name(cp@, indices@[i as int]) == Some(text@));
                proof {
                    lemma_string_views_push(exs@, text);
                }
                exs.push(text);
                assert(string_views(exs@) =~= Seq::new(
                    (i + 1) as nat,
                    |k: int| thrown_name(cp@, indices@[k])->Some_0,
                ));
            },
            None => {
                assert(thrown_name(cp@, indices@[i as int]) is None);
                return None;
            },
        }
        i = i + 1;
    }
    Some(exs)
}

/// The decoded name of a class, if there is one, as a text.
pub open spec fn class_text(class: Option<&str>) -> Option<Seq<char>> {
    match class {
        Some(name) => Some(name@),
        None => None,
    }
}

/// One row of an exception table, from the decoded name of the class that
/// the entry catches, or from none for an entry that catches everything.
pub fn ex_table_line(ex: &CodeException, class: Option<&str>) -> (line: String)
    ensures
        line@ == ex_table_row_text(*ex, class_text(class)),
{
    let mut v = String::new();
    push_decimal_column(&mut v, ex.start_pc as u64, 5);
    v.append(" ");
    push_decimal_column(&mut v, ex.end_pc as u64, 5);
    v.append(" ");
    push_decimal_column(&mut v, ex.handler_pc as u64, 5);
    assert(v@ =~= ex_table_places(*ex));
    v.append(" ");
    match class {
        Some(name) => {
            v.append("  Class");
            v.append(" ");
            v.append(name);
        },
        None => {
            v.append("  any");
        },
    }
    assert(v@ =~= ex_table_row_text(*ex, class_text(class)));
    v
}

/// One row of a local variable table, from the decoded name and signature
/// of the variable.
pub fn local_variable_line(it: &LocalVariable, name: &str, signature: &str) -> (line: String)
    ensures
        line@ == local_variable_row_text(*it, name@, signature@),
{
    let mut v = String::new();
    push_decimal_column(&mut v, it.start_pc as u64, 5);
    v.append("  ");
    push_decimal_column(&mut v, it.length as u64, 6);
    v.append("  ");
    push_decimal_column(&mut v, it.index as u64, 4);
    v.append("  ");
    push_right_aligned(&mut v, name, 5);
    v.append("  ");
    v.append(signature);
    assert(v@ =~= local_variable_row_text(*it, name@, signature@));
    v
}

/// The name of one type of a stack map frame, from the decoded name of its
/// class where the type is that of an object.
pub fn verification_type_word(info: &VerificationTypeInfo, class: &str) -> (word: String)
    ensures
        word@ == verification_type_name(*info, class@),
{
    match info {
        VerificationTypeInfo::Float => String::from_str("float"),
        VerificationTypeInfo::Top => String::from_str("top"),
        VerificationTypeInfo::Integer => String::from_str("int"),
        VerificationTypeInfo::Long => String::from_str("long"),
        VerificationTypeInfo::Double => String::from_str("double"),
        VerificationTypeInfo::Null => String::from_str("null"),
        VerificationTypeInfo::UninitializedThis => String::from_str("UninitializedThis"),
        VerificationTypeInfo::Object { .. } => {
            let mut v = String::from_str("class \"");
            v.append(class);
            v.append("\"");
            v
        },
        VerificationTypeInfo::Uninitialized { .. } => String::from_str("Uninitialized"),
    }
}

/// The head of the declaration of a constructor, from its modifiers and
/// the decoded name of its class.
pub fn constructor_head(flags: String, class: &str) -> (head: String)
    ensures
        head@ == constructor_head_text(flags@, class@),
{
    let mut head = flags;
    head.append(" ");
    head.append(class);
    head.append("()");
    head
}

/// The head of an exception table and its rows.
fn lines_of_ex_table(cp: &ConstantPool, ext: &Vec<CodeException>) -> (r: Option<Vec<String>>)
    ensures
        match ex_table_rows(cp@, ext@) {
            Some(rows) => r matches Some(v) && string_views(v@) == seq![ex_table_head()] + rows,
            None => r is None,
        },
{
    let mut table: Vec<String> = Vec::new();
    table.push(String::from_str("from    to  target type"));
    assert(string_views(table@) =~= seq![ex_table_head()] + Seq::new(
        0,
        |k: int| ex_table_row(cp@, ext@[k])->Some_0,
    ));
    let mut i: usize = 0;
    while i < ext.len()
        invariant
            i <= ext@.len(),
            forall|k: int| 0 <= k < i ==> (#[trigger] ex_table_row(cp@, ext@[k])) is Some,
            string_views(table@) == seq![ex_table_head()] + Seq::new(
                i as nat,
                |k: int| ex_table_row(cp@, ext@[k])->Some_0,
            ),
        decreases ext@.len() - i,
    {
        let ex = ext[i];
        let v = if ex.catch_type == 0 {
            ex_table_line(&ex, None)
        } else {
            match get_class_name(cp, ex.catch_type as usize) {
                Some(name) => {
                    let text = from_utf8_lossy(name.as_slice());
                    ex_table_line(&ex, Some(text.as_str()))
                },
                None => {
                    assert(ex_table_row(cp@, ext@[i as int]) is None);
                    return None;
                },
            }
        };
        assert(v@ =~= ex_table_row(cp@, ext@[i as int])->Some_0);
        proof {
            lemma_string_views_push(table@, v);
        }
        table.push(v);
        assert(string_views(table@) =~= seq![ex_table_head()] + Seq::new(
            (i + 1) as nat,
            |k: int| ex_table_row(cp@, ext@[k])->Some_0,
        ));
        i = i + 1;
    }
    Some(table)
}

/// The head of a local variable table and its rows.
fn lines_of_local_variables(cp: &ConstantPool, vars: &Vec<LocalVariable>) -> (r: Option<
    Vec<String>,
>)
    ensures
        match local_variable_rows(cp@, vars@) {
            Some(rows) => r matches Some(v) && string_views(v@) == seq![local_variable_head()]
                + rows,
            None => r is None,
        },
{
    let mut table: Vec<String> = Vec::new();
    table.push(String::from_str("Start  Length  Slot   Name  Signature"));
    assert(string_views(table@) =~= seq![local_variable_head()] + Seq::new(
        0,
        |k: int| local_variable_row(cp@, vars@[k])->Some_0,
    ));
    let mut i: usize = 0;
    while i < vars.len()
        invariant
            i <= vars@.len(),
            forall|k: int| 0 <= k < i ==> (#[trigger] local_variable_row(cp@, vars@[k])) is Some,
            string_views(table@) == seq![local_variable_head()] + Seq::new(
                i as nat,
                |k: int| local_variable_row(cp@, vars@[k])->Some_0,
            ),
        decreases vars@.len() - i,
    {
        let it = vars[i];
        let name = match get_utf8(cp, it.name_index as usize) {
            Some(name) => name,
            None => {
                assert(local_variable_row(cp@, vars@[i as int]) is None);
                return None;
            },
        };
        let signature = match get_utf8(cp, it.signature_index as usize) {
            Some(signature) => signature,
            None => {
                assert(local_variable_row(cp@, vars@[i as int]) is None);
                return None;
            },
        };
        let name = from_utf8_lossy(name.as_slice());
        let signature = from_utf8_lossy(signature.as_slice());
        let v = local_variable_line(&it, name.as_str(), signature.as_str());
        assert(v@ =~= local_variable_row(cp@, vars@[i as int])->Some_0);
        proof {
            lemma_string_views_push(table@, v);
        }
        table.push(v);
        assert(string_views(table@) =~= seq![local_variable_head()] + Seq::new(
            (i + 1) as nat,
            |k: int| local_variable_row(cp@, vars@[k])->Some_0,
        ));
        i = i + 1;
    }
    Some(table)
}

impl<'a> Translator<'a> {
    /// The `throws` clause of the method without the word `throws`.
    pub fn throws(&self) -> (r: Result<Option<String>, TranslateError>)
        ensures
            match throws_text(self.class_file().cp@, self.method_info()) {
                Ok(Some(text)) => r matches Ok(Some(s)) && s@ == text,
                Ok(None) => r matches Ok(None),
                Err(e) => r matches Err(got) && got == e,
            },
    {
        match self.method.get_throws() {
            Some(indices) => match names_thrown(&self.cf.cp, indices) {
                Some(exs) => Ok(Some(join(&exs, ", "))),
                None => Err(TranslateError::BadConstant),
            },
            None => Ok(None),
        }
    }

    /// The exception table of the method as lines.
    pub fn ex_table(&self) -> (r: Result<Vec<String>, TranslateError>)
        ensures
            match ex_table_text(self.class_file().cp@, self.method_info()) {
                Ok(lines) => r matches Ok(v) && string_views(v@) == lines,
                Err(e) => r matches Err(got) && got == e,
            },
    {
        match self.method.get_ex_table() {
            Some(ext) => match lines_of_ex_table(&self.cf.cp, ext) {
                Some(table) => Ok(table),
                None => Err(TranslateError::BadConstant),
            },
            None => {
                let table: Vec<String> = Vec::new();
                assert(string_views(table@) =~= Seq::<Seq<char>>::empty());
                Ok(table)
            },
        }
    }

    /// The local variable table of the method as lines.
    pub fn local_variable_table(&self) -> (r: Result<Vec<String>, TranslateError>)
        ensures
            match local_variable_table_text(self.class_file().cp@, self.method_info()) {
                Ok(lines) => r matches Ok(v) && string_views(v@) == lines,
                Err(e) => r matches Err(got) && got == e,
            },
    {
        match self.method.get_local_variable_table() {
            Some(vars) => match lines_of_local_variables(&self.cf.cp, vars) {
                Some(table) => Ok(table),
                None => Err(TranslateError::BadConstant),
            },
            None => {
                let table: Vec<String> = Vec::new();
                assert(string_views(table@) =~= Seq::<Seq<char>>::empty());
                Ok(table)
            },
        }
    }

    /// The locals of a stack map frame as one line.
    pub fn build_stack_map_frame_locals(&self, locals: &Vec<VerificationTypeInfo>) -> (r: Result<
        String,
        TranslateError,
    >)
        ensures
            match locals_text(self.class_file().cp@, locals@) {
                Some(text) => r matches Ok(s) && s@ == text,
                None => r matches Err(e) && e == TranslateError::BadConstant,
            },
    {
        let ghost cp = self.cf.cp@;
        let mut infos: Vec<String> = Vec::new();
        assert(string_views(infos@) =~= Seq::new(
            0,
            |k: int| verification_type_text(cp, locals@[k])->Some_0,
        ));
        let mut i: usize = 0;
        while i < locals.len()
            invariant
                cp == self.cf.cp@,
                i <= locals@.len(),
                forall|k: int|
                    0 <= k < i ==> (#[trigger] verification_type_text(cp, locals@[k])) is Some,
                string_views(infos@) == Seq::new(
                    i as nat,
                    |k: int| verification_type_text(cp, locals@[k])->Some_0,
                ),
            decreases locals@.len() - i,
        {
            let info = match locals[i] {
                VerificationTypeInfo::Object { cpool_index } => {
                    match get_class_name(&self.cf.cp, cpool_index as usize) {
                        Some(name) => {
                            let name = from_utf8_lossy(name.as_slice());
                            verification_type_word(&locals[i], name.as_str())
                        },
                        None => {
                            assert(verification_type_text(cp, locals@[i as int]) is None);
                            return Err(TranslateError::BadConstant);
                        },
                    }
                },
                _ => verification_type_word(&locals[i], ""),
            };
            assert(verification_type_text(cp, locals@[i as int]) == Some(info@));
            proof {
                lemma_string_views_push(infos@, info);
            }
            infos.push(info);
            assert(string_views(infos@) =~= Seq::new(
                (i + 1) as nat,
                |k: int| verification_type_text(cp, locals@[k])->Some_0,
            ));
            i = i + 1;
        }
        let mut text = String::from_str("locals = [ ");
        let list = join(&infos, ", ");
        text.append(list.as_str());
        text.append(" ]");
        Ok(text)
    }

    /// What is told of the stack map table of the method.
    pub fn stack_map_table(&self) -> (r: Result<Vec<StackMapTableTranslation>, TranslateError>)
        ensures
            match stack_map_table_text(self.class_file().cp@, self.method_info()) {
                Ok(told) => r matches Ok(v) && frame_views(v@) == told,
                Err(e) => r matches Err(got) && got == e,
            },
    {
        let t = match self.method.get_stack_map_table() {
            Some(t) => t,
            None => {
                let table: Vec<StackMapTableTranslation> = Vec::new();
                assert(frame_views(table@) =~= Seq::<StackMapTableTranslationView>::empty());
                return Ok(table);
            },
        };
        let ghost cp = self.cf.cp@;
        let mut table: Vec<StackMapTableTranslation> = Vec::new();
        assert(frame_views(table@) =~= Seq::<StackMapTableTranslationView>::empty());
        let mut i: usize = 0;
        while i < t.len()
            invariant
                cp == self.cf.cp@,
                stack_map_table_of(self.method_info()) == Some(t@),
                i <= t@.len(),
                frames_text(cp, t@, i as int) == Ok::<
                    Seq<StackMapTableTranslationView>,
                    TranslateError,
                >(frame_views(table@)),
            decreases t@.len() - i,
        {
            let ghost told = frame_views(table@);
            let entry = match &t[i] {
                StackMapFrame::Append { tag, offset_delta, locals } => {
                    let mut items: Vec<String> = Vec::new();
                    items.push(offset_delta_line(*offset_delta));
                    match self.build_stack_map_frame_locals(locals) {
                        Ok(text) => {
                            items.push(text);
                        },
                        Err(e) => {
                            assert(frame_text(cp, t@[i as int]) == Err::<
                                Option<StackMapTableTranslationView>,
                                TranslateError,
                            >(TranslateError::BadConstant));
                            assert(frames_text(cp, t@, i + 1) == Err::<
                                Seq<StackMapTableTranslationView>,
                                TranslateError,
                            >(TranslateError::BadConstant));
                            proof {
                                lemma_frames_text_fails(cp, t@, i + 1, t@.len() as int);
                            }
                            return Err(TranslateError::BadConstant);
                        },
                    }
                    assert(string_views(items@) =~= seq![
                        offset_delta_text(*offset_delta),
                        locals_text(cp, locals@)->Some_0,
                    ]);
                    Some(frame_translation(*tag, "/* append */", items))
                },
                StackMapFrame::Same { tag, offset_delta } => {
                    let mut items: Vec<String> = Vec::new();
                    items.push(offset_delta_line(*offset_delta));
                    assert(string_views(items@) =~= seq![offset_delta_text(*offset_delta)]);
                    Some(frame_translation(*tag, "/* same */", items))
                },
                StackMapFrame::SameLocals1StackItem { tag, offset_delta: _, stack: _ } => {
                    let items: Vec<String> = Vec::new();
                    assert(string_views(items@) =~= Seq::<Seq<char>>::empty());
                    Some(frame_translation(*tag, "/* todo: SameLocals1StackItem */", items))
                },
                StackMapFrame::SameLocals1StackItemExtended { tag, offset_delta: _, stack: _ } => {
                    let items: Vec<String> = Vec::new();
                    assert(string_views(items@) =~= Seq::<Seq<char>>::empty());
                    Some(
                        frame_translation(
                            *tag,
                            "/* todo: SameLocals1StackItemExtended */",
                            items,
                        ),
                    )
                },
                StackMapFrame::Chop { tag, offset_delta } => {
                    let mut items: Vec<String> = Vec::new();
                    items.push(offset_delta_line(*offset_delta));
                    assert(string_views(items@) =~= seq![offset_delta_text(*offset_delta)]);
                    Some(frame_translation(*tag, "/* chop */", items))
                },
                StackMapFrame::SameExtended { tag, offset_delta: _ } => {
                    let items: Vec<String> = Vec::new();
                    assert(string_views(items@) =~= Seq::<Seq<char>>::empty());
                    Some(frame_translation(*tag, "/* todo: SameExtended */", items))
                },
                StackMapFrame::Full { tag, offset_delta: _, locals: _, stack: _ } => {
                    let items: Vec<String> = Vec::new();
                    assert(string_views(items@) =~= Seq::<Seq<char>>::empty());
                    Some(frame_translation(*tag, "/* todo: Full */", items))
                },
                StackMapFrame::Reserved(_) => None,
            };
            match entry {
                Some(e) => {
                    assert(frame_text(cp, t@[i as int]) == Ok::<
                        Option<StackMapTableTranslationView>,
                        TranslateError,
                    >(Some(e@)));
                    table.push(e);
                    assert(frame_views(table@) =~= told.push(e@));
                },
                None => {},
            }
            i = i + 1;
        }
        Ok(table)
    }

    /// The modifiers of the method as the source language writes them.
    pub fn access_flags(&self) -> (text: String)
        ensures
            text@ == joined(method_modifiers(self.method_info().acc_flags), " "@),
    {
        let flags = self.method.acc_flags;
        let t = AccessFlagsTranslator::new(flags);
        t.method_access_flags()
    }

    /// The signature that the descriptor of the method spells.
    fn method_signature(&self) -> (r: Result<MethodSignature, TranslateError>)
        ensures
            match signature_of(self.class_file().cp@, self.method_info()) {
                Ok(sig) => r matches Ok(got) && got@ == sig && got.args@.len() < usize::MAX,
                Err(e) => r matches Err(got) && got == e,
            },
    {
        match get_utf8(&self.cf.cp, self.method.desc_index as usize) {
            Some(desc) => {
                assert(desc@.len() == desc.len());
                match MethodSignature::new(desc.as_slice()) {
                    Some(sig) => Ok(sig),
                    None => Err(TranslateError::BadDescriptor),
                }
            },
            None => Err(TranslateError::BadConstant),
        }
    }

    /// The type of the result of the method as the source language writes
    /// it.
    pub fn return_type(&self) -> (r: Result<String, TranslateError>)
        ensures
            match signature_of(self.class_file().cp@, self.method_info()) {
                Ok(sig) => r matches Ok(s) && s@ == type_text(sig.retype),
                Err(e) => r matches Err(got) && got == e,
            },
    {
        match self.method_signature() {
            Ok(signature) => Ok(signature.retype.into_string()),
            Err(e) => Err(e),
        }
    }

    /// The types of the parameters of the method as the source language
    /// writes them.
    pub fn args(&self) -> (r: Result<Vec<String>, TranslateError>)
        ensures
            match signature_of(self.class_file().cp@, self.method_info()) {
                Ok(sig) => r matches Ok(v) && string_views(v@) == arg_texts(sig),
                Err(e) => r matches Err(got) && got == e,
            },
    {
        let signature = match self.method_signature() {
            Ok(signature) => signature,
            Err(e) => {
                return Err(e);
            },
        };
        let ghost sig = signature@;
        let mut texts: Vec<String> = Vec::new();
        assert(string_views(texts@) =~= arg_texts(sig).take(0));
        let mut i: usize = 0;
        while i < signature.args.len()
            invariant
                sig == signature@,
                i <= signature.args@.len(),
                string_views(texts@) == arg_texts(sig).take(i as int),
            decreases signature.args@.len() - i,
        {
            let text = signature.args[i].into_string();
            proof {
                lemma_string_views_push(texts@, text);
                assert(sig.args[i as int] == signature.args@[i as int]@);
            }
            texts.push(text);
            assert(string_views(texts@) =~= arg_texts(sig).take(i + 1));
            i = i + 1;
        }
        assert(arg_texts(sig).take(signature.args@.len() as int) =~= arg_texts(sig));
        Ok(texts)
    }

    /// The descriptor of the method as text.
    pub fn signature(&self) -> (r: Result<String, TranslateError>)
        ensures
            match utf8_at(self.class_file().cp@, self.method_info().desc_index as int) {
                Some(desc) => r matches Ok(s) && s@ == lossy_utf8(desc),
                None => r matches Err(e) && e == TranslateError::BadConstant,
            },
    {
        match get_utf8(&self.cf.cp, self.method.desc_index as usize) {
            Some(desc) => Ok(from_utf8_lossy(desc.as_slice())),
            None => Err(TranslateError::BadConstant),
        }
    }

    /// The declaration of the method without its `throws` clause.
    fn build_head(&self) -> (r: Result<String, TranslateError>)
        ensures
            match declaration_head(self.class_file(), self.method_info()) {
                Ok(head) => r matches Ok(s) && s@ == head,
                Err(e) => r matches Err(got) && got == e,
            },
    {
        let name = match get_utf8(&self.cf.cp, self.method.name_index as usize) {
            Some(name) => name,
            None => {
                return Err(TranslateError::BadConstant);
            },
        };
        if bytes_eq(name.as_slice(), "<init>".as_bytes()) {
            let access_flags = self.access_flags();
            match get_class_name(&self.cf.cp, self.cf.this_class as usize) {
                Some(class) => {
                    let class = from_utf8_lossy(class.as_slice());
                    Ok(constructor_head(access_flags, class.as_str()))
                },
                None => Err(TranslateError::BadConstant),
            }
        } else if bytes_eq(name.as_slice(), "<clinit>".as_bytes()) {
            Ok(String::from_str("static {}"))
        } else {
            let flags = self.access_flags();
            let signature = match self.method_signature() {
                Ok(signature) => signature,
                Err(e) => {
                    return Err(e);
                },
            };
            let ghost sig = signature@;
            let return_type = signature.retype.into_string();
            let args = match self.args() {
                Ok(args) => args,
                Err(e) => {
                    return Err(e);
                },
            };
            let mut data: Vec<(String, String)> = Vec::new();
            let plain = flags.as_str().unicode_len() == 0;
            let ghost flags_view = flags@;
            if !plain {
                data.push((String::from_str("flags"), flags));
            }
            data.push((String::from_str("return_type"), return_type));
            data.push((String::from_str("name"), from_utf8_lossy(name.as_slice())));
            data.push((String::from_str("args"), join(&args, ", ")));
            assert(binding_views(data@) =~= declaration_input(flags_view, name@, sig).1);
            let rendered = if plain {
                render_template("{{return_type}} {{name}}({{args}})", &data)
            } else {
                render_template("{{flags}} {{return_type}} {{name}}({{args}})", &data)
            };
            rendering_outcome(rendered)
        }
    }

    /// The declaration of the method: the head, the `throws` clause if the
    /// method has one, and a semicolon.
    pub fn build_desc(&self) -> (r: Result<String, TranslateError>)
        ensures
            match declaration_text(self.class_file(), self.method_info()) {
                Ok(text) => r matches Ok(s) && s@ == text,
                Err(e) => r matches Err(got) && got == e,
            },
    {
        let head = match self.build_head() {
            Ok(head) => head,
            Err(e) => {
                return Err(e);
            },
        };
        match self.throws() {
            Ok(throws) => Ok(end_declaration(head, throws)),
            Err(e) => Err(e),
        }
    }

    /// What is told of the code of the method.
    pub fn code(&self) -> (r: Result<CodeSerde, TranslateError>)
        ensures
            match code_serde_text(self.class_file().cp@, self.method_info()) {
                Ok(code) => r matches Ok(c) && c@ == code,
                Err(e) => r matches Err(got) && got == e,
            },
    {
        match self.method.get_code() {
            Some(code) => {
                let t = CodeTranslator { cf: self.cf, code };
                let codes = t.get();
                let signature = match self.method_signature() {
                    Ok(signature) => signature,
                    Err(e) => {
                        return Err(e);
                    },
                };
                let args_size = if is_static(self.method.acc_flags) {
                    signature.args.len()
                } else {
                    signature.args.len() + 1
                };
                Ok(
                    CodeSerde {
                        max_stack: code.max_stack,
                        max_locals: code.max_locals,
                        args_size,
                        codes,
                        enable_verbose: false,
                    },
                )
            },
            None => Ok(CodeSerde::default()),
        }
    }

    /// What is told of the method.
    pub fn get(&self, with_line_num: bool, with_code: bool) -> (r: Result<
        MethodTranslation,
        TranslateError,
    >)
        ensures
            match translation_text(
                self.class_file(),
                self.method_info(),
                with_line_num,
                with_code,
            ) {
                Ok(t) => r matches Ok(got) && got@ == t,
                Err(e) => r matches Err(got) && got == e,
            },
    {
        let desc = match self.build_desc() {
            Ok(desc) => desc,
            Err(e) => {
                return Err(e);
            },
        };
        let line_num_table = if with_line_num {
            self.method.get_line_number_table()
        } else {
            Vec::new()
        };
        let code = if with_code {
            match self.code() {
                Ok(code) => code,
                Err(e) => {
                    return Err(e);
                },
            }
        } else {
            CodeSerde::default()
        };
        let signature = match self.signature() {
            Ok(signature) => signature,
            Err(e) => {
                return Err(e);
            },
        };
        let flags = AccessFlagsTranslator::new(self.method.acc_flags).access_flag_inner();
        let throws = match self.throws() {
            Ok(Some(throws)) => throws,
            Ok(None) => String::new(),
            Err(e) => {
                return Err(e);
            },
        };
        let ex_table = match self.ex_table() {
            Ok(ex_table) => ex_table,
            Err(e) => {
                return Err(e);
            },
        };
        let stack_map_table = match self.stack_map_table() {
            Ok(stack_map_table) => stack_map_table,
            Err(e) => {
                return Err(e);
            },
        };
        let local_variable_table = match self.local_variable_table() {
            Ok(local_variable_table) => local_variable_table,
            Err(e) => {
                return Err(e);
            },
        };
        Ok(
            MethodTranslation {
                desc,
                line_num_table,
                code,
                signature,
                flags,
                throws,
                ex_table,
                stack_map_table,
                local_variable_table,
            },
        )
    }
}

/// Once the telling of a prefix of the frames has failed, the telling of
/// every longer prefix fails in the same way.
proof fn lemma_frames_text_fails(cp: Seq<Type>, frames: Seq<StackMapFrame>, n: int, m: int)
    requires
        0 <= n <= m,
        frames_text(cp, frames, n) is Err,
    ensures
        frames_text(cp, frames, m) == frames_text(cp, frames, n),
    decreases m - n,
{
    if n < m {
        lemma_frames_text_fails(cp, frames, n, m - 1);
    }
}

} // verus!
