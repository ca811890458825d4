//! What is told of a method depends on the value of the class file alone:
//! two class files of one value, such as a class file and the one that is
//! parsed from its bytes, are told alike.

use vstd::prelude::*;
use crate::classfile::attributes::{
    AttributeType, CodeAttribute, StackMapFrame, VerificationTypeInfo,
};
use crate::classfile::codec::class::{class_bytes, parsed_class};
use crate::classfile::codec::class::lemma_class_parse_serialize_parse;
use crate::classfile::codec::list::values;
use crate::classfile::constant_pool::{class_name_at, pool_view, utf8_at, Type};
use crate::classfile::{
    code_of, ex_table_of, first_code, first_exceptions, first_line_numbers,
    first_local_variables, first_stack_map, line_number_table_of, local_variable_table_of,
    stack_map_table_of, throws_of, ClassFile, MethodInfo,
};
use crate::trans::method::{
    code_serde_text, declaration_head, declaration_text, ex_table_row, ex_table_rows,
    ex_table_text, frame_text, frames_text, local_variable_row, local_variable_rows,
    local_variable_table_text, locals_text, signature_of, stack_map_table_text, thrown_name,
    thrown_names, throws_text, translation_text, verification_type_text,
    verification_type_texts,
};

verus! {

/// Two constant pools of one value hold the same names at every index.
pub proof fn lemma_same_pool(a: Seq<Type>, b: Seq<Type>)
    requires
        pool_view(a) == pool_view(b),
    ensures
        a.len() == b.len(),
        forall|i: int| #![trigger utf8_at(a, i)] #![trigger utf8_at(b, i)] utf8_at(a, i) == utf8_at(b, i),
        forall|i: int|
            #![trigger class_name_at(a, i)]
            #![trigger class_name_at(b, i)]
            class_name_at(a, i) == class_name_at(b, i),
{
    assert(a.len() == pool_view(a).len());
    assert(b.len() == pool_view(b).len());
    assert forall|i: int| utf8_at(a, i) == utf8_at(b, i) by {
        if 0 <= i < a.len() {
            assert(pool_view(a)[i] == a[i]@);
            assert(pool_view(b)[i] == b[i]@);
        }
    }
    assert forall|i: int| class_name_at(a, i) == class_name_at(b, i) by {
        if 0 <= i < a.len() {
            assert(pool_view(a)[i] == a[i]@);
            assert(pool_view(b)[i] == b[i]@);
        }
    }
}

/// Attributes of one value hold their first `Code` and their first
/// `Exceptions` attribute at the same places.
proof fn lemma_same_first_attributes(a: Seq<AttributeType>, b: Seq<AttributeType>, from: int)
    requires
        values::<AttributeType>(a) == values::<AttributeType>(b),
    ensures
        a.len() == b.len(),
        first_code(a, from) == first_code(b, from),
        first_exceptions(a, from) == first_exceptions(b, from),
        first_code(a, from) matches Some(i) ==> from <= i < a.len() && a[i] is Code,
        first_exceptions(a, from) matches Some(i) ==> from <= i < a.len() && a[i] is Exceptions,
    decreases a.len() - from,
{
    assert(a.len() == values::<AttributeType>(a).len());
    assert(b.len() == values::<AttributeType>(b).len());
    if 0 <= from < a.len() {
        assert(values::<AttributeType>(a)[from] == a[from]@);
        assert(values::<AttributeType>(b)[from] == b[from]@);
        lemma_same_first_attributes(a, b, from + 1);
    }
}

/// Attributes of code of one value hold the first table of each kind at
/// the same places.
proof fn lemma_same_first_code_attributes(a: Seq<CodeAttribute>, b: Seq<CodeAttribute>, from: int)
    requires
        values::<CodeAttribute>(a) == values::<CodeAttribute>(b),
    ensures
        a.len() == b.len(),
        first_line_numbers(a, from) == first_line_numbers(b, from),
        first_local_variables(a, from) == first_local_variables(b, from),
        first_stack_map(a, from) == first_stack_map(b, from),
        first_line_numbers(a, from) matches Some(i) ==> from <= i < a.len() && a[i] is LineNumberTable,
        first_local_variables(a, from) matches Some(i) ==> from <= i < a.len() && a[i] is LocalVariableTable,
        first_stack_map(a, from) matches Some(i) ==> from <= i < a.len() && a[i] is StackMapTable,
    decreases a.len() - from,
{
    assert(a.len() == values::<CodeAttribute>(a).len());
    assert(b.len() == values::<CodeAttribute>(b).len());
    if 0 <= from < a.len() {
        assert(values::<CodeAttribute>(a)[from] == a[from]@);
        assert(values::<CodeAttribute>(b)[from] == b[from]@);
        lemma_same_first_code_attributes(a, b, from + 1);
    }
}

/// Methods of one value have the same code, the same declared exceptions
/// and the same tables.
pub proof fn lemma_same_method(a: &MethodInfo, b: &MethodInfo)
    requires
        a@ == b@,
    ensures
        a.acc_flags == b.acc_flags,
        a.name_index == b.name_index,
        a.desc_index == b.desc_index,
        throws_of(a) == throws_of(b),
        code_of(a) is Some <==> code_of(b) is Some,
        code_of(a) is Some ==> code_of(a)->Some_0@ == code_of(b)->Some_0@,
        ex_table_of(a) == ex_table_of(b),
        local_variable_table_of(a) == local_variable_table_of(b),
        line_number_table_of(a) == line_number_table_of(b),
        stack_map_table_of(a) is Some <==> stack_map_table_of(b) is Some,
        stack_map_table_of(a) is Some ==> values::<StackMapFrame>(stack_map_table_of(a)->Some_0)
            == values::<StackMapFrame>(stack_map_table_of(b)->Some_0),
{
    lemma_same_first_attributes(a.attrs@, b.attrs@, 0);
    match first_exceptions(a.attrs@, 0) {
        Some(i) => {
            assert(values::<AttributeType>(a.attrs@)[i] == a.attrs@[i]@);
            assert(values::<AttributeType>(b.attrs@)[i] == b.attrs@[i]@);
        },
        None => {},
    }
    match first_code(a.attrs@, 0) {
        Some(i) => {
            assert(values::<AttributeType>(a.attrs@)[i] == a.attrs@[i]@);
            assert(values::<AttributeType>(b.attrs@)[i] == b.attrs@[i]@);
            let ca = a.attrs@[i]->Code_code;
            let cb = b.attrs@[i]->Code_code;
            assert(ca@ == cb@);
            lemma_same_first_code_attributes(ca.attrs@, cb.attrs@, 0);
            match first_line_numbers(ca.attrs@, 0) {
                Some(k) => {
                    assert(values::<CodeAttribute>(ca.attrs@)[k] == ca.attrs@[k]@);
                    assert(values::<CodeAttribute>(cb.attrs@)[k] == cb.attrs@[k]@);
                },
                None => {},
            }
            match first_local_variables(ca.attrs@, 0) {
                Some(k) => {
                    assert(values::<CodeAttribute>(ca.attrs@)[k] == ca.attrs@[k]@);
                    assert(values::<CodeAttribute>(cb.attrs@)[k] == cb.attrs@[k]@);
                },
                None => {},
            }
            match first_stack_map(ca.attrs@, 0) {
                Some(k) => {
                    assert(values::<CodeAttribute>(ca.attrs@)[k] == ca.attrs@[k]@);
                    assert(values::<CodeAttribute>(cb.attrs@)[k] == cb.attrs@[k]@);
                },
                None => {},
            }
        },
        None => {},
    }
}

/// The `throws` clause of a method depends on the values of the constant
/// pool and of the method alone.
pub proof fn lemma_same_throws(a: Seq<Type>, b: Seq<Type>, m: &MethodInfo, n: &MethodInfo)
    requires
        pool_view(a) == pool_view(b),
        m@ == n@,
    ensures
        throws_text(a, m) == throws_text(b, n),
{
    lemma_same_pool(a, b);
    lemma_same_method(m, n);
    match throws_of(m) {
        Some(indices) => {
            assert forall|i: int|
                #![trigger thrown_name(a, indices[i])]
                #![trigger thrown_name(b, indices[i])]
                0 <= i < indices.len() implies thrown_name(a, indices[i]) == thrown_name(b, indices[i]) by {}
            if thrown_names(a, indices) is Some {
                assert(thrown_names(a, indices)->Some_0 =~= thrown_names(b, indices)->Some_0);
            }
        },
        None => {},
    }
}

/// The exception table of a method as lines depends on the values of the
/// constant pool and of the method alone.
pub proof fn lemma_same_ex_table(a: Seq<Type>, b: Seq<Type>, m: &MethodInfo, n: &MethodInfo)
    requires
        pool_view(a) == pool_view(b),
        m@ == n@,
    ensures
        ex_table_text(a, m) == ex_table_text(b, n),
{
    lemma_same_pool(a, b);
    lemma_same_method(m, n);
    match ex_table_of(m) {
        Some(table) => {
            assert forall|i: int|
                #![trigger ex_table_row(a, table[i])]
                #![trigger ex_table_row(b, table[i])]
                0 <= i < table.len() implies ex_table_row(a, table[i]) == ex_table_row(b, table[i]) by {}
            if ex_table_rows(a, table) is Some {
                assert(ex_table_rows(a, table)->Some_0 =~= ex_table_rows(b, table)->Some_0);
            }
        },
        None => {},
    }
}

/// The local variable table of a method as lines depends on the values of
/// the constant pool and of the method alone.
pub proof fn lemma_same_local_variable_table(
    a: Seq<Type>,
    b: Seq<Type>,
    m: &MethodInfo,
    n: &MethodInfo,
)
    requires
        pool_view(a) == pool_view(b),
        m@ == n@,
    ensures
        local_variable_table_text(a, m) == local_variable_table_text(b, n),
{
    lemma_same_pool(a, b);
    lemma_same_method(m, n);
    match local_variable_table_of(m) {
        Some(table) => {
            assert forall|i: int|
                #![trigger local_variable_row(a, table[i])]
                #![trigger local_variable_row(b, table[i])]
                0 <= i < table.len() implies local_variable_row(a, table[i]) == local_variable_row(b, table[i]) by {}
            if local_variable_rows(a, table) is Some {
                assert(local_variable_rows(a, table)->Some_0 =~= local_variable_rows(
                    b,
                    table,
                )->Some_0);
            }
        },
        None => {},
    }
}

/// The locals of a stack map frame as one line depend on the value of the
/// constant pool alone.
pub proof fn lemma_same_locals(a: Seq<Type>, b: Seq<Type>, locals: Seq<VerificationTypeInfo>)
    requires
        pool_view(a) == pool_view(b),
    ensures
        locals_text(a, locals) == locals_text(b, locals),
{
    lemma_same_pool(a, b);
    assert forall|i: int|
                #![trigger verification_type_text(a, locals[i])]
                #![trigger verification_type_text(b, locals[i])]
                0 <= i < locals.len() implies verification_type_text(a, locals[i]) == verification_type_text(b, locals[i]) by {}
    if verification_type_texts(a, locals) is Some {
        assert(verification_type_texts(a, locals)->Some_0 =~= verification_type_texts(
            b,
            locals,
        )->Some_0);
    }
}

/// What is told of the first `n` frames depends on the values of the
/// constant pool and of the frames alone.
proof fn lemma_same_frames(
    a: Seq<Type>,
    b: Seq<Type>,
    f: Seq<StackMapFrame>,
    g: Seq<StackMapFrame>,
    n: int,
)
    requires
        pool_view(a) == pool_view(b),
        values::<StackMapFrame>(f) == values::<StackMapFrame>(g),
        n <= f.len(),
    ensures
        frames_text(a, f, n) == frames_text(b, g, n),
    decreases n,
{
    if n > 0 {
        lemma_same_frames(a, b, f, g, n - 1);
        assert(f.len() == values::<StackMapFrame>(f).len());
        assert(g.len() == values::<StackMapFrame>(g).len());
        assert(values::<StackMapFrame>(f)[n - 1] == f[n - 1]@);
        assert(values::<StackMapFrame>(g)[n - 1] == g[n - 1]@);
        match f[n - 1] {
            StackMapFrame::Append { locals, .. } => {
                lemma_same_locals(a, b, locals@);
            },
            _ => {},
        }
        assert(frame_text(a, f[n - 1]) == frame_text(b, g[n - 1]));
    }
}

/// What is told of the stack map table of a method depends on the values
/// of the constant pool and of the method alone.
pub proof fn lemma_same_stack_map_table(
    a: Seq<Type>,
    b: Seq<Type>,
    m: &MethodInfo,
    n: &MethodInfo,
)
    requires
        pool_view(a) == pool_view(b),
        m@ == n@,
    ensures
        stack_map_table_text(a, m) == stack_map_table_text(b, n),
{
    lemma_same_method(m, n);
    match stack_map_table_of(m) {
        Some(f) => {
            let g = stack_map_table_of(n)->Some_0;
            assert(f.len() == values::<StackMapFrame>(f).len());
            assert(g.len() == values::<StackMapFrame>(g).len());
            lemma_same_frames(a, b, f, g, f.len() as int);
        },
        None => {},
    }
}

/// The declaration of a method depends on the values of the class file
/// and of the method alone.
pub proof fn lemma_same_declaration(c: &ClassFile, d: &ClassFile, m: &MethodInfo, n: &MethodInfo)
    requires
        c@ == d@,
        m@ == n@,
    ensures
        declaration_text(c, m) == declaration_text(d, n),
{
    lemma_same_pool(c.cp@, d.cp@);
    lemma_same_method(m, n);
    lemma_same_throws(c.cp@, d.cp@, m, n);
    assert(signature_of(c.cp@, m) == signature_of(d.cp@, n));
    assert(declaration_head(c, m) == declaration_head(d, n));
}

/// What is told of the code of a method depends on the values of the
/// constant pool and of the method alone.
pub proof fn lemma_same_code(a: Seq<Type>, b: Seq<Type>, m: &MethodInfo, n: &MethodInfo)
    requires
        pool_view(a) == pool_view(b),
        m@ == n@,
    ensures
        code_serde_text(a, m) == code_serde_text(b, n),
{
    lemma_same_pool(a, b);
    lemma_same_method(m, n);
    assert(signature_of(a, m) == signature_of(b, n));
}

/// What is told of a method depends on the values of the class file and of
/// the method alone: two class files of one value, and two methods of one
/// value, are told alike in every part, and fail alike.
pub proof fn lemma_same_translation(
    c: &ClassFile,
    d: &ClassFile,
    m: &MethodInfo,
    n: &MethodInfo,
    with_line_num: bool,
    with_code: bool,
)
    requires
        c@ == d@,
        m@ == n@,
    ensures
        translation_text(c, m, with_line_num, with_code) == translation_text(
            d,
            n,
            with_line_num,
            with_code,
        ),
{
    lemma_same_pool(c.cp@, d.cp@);
    lemma_same_method(m, n);
    lemma_same_declaration(c, d, m, n);
    lemma_same_code(c.cp@, d.cp@, m, n);
    lemma_same_throws(c.cp@, d.cp@, m, n);
    lemma_same_ex_table(c.cp@, d.cp@, m, n);
    lemma_same_stack_map_table(c.cp@, d.cp@, m, n);
    lemma_same_local_variable_table(c.cp@, d.cp@, m, n);
}

/// A class file that is parsed from the bytes `s`, written as bytes and
/// parsed again has the methods that it had, and each of them is told as
/// before: its declaration, its descriptor, its flags and its `throws`
/// clause, its line numbers, its code and its tables.
pub proof fn lemma_translation_survives_round_trip(
    s: Seq<u8>,
    first: &ClassFile,
    second: &ClassFile,
    i: int,
    with_line_num: bool,
    with_code: bool,
)
    requires
        parsed_class(s) == Some(first@),
        parsed_class(class_bytes(first@)) == Some(second@),
        0 <= i < first.methods@.len(),
    ensures
        second.methods@.len() == first.methods@.len(),
        translation_text(first, &first.methods@[i], with_line_num, with_code) == translation_text(
            second,
            &second.methods@[i],
            with_line_num,
            with_code,
        ),
{
    lemma_class_parse_serialize_parse(s);
    assert(first@ == second@);
    assert(first.methods@.len() == values::<MethodInfo>(first.methods@).len());
    assert(second.methods@.len() == values::<MethodInfo>(second.methods@).len());
    assert(values::<MethodInfo>(first.methods@)[i] == first.methods@[i]@);
    assert(values::<MethodInfo>(second.methods@)[i] == second.methods@[i]@);
    lemma_same_translation(
        first,
        second,
        &first.methods@[i],
        &second.methods@[i],
        with_line_num,
        with_code,
    );
}

} // verus!
