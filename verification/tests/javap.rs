use jvm::classfile::attributes::{
    AttributeType, Code, CodeAttribute, CodeException, LineNumber, LocalVariable, StackMapFrame,
    VerificationTypeInfo,
};
use jvm::classfile::constant_pool::{get_class_name, get_utf8, Type};
use jvm::classfile::{ClassFile, MethodInfo};
use jvm::sd::CodeSerde;
use jvm::trans::access_flag::{is_static, AccessFlagsTranslator};
use jvm::trans::code::CodeTranslator;
use jvm::trans::method::{
    constructor_head, end_declaration, ex_table_line, local_variable_line, rendering_outcome,
    verification_type_word, MethodTranslation, StackMapTableTranslation, TranslateError,
    Translator,
};
use jvm::trans::text::{decimal_string, dots_for_slashes, join, push_decimal_column, push_right_aligned};

fn utf8(s: &str) -> Type {
    Type::Utf8 { bytes: s.as_bytes().to_vec() }
}

// 1 Hello, 2 class Hello, 3 main, 4 ([Ljava/lang/String;)V, 5 <init>, 6 ()V, 7 <clinit>,
// 8 java/io/IOException, 9 class 8, 10 java/lang/Exception, 11 class 10, 12 args,
// 13 [Ljava/lang/String;, 14 i, 15 I, 16 a=b<c>, 17 (IJ)Ljava/lang/String;, 18 nonsense
fn class_file() -> ClassFile {
    ClassFile {
        cp: vec![
            Type::Nop,
            utf8("Hello"),
            Type::Class { name_index: 1 },
            utf8("main"),
            utf8("([Ljava/lang/String;)V"),
            utf8("<init>"),
            utf8("()V"),
            utf8("<clinit>"),
            utf8("java/io/IOException"),
            Type::Class { name_index: 8 },
            utf8("java/lang/Exception"),
            Type::Class { name_index: 10 },
            utf8("args"),
            utf8("[Ljava/lang/String;"),
            utf8("i"),
            utf8("I"),
            utf8("a=b<c>"),
            utf8("(IJ)Ljava/lang/String;"),
            utf8("nonsense"),
        ],
        minor_version: 0,
        major_version: 52,
        acc_flags: 0x21,
        this_class: 2,
        super_class: 0,
        interfaces: vec![],
        fields: vec![],
        methods: vec![],
        attrs: vec![],
    }
}

#[derive(Clone)]
struct C {
    code: Vec<u8>,
    exceptions: Vec<CodeException>,
    line_numbers: Vec<LineNumber>,
    local_variables: Option<Vec<LocalVariable>>,
    stack_map_table: Option<Vec<StackMapFrame>>,
}

impl C {
    fn build(&self) -> Code {
        let mut attrs = vec![CodeAttribute::Unknown { name_index: 18, info: vec![1, 2, 3] }];
        if let Some(entries) = &self.stack_map_table {
            attrs.push(CodeAttribute::StackMapTable { name_index: 18, entries: entries.clone() });
            attrs.push(CodeAttribute::StackMapTable { name_index: 18, entries: vec![StackMapFrame::Reserved(130)] });
        }
        if !self.line_numbers.is_empty() {
            attrs.push(CodeAttribute::LineNumberTable { name_index: 18, tables: self.line_numbers.clone() });
            attrs.push(CodeAttribute::LineNumberTable {
                name_index: 18,
                tables: vec![LineNumber { start_pc: 9, number: 9 }],
            });
        }
        if let Some(tables) = &self.local_variables {
            attrs.push(CodeAttribute::LocalVariableTable { name_index: 18, tables: tables.clone() });
            attrs.push(CodeAttribute::LocalVariableTable { name_index: 18, tables: vec![] });
        }
        Code { max_stack: 2, max_locals: 3, code: self.code.clone(), exceptions: self.exceptions.clone(), attrs }
    }
}

#[derive(Clone)]
struct M {
    acc_flags: u16,
    name_index: u16,
    desc_index: u16,
    code: Option<C>,
    throws: Option<Vec<u16>>,
}

impl M {
    fn build(&self) -> MethodInfo {
        let mut attrs = vec![AttributeType::Unknown { name_index: 18, info: vec![] }];
        if let Some(exceptions) = &self.throws {
            attrs.push(AttributeType::Exceptions { name_index: 18, exceptions: exceptions.clone() });
            attrs.push(AttributeType::Exceptions { name_index: 18, exceptions: vec![1, 1, 1] });
        }
        if let Some(c) = &self.code {
            attrs.push(AttributeType::Code { name_index: 18, code: c.build() });
            attrs.push(AttributeType::Code { name_index: 18, code: code(vec![0, 0, 0]).build() });
        }
        MethodInfo { acc_flags: self.acc_flags, name_index: self.name_index, desc_index: self.desc_index, attrs }
    }
}

fn method(acc_flags: u16, name_index: u16, desc_index: u16) -> M {
    M { acc_flags, name_index, desc_index, code: None, throws: None }
}

fn code(bytes: Vec<u8>) -> C {
    C { code: bytes, exceptions: vec![], line_numbers: vec![], local_variables: None, stack_map_table: None }
}

#[test]
fn constant_pool_lookups() {
    let cf = class_file();
    assert_eq!(get_utf8(&cf.cp, 1), Some(&b"Hello".to_vec()));
    assert_eq!(get_utf8(&cf.cp, 2), None);
    assert_eq!(get_utf8(&cf.cp, 0), None);
    assert_eq!(get_utf8(&cf.cp, 19), None);
    assert_eq!(get_class_name(&cf.cp, 2), Some(&b"Hello".to_vec()));
    assert_eq!(get_class_name(&cf.cp, 9), Some(&b"java/io/IOException".to_vec()));
    assert_eq!(get_class_name(&cf.cp, 1), None);
    assert_eq!(get_class_name(&cf.cp, 0), None);
    assert_eq!(get_class_name(&cf.cp, 100), None);
    let dangling = vec![Type::Nop, Type::Class { name_index: 2 }, Type::Class { name_index: 7 }];
    assert_eq!(get_class_name(&dangling, 1), None);
    assert_eq!(get_class_name(&dangling, 2), None);
}

#[test]
fn access_flags_as_words() {
    let words = |flags| AccessFlagsTranslator::new(flags).method_access_flags();
    let names = |flags| AccessFlagsTranslator::new(flags).access_flag_inner();
    assert_eq!(words(0), "");
    assert_eq!(words(0x0001), "public");
    assert_eq!(words(0x0009), "public static");
    assert_eq!(words(0x001a), "private static final");
    assert_eq!(words(0x0404), "protected abstract");
    assert_eq!(words(0x0d3c), "protected abstract static final synchronized native strictfp");
    assert_eq!(words(0x10c0), "");
    assert_eq!(names(0), "");
    assert_eq!(names(0x0009), "ACC_PUBLIC, ACC_STATIC");
    assert_eq!(
        names(0x1dff),
        "ACC_PUBLIC, ACC_PRIVATE, ACC_PROTECTED, ACC_STATIC, ACC_FINAL, ACC_SYNCHRONIZED, \
         ACC_BRIDGE, ACC_VARARGS, ACC_NATIVE, ACC_ABSTRACT, ACC_STRICT, ACC_SYNTHETIC"
    );
    assert!(is_static(0x0008));
    assert!(!is_static(0xfff7));
}

#[test]
fn text_helpers() {
    assert_eq!(decimal_string(0), "0");
    assert_eq!(decimal_string(7), "7");
    assert_eq!(decimal_string(10), "10");
    assert_eq!(decimal_string(65535), "65535");
    assert_eq!(decimal_string(u64::MAX), "18446744073709551615");
    let mut s = String::from("|");
    push_decimal_column(&mut s, 42, 5);
    s.push('|');
    push_decimal_column(&mut s, 123456, 5);
    s.push('|');
    push_right_aligned(&mut s, "ab", 4);
    s.push('|');
    push_right_aligned(&mut s, "h\u{e9}llo!", 6);
    s.push('|');
    push_right_aligned(&mut s, "\u{e9}", 3);
    assert_eq!(s, "|   42|123456|  ab|h\u{e9}llo!|  \u{e9}");
    assert_eq!(s, format!("|{:>5}|{:>5}|{:>4}|{:>6}|{:>3}", 42, 123456, "ab", "h\u{e9}llo!", "\u{e9}"));
    assert_eq!(join(&vec![], ", "), "");
    assert_eq!(join(&vec!["a".to_string()], ", "), "a");
    assert_eq!(join(&vec!["a".to_string(), "".to_string(), "c".to_string()], ", "), "a, , c");
    assert_eq!(dots_for_slashes("java/lang/String"), "java.lang.String");
    assert_eq!(dots_for_slashes("/a//b/"), ".a..b.");
    assert_eq!(dots_for_slashes(""), "");
}

#[test]
fn declaration_of_a_plain_method() {
    let cf = class_file();
    let m = method(0x0009, 3, 4);
    let mi = m.build();
    let t = Translator::new(&cf, &mi);
    assert_eq!(t.access_flags(), "public static");
    assert_eq!(t.return_type(), Ok("void".to_string()));
    assert_eq!(t.args(), Ok(vec!["java.lang.String[]".to_string()]));
    assert_eq!(t.signature(), Ok("([Ljava/lang/String;)V".to_string()));
    assert_eq!(t.build_desc(), Ok("public static void main(java.lang.String[]);".to_string()));
}

#[test]
fn declaration_without_modifiers_has_no_leading_space() {
    let cf = class_file();
    let m = method(0, 3, 17);
    let mi = m.build();
    let t = Translator::new(&cf, &mi);
    assert_eq!(t.build_desc(), Ok("java.lang.String main(int, long);".to_string()));
}

#[test]
fn declaration_goes_through_the_template_engine() {
    let cf = class_file();
    let m = method(0x0001, 16, 6);
    let mi = m.build();
    let t = Translator::new(&cf, &mi);
    assert_eq!(t.build_desc(), Ok("public void a&#x3D;b&lt;c&gt;();".to_string()));
}

#[test]
fn each_of_seven_characters_of_a_name_is_written_as_its_entity() {
    let mut cf = class_file();
    cf.cp[3] = utf8("<>\"&'`=x{{y}}");
    let t = method(0x0008, 3, 6).build();
    assert_eq!(
        Translator::new(&cf, &t).build_desc(),
        Ok("static void &lt;&gt;&quot;&amp;&#x27;&#x60;&#x3D;x{{y}}();".to_string())
    );
    let t = method(0, 3, 4).build();
    assert_eq!(
        Translator::new(&cf, &t).build_desc(),
        Ok("void &lt;&gt;&quot;&amp;&#x27;&#x60;&#x3D;x{{y}}(java.lang.String[]);".to_string())
    );
    // the name of a constructor's class does not pass the template engine
    cf.cp[1] = utf8("A<B>");
    let t = method(0x0001, 5, 6).build();
    assert_eq!(Translator::new(&cf, &t).build_desc(), Ok("public A<B>();".to_string()));
}

#[test]
fn declaration_of_a_constructor_and_of_a_class_initializer() {
    let cf = class_file();
    let m = method(0x0001, 5, 6);
    assert_eq!(Translator::new(&cf, &m.build()).build_desc(), Ok("public Hello();".to_string()));
    let m = method(0, 5, 6);
    assert_eq!(Translator::new(&cf, &m.build()).build_desc(), Ok(" Hello();".to_string()));
    let m = method(0x0008, 7, 6);
    assert_eq!(Translator::new(&cf, &m.build()).build_desc(), Ok("static {};".to_string()));
    let m = method(0x0008, 7, 18);
    assert_eq!(Translator::new(&cf, &m.build()).build_desc(), Ok("static {};".to_string()));
}

#[test]
fn declaration_with_a_throws_clause() {
    let cf = class_file();
    let mut m = method(0x0001, 3, 6);
    m.throws = Some(vec![9, 11]);
    let mi = m.build();
    let t = Translator::new(&cf, &mi);
    assert_eq!(t.throws(), Ok(Some("java.io.IOException, java.lang.Exception".to_string())));
    assert_eq!(
        t.build_desc(),
        Ok("public void main() throws java.io.IOException, java.lang.Exception;".to_string())
    );
    m.throws = Some(vec![]);
    let mi = m.build();
    let t = Translator::new(&cf, &mi);
    assert_eq!(t.throws(), Ok(Some("".to_string())));
    assert_eq!(t.build_desc(), Ok("public void main() throws ;".to_string()));
    m.throws = None;
    assert_eq!(Translator::new(&cf, &m.build()).throws(), Ok(None));
    assert_eq!(end_declaration("x".to_string(), Some("E".to_string())), "x throws E;");
    assert_eq!(end_declaration("x".to_string(), None), "x;");
}

#[test]
fn a_constant_of_the_wrong_kind_is_an_error() {
    let cf = class_file();
    let bad = Err(TranslateError::BadConstant);
    assert_eq!(Translator::new(&cf, &method(1, 2, 6).build()).build_desc(), bad);
    assert_eq!(Translator::new(&cf, &method(1, 99, 6).build()).build_desc(), bad);
    assert_eq!(Translator::new(&cf, &method(1, 3, 2).build()).build_desc(), bad);
    assert_eq!(Translator::new(&cf, &method(1, 3, 2).build()).signature(), bad);
    assert_eq!(Translator::new(&cf, &method(1, 3, 0).build()).return_type(), bad);
    assert_eq!(Translator::new(&cf, &method(1, 3, 0).build()).args(), Err(TranslateError::BadConstant));
    let mut m = method(1, 3, 6);
    m.throws = Some(vec![9, 8]);
    assert_eq!(Translator::new(&cf, &m.build()).throws(), Err(TranslateError::BadConstant));
    assert_eq!(Translator::new(&cf, &m.build()).build_desc(), bad);
    let mut no_class = class_file();
    no_class.this_class = 1;
    assert_eq!(Translator::new(&no_class, &method(1, 5, 6).build()).build_desc(), bad);
}

#[test]
fn a_descriptor_that_is_none_is_an_error() {
    let cf = class_file();
    let m = method(1, 3, 18);
    let mi = m.build();
    let t = Translator::new(&cf, &mi);
    assert_eq!(t.build_desc(), Err(TranslateError::BadDescriptor));
    assert_eq!(t.return_type(), Err(TranslateError::BadDescriptor));
    assert_eq!(t.args(), Err(TranslateError::BadDescriptor));
    assert_eq!(t.signature(), Ok("nonsense".to_string()));
}

#[test]
fn an_error_of_the_template_engine_is_a_render_error() {
    let registry = handlebars::Handlebars::new();
    let data: Vec<String> = vec![];
    let failed = registry.render_template("{{#if}}", &data);
    assert!(failed.is_err());
    assert_eq!(rendering_outcome(failed), Err(TranslateError::Render));
    let fine = registry.render_template("{{this.[0]}}!", &vec!["x".to_string()]);
    assert_eq!(rendering_outcome(fine), Ok("x!".to_string()));
}

#[test]
fn exception_table_as_lines() {
    let cf = class_file();
    let mut m = method(1, 3, 6);
    assert_eq!(Translator::new(&cf, &m.build()).ex_table(), Ok(vec![]));
    let mut c = code(vec![0xb1]);
    m.code = Some(code(vec![0xb1]));
    assert_eq!(Translator::new(&cf, &m.build()).ex_table(), Ok(vec![]));
    c.exceptions = vec![
        CodeException { start_pc: 0, end_pc: 12, handler_pc: 15, catch_type: 9 },
        CodeException { start_pc: 123, end_pc: 45678, handler_pc: 65535, catch_type: 11 },
    ];
    m.code = Some(c);
    let expected = vec![
        format!("{:5} {:>5} {:6} {:4}", "from", "to ", "target", "type"),
        format!("{:>5} {:>5} {:>5} {} {}", 0, 12, 15, "  Class", "java/io/IOException"),
        format!("{:>5} {:>5} {:>5} {} {}", 123, 45678, 65535, "  Class", "java/lang/Exception"),
    ];
    assert_eq!(expected[0], "from    to  target type");
    assert_eq!(expected[1], "    0    12    15   Class java/io/IOException");
    assert_eq!(Translator::new(&cf, &m.build()).ex_table(), Ok(expected));
    m.code.as_mut().unwrap().exceptions[1].catch_type = 1;
    assert_eq!(Translator::new(&cf, &m.build()).ex_table(), Err(TranslateError::BadConstant));
    m.code.as_mut().unwrap().exceptions[1].catch_type = 999;
    assert_eq!(Translator::new(&cf, &m.build()).ex_table(), Err(TranslateError::BadConstant));
}

#[test]
fn a_handler_that_catches_everything_has_a_row_of_its_own() {
    let cf = class_file();
    let mut m = method(1, 3, 6);
    let mut c = code(vec![0xb1]);
    c.exceptions = vec![
        CodeException { start_pc: 0, end_pc: 12, handler_pc: 15, catch_type: 9 },
        CodeException { start_pc: 0, end_pc: 20, handler_pc: 23, catch_type: 0 },
        CodeException { start_pc: 123, end_pc: 45678, handler_pc: 65535, catch_type: 0 },
    ];
    m.code = Some(c);
    let expected = vec![
        "from    to  target type".to_string(),
        "    0    12    15   Class java/io/IOException".to_string(),
        "    0    20    23   any".to_string(),
        "  123 45678 65535   any".to_string(),
    ];
    assert_eq!(Translator::new(&cf, &m.build()).ex_table(), Ok(expected.clone()));
    let t = Translator::new(&cf, &m.build()).get(false, false).unwrap();
    assert_eq!(t.ex_table, expected);
}

#[test]
fn local_variable_table_as_lines() {
    let cf = class_file();
    let mut m = method(1, 3, 6);
    assert_eq!(Translator::new(&cf, &m.build()).local_variable_table(), Ok(vec![]));
    let mut c = code(vec![0xb1]);
    c.local_variables = Some(vec![
        LocalVariable { start_pc: 0, length: 9, name_index: 12, signature_index: 13, index: 0 },
        LocalVariable { start_pc: 2, length: 65535, name_index: 14, signature_index: 15, index: 12345 },
        LocalVariable { start_pc: 7, length: 1, name_index: 16, signature_index: 15, index: 2 },
    ]);
    m.code = Some(c);
    let expected = vec![
        format!("{:5}  {:6}  {:4}  {:>5}  {}", "Start", "Length", "Slot", "Name", "Signature"),
        format!("{:>5}  {:>6}  {:>4}  {:>5}  {}", 0, 9, 0, "args", "[Ljava/lang/String;"),
        format!("{:>5}  {:>6}  {:>4}  {:>5}  {}", 2, 65535, 12345, "i", "I"),
        format!("{:>5}  {:>6}  {:>4}  {:>5}  {}", 7, 1, 2, "a=b<c>", "I"),
    ];
    assert_eq!(expected[0], "Start  Length  Slot   Name  Signature");
    assert_eq!(expected[1], "    0       9     0   args  [Ljava/lang/String;");
    assert_eq!(Translator::new(&cf, &m.build()).local_variable_table(), Ok(expected));
    m.code.as_mut().unwrap().local_variables = Some(vec![]);
    assert_eq!(
        Translator::new(&cf, &m.build()).local_variable_table(),
        Ok(vec!["Start  Length  Slot   Name  Signature".to_string()])
    );
    m.code.as_mut().unwrap().local_variables =
        Some(vec![LocalVariable { start_pc: 0, length: 9, name_index: 12, signature_index: 2, index: 0 }]);
    assert_eq!(Translator::new(&cf, &m.build()).local_variable_table(), Err(TranslateError::BadConstant));
    m.code.as_mut().unwrap().local_variables =
        Some(vec![LocalVariable { start_pc: 0, length: 9, name_index: 200, signature_index: 13, index: 0 }]);
    assert_eq!(Translator::new(&cf, &m.build()).local_variable_table(), Err(TranslateError::BadConstant));
}

fn frame(tag: u8, comment: &'static str, items: &[&str]) -> StackMapTableTranslation {
    StackMapTableTranslation { tag, comment, items: items.iter().map(|s| s.to_string()).collect() }
}

#[test]
fn stack_map_table_frame_by_frame() {
    let cf = class_file();
    let mut m = method(1, 3, 6);
    assert_eq!(Translator::new(&cf, &m.build()).stack_map_table(), Ok(vec![]));
    let mut c = code(vec![0xb1]);
    let all_locals = vec![
        VerificationTypeInfo::Float,
        VerificationTypeInfo::Top,
        VerificationTypeInfo::Integer,
        VerificationTypeInfo::Long,
        VerificationTypeInfo::Double,
        VerificationTypeInfo::Null,
        VerificationTypeInfo::UninitializedThis,
        VerificationTypeInfo::Object { cpool_index: 9 },
        VerificationTypeInfo::Uninitialized { offset: 4 },
    ];
    c.stack_map_table = Some(vec![
        StackMapFrame::Append { tag: 253, offset_delta: 12, locals: all_locals.clone() },
        StackMapFrame::Same { tag: 5, offset_delta: 5 },
        StackMapFrame::Reserved(200),
        StackMapFrame::SameLocals1StackItem { tag: 70, offset_delta: 6, stack: VerificationTypeInfo::Integer },
        StackMapFrame::SameLocals1StackItemExtended {
            tag: 247,
            offset_delta: 300,
            stack: VerificationTypeInfo::Object { cpool_index: 1 },
        },
        StackMapFrame::Chop { tag: 250, offset_delta: 65535 },
        StackMapFrame::SameExtended { tag: 251, offset_delta: 7 },
        StackMapFrame::Full {
            tag: 255,
            offset_delta: 1,
            locals: vec![VerificationTypeInfo::Object { cpool_index: 1 }],
            stack: vec![],
        },
        StackMapFrame::Append { tag: 252, offset_delta: 0, locals: vec![] },
    ]);
    m.code = Some(c);
    let locals = "locals = [ float, top, int, long, double, null, UninitializedThis, \
                  class \"java/io/IOException\", Uninitialized ]";
    let mi = m.build();
    let t = Translator::new(&cf, &mi);
    assert_eq!(t.build_stack_map_frame_locals(&all_locals), Ok(locals.to_string()));
    assert_eq!(t.build_stack_map_frame_locals(&vec![]), Ok("locals = [  ]".to_string()));
    assert_eq!(
        t.stack_map_table(),
        Ok(vec![
            frame(253, "/* append */", &["offset_delta = 12", locals]),
            frame(5, "/* same */", &["offset_delta = 5"]),
            frame(70, "/* todo: SameLocals1StackItem */", &[]),
            frame(247, "/* todo: SameLocals1StackItemExtended */", &[]),
            frame(250, "/* chop */", &["offset_delta = 65535"]),
            frame(251, "/* todo: SameExtended */", &[]),
            frame(255, "/* todo: Full */", &[]),
            frame(252, "/* append */", &["offset_delta = 0", "locals = [  ]"]),
        ])
    );
    let bad = vec![VerificationTypeInfo::Integer, VerificationTypeInfo::Object { cpool_index: 1 }];
    assert_eq!(t.build_stack_map_frame_locals(&bad), Err(TranslateError::BadConstant));
    m.code.as_mut().unwrap().stack_map_table.as_mut().unwrap().push(StackMapFrame::Append {
        tag: 252,
        offset_delta: 0,
        locals: bad,
    });
    assert_eq!(Translator::new(&cf, &m.build()).stack_map_table(), Err(TranslateError::BadConstant));
}

#[test]
fn code_as_a_listing() {
    let cf = class_file();
    let bytes = vec![
        0x2a, // aload_0
        0xb7, 0x00, 0x01, // invokespecial #1
        0x12, 0x07, // ldc #7
        0x10, 0x2a, // bipush
        0xc4, 0x37, 0x01, 0x00, // wide lstore
        0x84, 0x01, 0x02, // iinc
        0xc4, 0x84, 0x00, 0x01, 0x00, 0x02, // wide iinc
        0xb1, // return
        0xb2, 0x00, // getstatic, cut short
    ];
    let c = code(bytes);
    let listing = CodeTranslator { cf: &cf, code: &c.build() }.get();
    assert_eq!(
        listing,
        vec![
            "   0: aload_0",
            "   1: invokespecial #1",
            "   4: ldc #7",
            "   6: bipush",
            "   8: wide",
            "   9: lstore",
            "  12: iinc",
            "  15: wide",
            "  16: iinc",
            "  21: return",
        ]
    );
    let empty = code(vec![]);
    assert_eq!(CodeTranslator { cf: &cf, code: &empty.build() }.get(), Vec::<String>::new());
    let unknown = code(vec![0x00, 0xcb, 0x00]);
    assert_eq!(CodeTranslator { cf: &cf, code: &unknown.build() }.get(), vec!["   0: nop"]);
    let mut long = vec![0u8; 12345];
    long.push(0xb1);
    let c = code(long);
    let listing = CodeTranslator { cf: &cf, code: &c.build() }.get();
    assert_eq!(listing.len(), 12346);
    assert_eq!(listing[999], " 999: nop");
    assert_eq!(listing[12345], "12345: return");
}

#[test]
fn code_with_its_limits_and_the_size_of_its_arguments() {
    let cf = class_file();
    let mut m = method(0x0001, 3, 17);
    assert_eq!(Translator::new(&cf, &m.build()).code(), Ok(CodeSerde::default()));
    assert_eq!(
        CodeSerde::default(),
        CodeSerde { max_stack: 0, max_locals: 0, args_size: 0, codes: vec![], enable_verbose: false }
    );
    m.code = Some(code(vec![0x03, 0xac]));
    let expected = CodeSerde {
        max_stack: 2,
        max_locals: 3,
        args_size: 3,
        codes: vec!["   0: iconst_0".to_string(), "   1: ireturn".to_string()],
        enable_verbose: false,
    };
    assert_eq!(Translator::new(&cf, &m.build()).code(), Ok(expected.clone()));
    m.acc_flags = 0x0009;
    assert_eq!(Translator::new(&cf, &m.build()).code(), Ok(CodeSerde { args_size: 2, ..expected }));
    m.desc_index = 18;
    assert_eq!(Translator::new(&cf, &m.build()).code(), Err(TranslateError::BadDescriptor));
    m.desc_index = 2;
    assert_eq!(Translator::new(&cf, &m.build()).code(), Err(TranslateError::BadConstant));
}

#[test]
fn a_whole_method() {
    let cf = class_file();
    let mut m = method(0x0009, 3, 4);
    let mut c = code(vec![0xb1]);
    c.line_numbers = vec![LineNumber { start_pc: 0, number: 3 }, LineNumber { start_pc: 8, number: 4 }];
    c.exceptions = vec![CodeException { start_pc: 0, end_pc: 1, handler_pc: 1, catch_type: 11 }];
    c.local_variables =
        Some(vec![LocalVariable { start_pc: 0, length: 1, name_index: 12, signature_index: 13, index: 0 }]);
    c.stack_map_table = Some(vec![StackMapFrame::Same { tag: 1, offset_delta: 1 }]);
    m.code = Some(c);
    m.throws = Some(vec![11]);
    let mi = m.build();
    let t = Translator::new(&cf, &mi);
    let full = t.get(true, true).unwrap();
    assert_eq!(
        full,
        MethodTranslation {
            desc: "public static void main(java.lang.String[]) throws java.lang.Exception;".to_string(),
            line_num_table: vec![LineNumber { start_pc: 0, number: 3 }, LineNumber { start_pc: 8, number: 4 }],
            code: CodeSerde {
                max_stack: 2,
                max_locals: 3,
                args_size: 1,
                codes: vec!["   0: return".to_string()],
                enable_verbose: false,
            },
            signature: "([Ljava/lang/String;)V".to_string(),
            flags: "ACC_PUBLIC, ACC_STATIC".to_string(),
            throws: "java.lang.Exception".to_string(),
            ex_table: vec![
                "from    to  target type".to_string(),
                "    0     1     1   Class java/lang/Exception".to_string(),
            ],
            stack_map_table: vec![frame(1, "/* same */", &["offset_delta = 1"])],
            local_variable_table: vec![
                "Start  Length  Slot   Name  Signature".to_string(),
                "    0       1     0   args  [Ljava/lang/String;".to_string(),
            ],
        }
    );
    let bare = t.get(false, false).unwrap();
    assert_eq!(bare.line_num_table, vec![]);
    assert_eq!(bare.code, CodeSerde::default());
    assert_eq!(MethodTranslation { line_num_table: full.line_num_table.clone(), code: full.code.clone(), ..bare }, full);
    assert_eq!(m.build().get_line_number_table(), full.line_num_table);
}

#[test]
fn a_method_without_throws_has_an_empty_throws_text() {
    let cf = class_file();
    let m = method(0x0404, 3, 6);
    let t = Translator::new(&cf, &m.build()).get(true, true).unwrap();
    assert_eq!(t.desc, "protected abstract void main();");
    assert_eq!(t.throws, "");
    assert_eq!(t.flags, "ACC_PROTECTED, ACC_ABSTRACT");
    assert_eq!(t.code, CodeSerde::default());
    assert!(t.line_num_table.is_empty() && t.ex_table.is_empty());
    assert!(t.stack_map_table.is_empty() && t.local_variable_table.is_empty());
}

#[test]
fn the_first_part_that_cannot_be_told_decides_the_error() {
    let cf = class_file();
    let mut m = method(1, 3, 18);
    m.throws = Some(vec![1]);
    assert_eq!(Translator::new(&cf, &m.build()).get(true, true), Err(TranslateError::BadDescriptor));
    m.desc_index = 6;
    assert_eq!(Translator::new(&cf, &m.build()).get(true, true), Err(TranslateError::BadConstant));
    m.throws = None;
    let mut c = code(vec![0xb1]);
    c.exceptions = vec![CodeException { start_pc: 0, end_pc: 1, handler_pc: 1, catch_type: 1 }];
    m.code = Some(c);
    assert_eq!(Translator::new(&cf, &m.build()).get(false, false), Err(TranslateError::BadConstant));
    let mut init = method(1, 7, 18);
    init.code = Some(code(vec![0xb1]));
    assert_eq!(Translator::new(&cf, &init.build()).get(false, true), Err(TranslateError::BadDescriptor));
    assert_eq!(Translator::new(&cf, &init.build()).get(false, false).map(|t| t.desc), Ok("static {};".to_string()));
}

#[test]
fn names_that_are_not_utf8_get_replacement_characters() {
    let mut cf = class_file();
    cf.cp[1] = Type::Utf8 { bytes: vec![b'H', 0xc0, b'i'] };
    cf.cp[3] = Type::Utf8 { bytes: vec![0xe2, 0x82, 0xac, 0xff] };
    let m = method(1, 5, 6);
    assert_eq!(Translator::new(&cf, &m.build()).build_desc(), Ok("public H\u{fffd}i();".to_string()));
    let m = method(0, 3, 6);
    assert_eq!(Translator::new(&cf, &m.build()).build_desc(), Ok("void \u{20ac}\u{fffd}();".to_string()));
}

#[test]
fn a_row_of_an_exception_table_from_the_decoded_name() {
    let ex = CodeException { start_pc: 0, end_pc: 12, handler_pc: 15, catch_type: 9 };
    assert_eq!(ex_table_line(&ex, Some("java/io/IOException")), "    0    12    15   Class java/io/IOException");
    assert_eq!(ex_table_line(&ex, Some("")), "    0    12    15   Class ");
    assert_eq!(ex_table_line(&ex, Some("a\u{fffd}b")), "    0    12    15   Class a\u{fffd}b");
    assert_eq!(ex_table_line(&ex, None), "    0    12    15   any");
    let wide = CodeException { start_pc: 65535, end_pc: 65535, handler_pc: 65535, catch_type: 0 };
    assert_eq!(ex_table_line(&wide, None), "65535 65535 65535   any");
    assert_eq!(ex_table_line(&wide, Some("X")), "65535 65535 65535   Class X");
}

#[test]
fn a_row_of_a_local_variable_table_from_the_decoded_texts() {
    let v = LocalVariable { start_pc: 0, length: 9, name_index: 12, signature_index: 13, index: 0 };
    assert_eq!(
        local_variable_line(&v, "args", "[Ljava/lang/String;"),
        "    0       9     0   args  [Ljava/lang/String;"
    );
    // a name of more than five characters takes the room that it needs
    assert_eq!(local_variable_line(&v, "counter", "I"), "    0       9     0  counter  I");
    assert_eq!(local_variable_line(&v, "", ""), "    0       9     0         ");
    // the column is counted in characters, not in bytes
    assert_eq!(local_variable_line(&v, "\u{20ac}", "J"), "    0       9     0      \u{20ac}  J");
    let wide = LocalVariable { start_pc: 65535, length: 65535, name_index: 1, signature_index: 1, index: 65535 };
    assert_eq!(local_variable_line(&wide, "i", "I"), "65535   65535  65535      i  I");
}

#[test]
fn the_name_of_a_verification_type_from_the_decoded_name_of_its_class() {
    let object = VerificationTypeInfo::Object { cpool_index: 2 };
    assert_eq!(verification_type_word(&object, "Hello"), "class \"Hello\"");
    assert_eq!(verification_type_word(&object, ""), "class \"\"");
    assert_eq!(verification_type_word(&object, "a\"b"), "class \"a\"b\"");
    let fixed = [
        (VerificationTypeInfo::Top, "top"),
        (VerificationTypeInfo::Integer, "int"),
        (VerificationTypeInfo::Float, "float"),
        (VerificationTypeInfo::Long, "long"),
        (VerificationTypeInfo::Double, "double"),
        (VerificationTypeInfo::Null, "null"),
        (VerificationTypeInfo::UninitializedThis, "UninitializedThis"),
        (VerificationTypeInfo::Uninitialized { offset: 7 }, "Uninitialized"),
    ];
    for (info, word) in fixed {
        assert_eq!(verification_type_word(&info, "Hello"), word);
        assert_eq!(verification_type_word(&info, ""), word);
    }
}

#[test]
fn the_head_of_a_constructor_from_the_decoded_name_of_its_class() {
    assert_eq!(constructor_head("public".to_string(), "Hello"), "public Hello()");
    assert_eq!(constructor_head("private static".to_string(), "a/b/C"), "private static a/b/C()");
    // without modifiers the space stays, and nothing is escaped
    assert_eq!(constructor_head(String::new(), "A<B>"), " A<B>()");
    assert_eq!(constructor_head("protected".to_string(), ""), "protected ()");
}
