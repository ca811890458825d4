use jvm::classfile::attributes::{
    AttributeType, Code, CodeAttribute, CodeException, LineNumber, LocalVariable, StackMapFrame,
    VerificationTypeInfo,
};
use jvm::classfile::codec::class::{class_is_sound, parse_class, serialize_class};
use jvm::classfile::codec::constant_pool::{parse_pool, pool_is_sound, serialize_pool};
use jvm::classfile::constant_pool::Type;
use jvm::classfile::{ClassFile, FieldInfo, MethodInfo, RawAttribute};
use jvm::trans::method::Translator;

fn utf8(s: &str) -> Type {
    Type::Utf8 { bytes: s.as_bytes().to_vec() }
}

fn u16be(out: &mut Vec<u8>, v: u16) {
    out.extend(v.to_be_bytes());
}

fn u32be(out: &mut Vec<u8>, v: u32) {
    out.extend(v.to_be_bytes());
}

fn utf8_bytes(out: &mut Vec<u8>, s: &str) {
    out.push(1);
    u16be(out, s.len() as u16);
    out.extend(s.as_bytes());
}

fn hello_bytes() -> Vec<u8> {
    let mut b = vec![0xca, 0xfe, 0xba, 0xbe];
    u16be(&mut b, 0);
    u16be(&mut b, 52);
    u16be(&mut b, 12);
    utf8_bytes(&mut b, "Hello");
    b.extend([7, 0, 1]);
    utf8_bytes(&mut b, "java/lang/Object");
    b.extend([7, 0, 3]);
    utf8_bytes(&mut b, "main");
    utf8_bytes(&mut b, "([Ljava/lang/String;)V");
    utf8_bytes(&mut b, "Code");
    utf8_bytes(&mut b, "LineNumberTable");
    b.extend([5, 1, 2, 3, 4, 5, 6, 7, 8]);
    utf8_bytes(&mut b, "Exceptions");
    u16be(&mut b, 0x0021);
    u16be(&mut b, 2);
    u16be(&mut b, 4);
    u16be(&mut b, 0);
    u16be(&mut b, 0);
    u16be(&mut b, 1);
    u16be(&mut b, 0x0009);
    u16be(&mut b, 5);
    u16be(&mut b, 6);
    u16be(&mut b, 2);
    u16be(&mut b, 7);
    u32be(&mut b, 25);
    u16be(&mut b, 0);
    u16be(&mut b, 1);
    u32be(&mut b, 1);
    b.push(0xb1);
    u16be(&mut b, 0);
    u16be(&mut b, 1);
    u16be(&mut b, 8);
    u32be(&mut b, 6);
    u16be(&mut b, 1);
    u16be(&mut b, 0);
    u16be(&mut b, 3);
    u16be(&mut b, 11);
    u32be(&mut b, 4);
    u16be(&mut b, 1);
    u16be(&mut b, 4);
    u16be(&mut b, 0);
    b
}

fn hello() -> ClassFile {
    ClassFile {
        minor_version: 0,
        major_version: 52,
        cp: vec![
            Type::Nop,
            utf8("Hello"),
            Type::Class { name_index: 1 },
            utf8("java/lang/Object"),
            Type::Class { name_index: 3 },
            utf8("main"),
            utf8("([Ljava/lang/String;)V"),
            utf8("Code"),
            utf8("LineNumberTable"),
            Type::Long { v: [1, 2, 3, 4, 5, 6, 7, 8] },
            Type::Nop,
            utf8("Exceptions"),
        ],
        acc_flags: 0x0021,
        this_class: 2,
        super_class: 4,
        interfaces: vec![],
        fields: vec![],
        methods: vec![MethodInfo {
            acc_flags: 0x0009,
            name_index: 5,
            desc_index: 6,
            attrs: vec![
                AttributeType::Code {
                    name_index: 7,
                    code: Code {
                        max_stack: 0,
                        max_locals: 1,
                        code: vec![0xb1],
                        exceptions: vec![],
                        attrs: vec![CodeAttribute::LineNumberTable {
                            name_index: 8,
                            tables: vec![LineNumber { start_pc: 0, number: 3 }],
                        }],
                    },
                },
                AttributeType::Exceptions { name_index: 11, exceptions: vec![4] },
            ],
        }],
        attrs: vec![],
    }
}

#[test]
fn a_class_file_is_parsed_from_its_bytes() {
    assert_eq!(parse_class(&hello_bytes()), Some(hello()));
}

#[test]
fn a_class_file_is_written_as_its_bytes() {
    assert!(class_is_sound(&hello()));
    assert_eq!(serialize_class(&hello()), Some(hello_bytes()));
}

#[test]
fn a_parsed_method_can_be_told() {
    let cf = parse_class(&hello_bytes()).unwrap();
    let t = Translator::new(&cf, &cf.methods[0]).get(true, true).unwrap();
    assert_eq!(t.desc, "public static void main(java.lang.String[]) throws java.lang.Object;");
    assert_eq!(t.line_num_table, vec![LineNumber { start_pc: 0, number: 3 }]);
    assert_eq!(t.code.codes, vec!["   0: return"]);
    assert_eq!(t.code.args_size, 1);
}

fn rich() -> ClassFile {
    let mut c = hello();
    c.cp.extend([
        utf8("StackMapTable"),
        utf8("LocalVariableTable"),
        utf8("Deprecated"),
        Type::Double { v: [0x40, 0, 0, 0, 0, 0, 0, 1] },
        Type::Nop,
        Type::Integer { v: [0xff, 0xfe, 0xfd, 0xfc] },
        Type::Float { v: [1, 2, 3, 4] },
        Type::String { string_index: 1 },
        Type::FieldRef { class_index: 2, name_and_type_index: 23 },
        Type::MethodRef { class_index: 4, name_and_type_index: 23 },
        Type::InterfaceMethodRef { class_index: 4, name_and_type_index: 23 },
        Type::NameAndType { name_index: 5, desc_index: 6 },
        Type::MethodHandle { ref_kind: 6, ref_index: 21 },
        Type::MethodType { desc_index: 6 },
        Type::InvokeDynamic { bootstrap_method_attr_index: 0, name_and_type_index: 23 },
        utf8(""),
    ]);
    c.interfaces = vec![4, 2];
    c.fields = vec![
        FieldInfo { acc_flags: 2, name_index: 5, desc_index: 6, attrs: vec![] },
        FieldInfo {
            acc_flags: 0x19,
            name_index: 1,
            desc_index: 3,
            attrs: vec![
                RawAttribute { name_index: 14, info: vec![] },
                RawAttribute { name_index: 7, info: vec![9, 9, 9] },
            ],
        },
    ];
    c.attrs = vec![RawAttribute { name_index: 14, info: vec![1] }];
    let all_types = vec![
        VerificationTypeInfo::Top,
        VerificationTypeInfo::Integer,
        VerificationTypeInfo::Float,
        VerificationTypeInfo::Double,
        VerificationTypeInfo::Long,
        VerificationTypeInfo::Null,
        VerificationTypeInfo::UninitializedThis,
        VerificationTypeInfo::Object { cpool_index: 2 },
        VerificationTypeInfo::Uninitialized { offset: 513 },
    ];
    let code = Code {
        max_stack: 65535,
        max_locals: 3,
        code: vec![0x03, 0x3c, 0x84, 0x01, 0x01, 0xb1],
        exceptions: vec![
            CodeException { start_pc: 0, end_pc: 5, handler_pc: 5, catch_type: 4 },
            CodeException { start_pc: 1, end_pc: 2, handler_pc: 3, catch_type: 0 },
        ],
        attrs: vec![
            CodeAttribute::StackMapTable {
                name_index: 12,
                entries: vec![
                    StackMapFrame::Same { tag: 0, offset_delta: 0 },
                    StackMapFrame::Same { tag: 63, offset_delta: 63 },
                    StackMapFrame::SameLocals1StackItem {
                        tag: 64,
                        offset_delta: 0,
                        stack: VerificationTypeInfo::Object { cpool_index: 4 },
                    },
                    StackMapFrame::SameLocals1StackItem {
                        tag: 127,
                        offset_delta: 63,
                        stack: VerificationTypeInfo::Integer,
                    },
                    StackMapFrame::Reserved(128),
                    StackMapFrame::Reserved(246),
                    StackMapFrame::SameLocals1StackItemExtended {
                        tag: 247,
                        offset_delta: 1000,
                        stack: VerificationTypeInfo::Uninitialized { offset: 7 },
                    },
                    StackMapFrame::Chop { tag: 248, offset_delta: 1 },
                    StackMapFrame::Chop { tag: 250, offset_delta: 65535 },
                    StackMapFrame::SameExtended { tag: 251, offset_delta: 300 },
                    StackMapFrame::Append {
                        tag: 252,
                        offset_delta: 2,
                        locals: vec![VerificationTypeInfo::Long],
                    },
                    StackMapFrame::Append {
                        tag: 254,
                        offset_delta: 2,
                        locals: vec![
                            VerificationTypeInfo::Null,
                            VerificationTypeInfo::Object { cpool_index: 2 },
                            VerificationTypeInfo::Top,
                        ],
                    },
                    StackMapFrame::Full { tag: 255, offset_delta: 9, locals: all_types.clone(), stack: vec![] },
                    StackMapFrame::Full { tag: 255, offset_delta: 0, locals: vec![], stack: all_types },
                ],
            },
            CodeAttribute::LocalVariableTable {
                name_index: 13,
                tables: vec![LocalVariable {
                    start_pc: 1,
                    length: 2,
                    name_index: 3,
                    signature_index: 4,
                    index: 5,
                }],
            },
            CodeAttribute::LineNumberTable { name_index: 8, tables: vec![] },
            CodeAttribute::Unknown { name_index: 14, info: vec![1, 2, 3, 4, 5] },
            CodeAttribute::Unknown { name_index: 7, info: vec![] },
            CodeAttribute::Unknown { name_index: 999, info: vec![0] },
            CodeAttribute::Unknown { name_index: 2, info: vec![] },
        ],
    };
    c.methods.push(MethodInfo {
        acc_flags: 0,
        name_index: 1,
        desc_index: 6,
        attrs: vec![
            AttributeType::Unknown { name_index: 8, info: vec![7; 300] },
            AttributeType::Exceptions { name_index: 11, exceptions: vec![] },
            AttributeType::Code { name_index: 7, code },
            AttributeType::Unknown { name_index: 0, info: vec![] },
        ],
    });
    c
}

#[test]
fn every_kind_of_part_survives_writing_and_parsing() {
    let c = rich();
    assert!(class_is_sound(&c));
    let bytes = serialize_class(&c).unwrap();
    assert_eq!(parse_class(&bytes), Some(c));
}

#[test]
fn parse_serialize_parse_gives_the_same_class() {
    for bytes in [hello_bytes(), serialize_class(&rich()).unwrap()] {
        let first = parse_class(&bytes).unwrap();
        let written = serialize_class(&first).unwrap();
        let second = parse_class(&written).unwrap();
        assert_eq!(first.cp, second.cp);
        assert_eq!(first.methods, second.methods);
        assert_eq!(first, second);
        assert_eq!(written, bytes);
    }
}

#[test]
fn a_method_is_told_alike_after_parse_serialize_parse() {
    let mut told = 0;
    for bytes in [hello_bytes(), serialize_class(&rich()).unwrap()] {
        let first = parse_class(&bytes).unwrap();
        let second = parse_class(&serialize_class(&first).unwrap()).unwrap();
        assert_eq!(first.methods.len(), second.methods.len());
        for i in 0..first.methods.len() {
            for (with_line_num, with_code) in [(true, true), (false, true), (true, false), (false, false)] {
                let a = Translator::new(&first, &first.methods[i]).get(with_line_num, with_code);
                let b = Translator::new(&second, &second.methods[i]).get(with_line_num, with_code);
                assert_eq!(a, b);
                if let Ok(t) = a {
                    told += 1;
                    assert!(t.desc.ends_with(';'));
                }
            }
        }
    }
    assert!(told >= 4);
}

#[test]
fn bytes_that_are_no_class_file_are_refused() {
    let good = hello_bytes();
    assert_eq!(parse_class(&[]), None);
    assert_eq!(parse_class(&good[..good.len() - 1]), None);
    for cut in 0..good.len() {
        assert_eq!(parse_class(&good[..cut]), None, "{}", cut);
    }
    let mut trailing = good.clone();
    trailing.push(0);
    assert_eq!(parse_class(&trailing), None);
    let mut magic = good.clone();
    magic[3] = 0xbf;
    assert_eq!(parse_class(&magic), None);
    let mut tag = good.clone();
    tag[10] = 2;
    assert_eq!(parse_class(&tag), None);
    let mut count = good.clone();
    count[9] = 0;
    count[8] = 0;
    assert_eq!(parse_class(&count), None);
}

#[test]
fn an_attribute_must_fill_its_length() {
    let mut c = hello();
    let mut bytes = serialize_class(&c).unwrap();
    let at = bytes.len() - 22;
    assert_eq!(&bytes[at - 2..at + 4], &[0, 8, 0, 0, 0, 6]);
    bytes[at + 3] = 5;
    assert_eq!(parse_class(&bytes), None);
    c.methods[0].attrs.pop();
    let mut bytes = serialize_class(&c).unwrap();
    let n = bytes.len();
    assert_eq!(&bytes[n - 8..n - 6], &[0, 1]);
    bytes[n - 7] = 2;
    assert_eq!(parse_class(&bytes), None);
}

#[test]
fn what_cannot_stand_in_a_class_file_is_not_written() {
    let bad = |change: &dyn Fn(&mut ClassFile)| {
        let mut c = rich();
        change(&mut c);
        assert!(!class_is_sound(&c));
        assert_eq!(serialize_class(&c), None);
    };
    bad(&|c| c.cp[0] = utf8("x"));
    bad(&|c| c.cp[3] = Type::Nop);
    bad(&|c| c.cp[3] = Type::Unknown);
    bad(&|c| c.cp[10] = utf8("x"));
    bad(&|c| c.cp.push(Type::Long { v: [0; 8] }));
    bad(&|c| c.cp.clear());
    bad(&|c| c.cp[1] = Type::Utf8 { bytes: vec![b'a'; 65536] });
    bad(&|c| c.methods[0].attrs[0] = AttributeType::Unknown { name_index: 7, info: vec![] });
    bad(&|c| c.methods[0].attrs[1] = AttributeType::Unknown { name_index: 11, info: vec![] });
    bad(&|c| c.methods[0].attrs[1] = AttributeType::Exceptions { name_index: 7, exceptions: vec![] });
    bad(&|c| {
        if let AttributeType::Code { name_index, .. } = &mut c.methods[0].attrs[0] {
            *name_index = 8;
        }
    });
    let frame = |c: &mut ClassFile, f: StackMapFrame| {
        if let AttributeType::Code { code, .. } = &mut c.methods[1].attrs[2] {
            code.attrs[0] = CodeAttribute::StackMapTable { name_index: 12, entries: vec![f] };
        }
    };
    bad(&|c| frame(c, StackMapFrame::Same { tag: 64, offset_delta: 64 }));
    bad(&|c| frame(c, StackMapFrame::Same { tag: 5, offset_delta: 6 }));
    bad(&|c| frame(c, StackMapFrame::Reserved(127)));
    bad(&|c| frame(c, StackMapFrame::Reserved(247)));
    bad(&|c| frame(c, StackMapFrame::Chop { tag: 251, offset_delta: 0 }));
    bad(&|c| frame(c, StackMapFrame::SameExtended { tag: 250, offset_delta: 0 }));
    bad(&|c| frame(c, StackMapFrame::Append { tag: 253, offset_delta: 0, locals: vec![] }));
    bad(&|c| frame(c, StackMapFrame::Full { tag: 254, offset_delta: 0, locals: vec![], stack: vec![] }));
    bad(&|c| {
        frame(
            c,
            StackMapFrame::SameLocals1StackItem { tag: 70, offset_delta: 7, stack: VerificationTypeInfo::Top },
        )
    });
    bad(&|c| {
        if let AttributeType::Code { code, .. } = &mut c.methods[1].attrs[2] {
            code.attrs[3] = CodeAttribute::Unknown { name_index: 8, info: vec![] };
        }
    });
    bad(&|c| c.interfaces = vec![0; 65536]);
}

#[test]
fn a_constant_pool_alone() {
    let cp = rich().cp;
    assert!(pool_is_sound(&cp));
    let bytes = serialize_pool(&cp).unwrap();
    assert_eq!(&bytes[..2], &[0, cp.len() as u8]);
    let mut padded = vec![9, 9, 9];
    padded.extend(&bytes);
    padded.extend([1, 2, 3]);
    assert_eq!(parse_pool(&padded, 3), Some((cp, 3 + bytes.len())));
    assert_eq!(parse_pool(&bytes[..bytes.len() - 1], 0), None);
    assert_eq!(parse_pool(&[0, 1], 0), Some((vec![Type::Nop], 2)));
    assert_eq!(parse_pool(&[0, 0], 0), None);
    assert_eq!(parse_pool(&[0, 2, 5, 0, 0, 0, 0, 0, 0, 0, 0], 0), None);
    assert_eq!(
        parse_pool(&[0, 3, 6, 0, 0, 0, 0, 0, 0, 0, 9], 0),
        Some((vec![Type::Nop, Type::Double { v: [0, 0, 0, 0, 0, 0, 0, 9] }, Type::Nop], 11))
    );
}
