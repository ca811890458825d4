use jvm::class::{new_method_id, FieldId, Handler, MethodRef};
use jvm::classfile::attributes::{AttributeType, Code, CodeException};
use jvm::classfile::codec::class::serialize_class;
use jvm::classfile::constant_pool::Type;
use jvm::classfile::{ClassFile, FieldInfo, MethodInfo};
use jvm::class::InitState;
use jvm::loader::{
    link_class, load_class, load_class_file_step, load_class_step, require_class_step, LinkError,
    LoadError, LoadStep, RequireStep,
};
use jvm::native::Exception;
use jvm::oop::ClassId;
use jvm::runtime::Vm;

fn utf8(s: &str) -> Type {
    Type::Utf8 { bytes: s.as_bytes().to_vec() }
}

fn object() -> ClassFile {
    ClassFile {
        minor_version: 0,
        major_version: 52,
        cp: vec![Type::Nop, utf8("java/lang/Object"), Type::Class { name_index: 1 }],
        acc_flags: 0x21,
        this_class: 2,
        super_class: 0,
        interfaces: vec![],
        fields: vec![],
        methods: vec![],
        attrs: vec![],
    }
}

// 1 Point, 2 class 1, 3 java/lang/Object, 4 class 3, 5 x, 6 I, 7 count, 8 J, 9 move, 10 (II)V,
// 11 Code, 12 java/lang/Exception, 13 class 12, 14 y
fn point() -> ClassFile {
    let field = |acc_flags, name_index, desc_index| FieldInfo { acc_flags, name_index, desc_index, attrs: vec![] };
    ClassFile {
        minor_version: 0,
        major_version: 52,
        cp: vec![
            Type::Nop,
            utf8("Point"),
            Type::Class { name_index: 1 },
            utf8("java/lang/Object"),
            Type::Class { name_index: 3 },
            utf8("x"),
            utf8("I"),
            utf8("count"),
            utf8("J"),
            utf8("move"),
            utf8("(II)V"),
            utf8("Code"),
            utf8("java/lang/Exception"),
            Type::Class { name_index: 12 },
            utf8("y"),
        ],
        acc_flags: 0x21,
        this_class: 2,
        super_class: 4,
        interfaces: vec![],
        fields: vec![field(0x0002, 5, 6), field(0x000a, 7, 8), field(0x0002, 14, 6)],
        methods: vec![
            MethodInfo {
                acc_flags: 0x0001,
                name_index: 9,
                desc_index: 10,
                attrs: vec![AttributeType::Code {
                    name_index: 11,
                    code: Code {
                        max_stack: 3,
                        max_locals: 4,
                        code: vec![0xb1],
                        exceptions: vec![
                            CodeException { start_pc: 0, end_pc: 1, handler_pc: 1, catch_type: 0 },
                            CodeException { start_pc: 0, end_pc: 1, handler_pc: 1, catch_type: 4 },
                        ],
                        attrs: vec![],
                    },
                }],
            },
            MethodInfo { acc_flags: 0x0401, name_index: 5, desc_index: 10, attrs: vec![] },
        ],
        attrs: vec![],
    }
}

#[test]
fn a_class_is_linked_from_its_class_file() {
    let mut vm = Vm::new();
    let o = link_class(&mut vm, &object()).unwrap();
    let p = link_class(&mut vm, &point()).unwrap();
    assert_eq!((o, p), (ClassId { index: 0 }, ClassId { index: 1 }));
    assert_eq!(vm.classes.class_name(p), &b"Point".to_vec());
    assert!(vm.classes.is_subclass_of(p, o));
    assert!(!vm.classes.has_super(o));
    assert_eq!(vm.classes.get_field_id(p, b"x", b"I", false), Some(FieldId { class: p, slot: 0 }));
    assert_eq!(vm.classes.get_field_id(p, b"y", b"I", false), Some(FieldId { class: p, slot: 1 }));
    assert_eq!(vm.classes.get_field_id(p, b"count", b"J", true), Some(FieldId { class: p, slot: 0 }));
    let mv = vm.classes.get_class_method(p, &new_method_id(b"move", b"(II)V")).unwrap();
    assert_eq!(mv, MethodRef { class: p, index: 0 });
    let m = vm.classes.method(mv);
    assert_eq!((m.acc_flags, m.max_stack, m.max_locals), (1, 3, 4));
    assert_eq!(
        m.handlers,
        vec![
            Handler { start_pc: 0, end_pc: 1, handler_pc: 1, catch_type: None },
            Handler { start_pc: 0, end_pc: 1, handler_pc: 1, catch_type: Some(o) },
        ]
    );
    let abstract_method = vm.classes.method(MethodRef { class: p, index: 1 });
    assert_eq!((abstract_method.max_stack, abstract_method.max_locals), (0, 0));
    assert!(abstract_method.handlers.is_empty());
    assert_eq!(abstract_method.name, b"x".to_vec());
}

#[test]
fn a_class_whose_superclass_is_not_loaded_is_not_linked() {
    let mut vm = Vm::new();
    assert_eq!(link_class(&mut vm, &point()), Err(LinkError::MissingClass(4)));
    assert_eq!(vm.classes.len(), 0);
    link_class(&mut vm, &object()).unwrap();
    let mut catches = point();
    if let AttributeType::Code { code, .. } = &mut catches.methods[0].attrs[0] {
        code.exceptions.push(CodeException { start_pc: 0, end_pc: 1, handler_pc: 1, catch_type: 13 });
    }
    assert_eq!(link_class(&mut vm, &catches), Err(LinkError::MissingClass(13)));
    assert_eq!(vm.classes.len(), 1);
}

#[test]
fn a_class_file_with_wrong_constants_is_not_linked() {
    let bad = |change: &dyn Fn(&mut ClassFile)| {
        let mut vm = Vm::new();
        link_class(&mut vm, &object()).unwrap();
        let mut c = point();
        change(&mut c);
        assert_eq!(link_class(&mut vm, &c), Err(LinkError::BadConstant));
        assert_eq!(vm.classes.len(), 1);
    };
    bad(&|c| c.this_class = 1);
    bad(&|c| c.this_class = 99);
    bad(&|c| c.super_class = 3);
    bad(&|c| c.fields[2].name_index = 2);
    bad(&|c| c.fields[0].desc_index = 0);
    bad(&|c| c.methods[1].name_index = 4);
    bad(&|c| c.methods[0].desc_index = 100);
    bad(&|c| {
        if let AttributeType::Code { code, .. } = &mut c.methods[0].attrs[0] {
            code.exceptions[1].catch_type = 3;
        }
    });
}

#[test]
fn the_first_failure_decides() {
    let mut vm = Vm::new();
    let mut c = point();
    c.fields[0].name_index = 0;
    assert_eq!(link_class(&mut vm, &c), Err(LinkError::MissingClass(4)));
    link_class(&mut vm, &object()).unwrap();
    assert_eq!(link_class(&mut vm, &c), Err(LinkError::BadConstant));
    let mut c = point();
    c.methods[1].name_index = 0;
    if let AttributeType::Code { code, .. } = &mut c.methods[0].attrs[0] {
        code.exceptions[0].catch_type = 13;
    }
    assert_eq!(link_class(&mut vm, &c), Err(LinkError::MissingClass(13)));
}

#[test]
fn loading_parses_links_and_remembers() {
    let mut vm = Vm::new();
    let object_bytes = serialize_class(&object()).unwrap();
    let point_bytes = serialize_class(&point()).unwrap();
    assert_eq!(load_class(&mut vm, &point_bytes), Err(LoadError::Link(LinkError::MissingClass(4))));
    assert_eq!(load_class(&mut vm, &point_bytes[1..]), Err(LoadError::Malformed));
    assert_eq!(load_class(&mut vm, &[]), Err(LoadError::Malformed));
    assert_eq!(vm.classes.len(), 0);
    let o = load_class(&mut vm, &object_bytes).unwrap();
    let p = load_class(&mut vm, &point_bytes).unwrap();
    assert_eq!(vm.classes.len(), 2);
    assert_eq!(load_class(&mut vm, &point_bytes), Ok(p));
    assert_eq!(load_class(&mut vm, &object_bytes), Ok(o));
    assert_eq!(vm.classes.len(), 2);
    assert_eq!(vm.classes.find_class(b"Point"), Some(p));
    let mut nameless = point();
    nameless.this_class = 0;
    let bytes = serialize_class(&nameless).unwrap();
    assert_eq!(load_class(&mut vm, &bytes), Err(LoadError::Link(LinkError::BadConstant)));
    let inst = vm.new_inst(p);
    assert_eq!(vm.heap.slot_count(inst), 2);
}

#[test]
fn the_interfaces_of_a_class_file_are_resolved() {
    let mut vm = Vm::new();
    let o = link_class(&mut vm, &object()).unwrap();
    let mut face = object();
    face.cp[1] = utf8("Face");
    face.cp.push(utf8("java/lang/Object"));
    face.cp.push(Type::Class { name_index: 3 });
    face.super_class = 4;
    let f = link_class(&mut vm, &face).unwrap();
    let mut p = point();
    p.cp.push(utf8("Face"));
    p.cp.push(Type::Class { name_index: 15 });
    p.cp.push(utf8("Missing"));
    p.cp.push(Type::Class { name_index: 17 });
    p.interfaces = vec![16, 18];
    assert_eq!(link_class(&mut vm, &p), Err(LinkError::MissingClass(18)));
    p.interfaces = vec![16, 15];
    assert_eq!(link_class(&mut vm, &p), Err(LinkError::BadConstant));
    p.interfaces = vec![16];
    let id = link_class(&mut vm, &p).unwrap();
    assert!(vm.classes.is_assignable(id, f));
    assert!(vm.classes.is_assignable(id, o));
    assert!(!vm.classes.is_subclass_of(id, f));
}

#[test]
fn a_step_of_loading_names_the_class_that_is_missing() {
    let mut vm = Vm::new();
    let object_bytes = serialize_class(&object()).unwrap();
    let point_bytes = serialize_class(&point()).unwrap();
    let none: Vec<Vec<u8>> = vec![];
    assert_eq!(load_class_step(&mut vm, b"Point", &point_bytes, &none), LoadStep::Needs(b"java/lang/Object".to_vec()));
    assert_eq!(vm.classes.len(), 0);
    assert_eq!(load_class_step(&mut vm, b"java/lang/Object", &object_bytes, &vec![b"Point".to_vec()]), LoadStep::Loaded(ClassId { index: 0 }));
    // the handler's class is asked for next, by its own name
    let mut c = point();
    if let AttributeType::Code { code, .. } = &mut c.methods[0].attrs[0] {
        code.exceptions[1].catch_type = 13;
    }
    assert_eq!(load_class_file_step(&mut vm, &c, &none), LoadStep::Needs(b"java/lang/Exception".to_vec()));
    assert_eq!(vm.classes.len(), 1);
    let p = ClassId { index: 1 };
    assert_eq!(load_class_step(&mut vm, b"Point", &point_bytes, &none), LoadStep::Loaded(p));
    assert_eq!(load_class_step(&mut vm, b"Point", &point_bytes, &vec![b"Point".to_vec()]), LoadStep::Loaded(p));
    assert_eq!(vm.classes.find_class(b"Point"), Some(p));
    assert_eq!(vm.classes.len(), 2);
}

#[test]
fn a_step_of_loading_finds_a_circle() {
    let mut vm = Vm::new();
    let point_bytes = serialize_class(&point()).unwrap();
    let waiting = vec![b"Line".to_vec(), b"java/lang/Object".to_vec()];
    assert_eq!(load_class_step(&mut vm, b"Point", &point_bytes, &waiting), LoadStep::Circular);
    assert_eq!(
        load_class_step(&mut vm, b"Point", &point_bytes, &vec![b"Line".to_vec(), b"java/lang/Objec".to_vec()]),
        LoadStep::Needs(b"java/lang/Object".to_vec())
    );
    // a class that is its own superclass
    let mut c = point();
    c.super_class = 2;
    assert_eq!(load_class_file_step(&mut vm, &c, &vec![]), LoadStep::Circular);
    assert_eq!(vm.classes.len(), 0);
}

#[test]
fn a_step_of_loading_fails_as_loading_does() {
    let mut vm = Vm::new();
    let point_bytes = serialize_class(&point()).unwrap();
    let none: Vec<Vec<u8>> = vec![];
    assert_eq!(load_class_step(&mut vm, b"Point", &point_bytes[1..], &none), LoadStep::Failed(LoadError::Malformed));
    assert_eq!(load_class_step(&mut vm, b"Point", &[], &none), LoadStep::Failed(LoadError::Malformed));
    let mut nameless = point();
    nameless.this_class = 0;
    assert_eq!(
        load_class_file_step(&mut vm, &nameless, &none),
        LoadStep::Failed(LoadError::Link(LinkError::BadConstant))
    );
    link_class(&mut vm, &object()).unwrap();
    let mut c = point();
    c.fields[0].name_index = 0;
    assert_eq!(load_class_file_step(&mut vm, &c, &none), LoadStep::Failed(LoadError::Link(LinkError::BadConstant)));
    assert_eq!(vm.classes.len(), 1);
}

#[test]
fn a_class_that_is_required_is_loaded_and_initialized_once() {
    let mut vm = Vm::new();
    assert_eq!(require_class_step(&mut vm, b"java/lang/Object", 1), RequireStep::Load);
    assert_eq!(vm.classes.len(), 0);
    let o = load_class(&mut vm, &serialize_class(&object()).unwrap()).unwrap();
    assert_eq!(require_class_step(&mut vm, b"Point", 1), RequireStep::Load);
    assert_eq!(vm.classes.init_state(o), InitState::Loaded);
    assert_eq!(require_class_step(&mut vm, b"java/lang/Object", 1), RequireStep::Initialize(o));
    assert_eq!(vm.classes.init_state(o), InitState::BeingInitialized(1));
    assert_eq!(require_class_step(&mut vm, b"java/lang/Object", 2), RequireStep::Wait(o));
    assert_eq!(require_class_step(&mut vm, b"java/lang/Object", 3), RequireStep::Wait(o));
    assert_eq!(require_class_step(&mut vm, b"java/lang/Object", 1), RequireStep::Ready(o));
    assert_eq!(vm.classes.init_state(o), InitState::BeingInitialized(1));
    vm.finish_initialization(o, 1, true);
    for thread in 1..4 {
        assert_eq!(require_class_step(&mut vm, b"java/lang/Object", thread), RequireStep::Ready(o));
    }
    assert_eq!(vm.classes.init_state(o), InitState::Initialized);
    assert_eq!(vm.classes.len(), 1);
}

#[test]
fn a_class_whose_initializer_failed_cannot_be_required() {
    let mut vm = Vm::new();
    let o = load_class(&mut vm, &serialize_class(&object()).unwrap()).unwrap();
    let p = load_class(&mut vm, &serialize_class(&point()).unwrap()).unwrap();
    assert_eq!(require_class_step(&mut vm, b"Point", 5), RequireStep::Initialize(p));
    vm.finish_initialization(p, 5, false);
    for thread in [5, 6] {
        assert_eq!(
            require_class_step(&mut vm, b"Point", thread),
            RequireStep::Fail(Exception::NoClassDefFoundError)
        );
    }
    assert_eq!(vm.classes.init_state(p), InitState::Errored);
    assert_eq!(vm.classes.init_state(o), InitState::Loaded);
    assert_eq!(require_class_step(&mut vm, b"Poin", 5), RequireStep::Load);
}

#[test]
fn a_class_file_of_another_name_is_refused() {
    let mut vm = Vm::new();
    let object_bytes = serialize_class(&object()).unwrap();
    let point_bytes = serialize_class(&point()).unwrap();
    let none: Vec<Vec<u8>> = vec![];
    assert_eq!(load_class_step(&mut vm, b"Point", &object_bytes, &none), LoadStep::Misnamed);
    assert_eq!(load_class_step(&mut vm, b"java/lang/Objec", &object_bytes, &none), LoadStep::Misnamed);
    assert_eq!(vm.classes.len(), 0);
    assert_eq!(
        load_class_step(&mut vm, b"java/lang/Object", &object_bytes, &none),
        LoadStep::Loaded(ClassId { index: 0 })
    );
    // also where the class of the file is loaded already
    assert_eq!(load_class_step(&mut vm, b"Point", &object_bytes, &none), LoadStep::Misnamed);
    assert_eq!(load_class_step(&mut vm, b"Object", &point_bytes, &none), LoadStep::Misnamed);
    // a class file without a name of its own fails as it does when it is loaded
    let mut nameless = point();
    nameless.this_class = 0;
    let bytes = serialize_class(&nameless).unwrap();
    assert_eq!(
        load_class_step(&mut vm, b"Point", &bytes, &none),
        LoadStep::Failed(LoadError::Link(LinkError::BadConstant))
    );
    assert_eq!(vm.classes.len(), 1);
}
