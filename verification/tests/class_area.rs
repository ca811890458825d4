use jvm::class::{
    new_method_id, FieldDecl, FieldId, Handler, InitAction, InitState, Method, MethodRef,
};
use jvm::native::sun_misc_Unsafe::jvm_objectFieldOffset;
use jvm::native::JNIEnv;
use jvm::oop::{ClassId, Oop, OopRef};
use jvm::runtime::Vm;

fn field(name: &str, desc: &str, is_static: bool) -> FieldDecl {
    FieldDecl { name: name.as_bytes().to_vec(), desc: desc.as_bytes().to_vec(), is_static }
}

fn method(name: &str, desc: &str) -> Method {
    Method {
        name: name.as_bytes().to_vec(),
        desc: desc.as_bytes().to_vec(),
        acc_flags: 1,
        max_stack: 2,
        max_locals: 2,
        handlers: vec![],
    }
}

fn animals(vm: &mut Vm) -> (ClassId, ClassId) {
    let animal = vm.define_class(
        b"Animal".to_vec(),
        None,
        vec![
            field("count", "I", true),
            field("name", "Ljava/lang/String;", false),
            field("age", "J", false),
            field("registry", "Ljava/lang/Object;", true),
        ],
        vec![method("speak", "()V"), method("age", "()J")],
    );
    let dog = vm.define_class(
        b"Dog".to_vec(),
        Some(animal),
        vec![field("tricks", "I", false), field("kennel", "D", true), field("weight", "F", false)],
        vec![method("speak", "()V"), method("fetch", "()V")],
    );
    (animal, dog)
}

#[test]
fn instance_slots_follow_declaration_order_after_inherited_ones() {
    let mut vm = Vm::new();
    let (animal, dog) = animals(&mut vm);
    let slot = |vm: &Vm, c, n: &str, d: &str| vm.classes.get_field_id(c, n.as_bytes(), d.as_bytes(), false);
    assert_eq!(slot(&vm, animal, "name", "Ljava/lang/String;"), Some(FieldId { class: animal, slot: 0 }));
    assert_eq!(slot(&vm, animal, "age", "J"), Some(FieldId { class: animal, slot: 1 }));
    assert_eq!(slot(&vm, dog, "tricks", "I"), Some(FieldId { class: dog, slot: 2 }));
    assert_eq!(slot(&vm, dog, "weight", "F"), Some(FieldId { class: dog, slot: 3 }));
    assert_eq!(vm.classes.instance_slot_count(animal), 2);
    assert_eq!(vm.classes.instance_slot_count(dog), 4);
    assert_eq!(vm.classes.slot_descriptor(dog, 1), &b"J".to_vec());
    assert_eq!(vm.classes.slot_descriptor(dog, 3), &b"F".to_vec());
}

#[test]
fn static_slots_are_counted_on_their_own() {
    let mut vm = Vm::new();
    let (animal, dog) = animals(&mut vm);
    let slot = |vm: &Vm, c, n: &str, d: &str| vm.classes.get_field_id(c, n.as_bytes(), d.as_bytes(), true);
    assert_eq!(slot(&vm, animal, "count", "I"), Some(FieldId { class: animal, slot: 0 }));
    assert_eq!(slot(&vm, animal, "registry", "Ljava/lang/Object;"), Some(FieldId { class: animal, slot: 1 }));
    assert_eq!(slot(&vm, dog, "kennel", "D"), Some(FieldId { class: dog, slot: 0 }));
    assert_eq!(vm.classes.static_slot_count(animal), 2);
    assert_eq!(vm.classes.static_slot_count(dog), 1);
}

#[test]
fn field_lookup_walks_the_superclasses() {
    let mut vm = Vm::new();
    let (animal, dog) = animals(&mut vm);
    assert_eq!(
        vm.classes.get_field_id(dog, b"age", b"J", false),
        Some(FieldId { class: animal, slot: 1 })
    );
    assert_eq!(
        vm.classes.get_field_id(dog, b"count", b"I", true),
        Some(FieldId { class: animal, slot: 0 })
    );
    assert_eq!(vm.classes.get_field_id(animal, b"tricks", b"I", false), None);
    assert_eq!(vm.classes.get_field_id(dog, b"age", b"I", false), None);
    assert_eq!(vm.classes.get_field_id(dog, b"age", b"J", true), None);
}

#[test]
fn slots_do_not_change_when_more_classes_are_defined() {
    let mut vm = Vm::new();
    let (animal, dog) = animals(&mut vm);
    let before = vm.classes.get_field_id(dog, b"weight", b"F", false);
    let heap_before = vm.heap.len();
    for i in 0..10u8 {
        vm.define_class(vec![b'C', i], Some(dog), vec![field("x", "I", false)], vec![]);
    }
    assert_eq!(vm.classes.get_field_id(dog, b"weight", b"F", false), before);
    assert_eq!(vm.classes.get_field_id(animal, b"name", b"Ljava/lang/String;", false), Some(FieldId { class: animal, slot: 0 }));
    assert_eq!(vm.heap.len(), heap_before);
    assert_eq!(vm.classes.len(), 12);
}

#[test]
fn static_fields_start_with_defaults_and_can_be_put() {
    let mut vm = Vm::new();
    let (animal, dog) = animals(&mut vm);
    let count = vm.classes.get_field_id(animal, b"count", b"I", true).unwrap();
    let registry = vm.classes.get_field_id(animal, b"registry", b"Ljava/lang/Object;", true).unwrap();
    let kennel = vm.classes.get_field_id(dog, b"kennel", b"D", true).unwrap();
    assert_eq!(vm.heap.extract_int(vm.classes.get_static_field_value(count)), Ok(0));
    assert_eq!(vm.classes.get_static_field_value(registry), vm.heap.null());
    assert_eq!(vm.heap.extract_double(vm.classes.get_static_field_value(kennel)), Ok(0));
    let seven = vm.heap.new_int(7);
    vm.put_static_field_value(count, seven);
    assert_eq!(vm.classes.get_static_field_value(count), seven);
    assert_eq!(vm.classes.get_static_field_value(registry), vm.heap.null());
    assert_eq!(vm.heap.extract_double(vm.classes.get_static_field_value(kennel)), Ok(0));
}

#[test]
fn new_inst_has_one_default_value_for_each_slot() {
    let mut vm = Vm::new();
    let (_, dog) = animals(&mut vm);
    let d = vm.new_inst(dog);
    assert_eq!(
        vm.heap.get(d),
        &Oop::Inst {
            class: dog,
            field_values: vec![
                OopRef { cell: 0 },
                OopRef { cell: 2 },
                OopRef { cell: 1 },
                OopRef { cell: 3 }
            ]
        }
    );
    let age = vm.classes.get_field_id(dog, b"age", b"J", false).unwrap();
    assert_eq!(vm.heap.extract_long(vm.get_field_value(d, age)), Ok(0));
}

#[test]
fn new_mirror_copies_the_static_values() {
    let mut vm = Vm::new();
    let (animal, _) = animals(&mut vm);
    let count = vm.classes.get_field_id(animal, b"count", b"I", true).unwrap();
    let three = vm.heap.new_int(3);
    vm.put_static_field_value(count, three);
    let m = vm.new_mirror(animal);
    assert_eq!(
        vm.heap.get(m),
        &Oop::Mirror { target: animal, field_values: vec![three, OopRef { cell: 0 }] }
    );
}

#[test]
fn method_lookup_by_id() {
    let mut vm = Vm::new();
    let (animal, dog) = animals(&mut vm);
    let speak = new_method_id(b"speak", b"()V");
    let age = new_method_id(b"age", b"()J");
    let fetch = new_method_id(b"fetch", b"()V");
    let wrong = new_method_id(b"speak", b"()I");
    assert_eq!(vm.classes.get_virtual_method(dog, &speak), Some(MethodRef { class: dog, index: 0 }));
    assert_eq!(vm.classes.get_virtual_method(animal, &speak), Some(MethodRef { class: animal, index: 0 }));
    assert_eq!(vm.classes.get_virtual_method(dog, &age), Some(MethodRef { class: animal, index: 1 }));
    assert_eq!(vm.classes.get_class_method(dog, &age), None);
    assert_eq!(vm.classes.get_class_method(dog, &fetch), Some(MethodRef { class: dog, index: 1 }));
    assert_eq!(vm.classes.get_virtual_method(animal, &fetch), None);
    assert_eq!(vm.classes.get_virtual_method(dog, &wrong), None);
    assert_eq!(vm.classes.method(MethodRef { class: dog, index: 1 }).name, b"fetch".to_vec());
}

#[test]
fn find_class_by_name_and_subclass_test() {
    let mut vm = Vm::new();
    let (animal, dog) = animals(&mut vm);
    let cat = vm.define_class(b"Cat".to_vec(), Some(animal), vec![], vec![]);
    assert_eq!(vm.classes.find_class(b"Dog"), Some(dog));
    assert_eq!(vm.classes.find_class(b"Animal"), Some(animal));
    assert_eq!(vm.classes.find_class(b"Bird"), None);
    assert_eq!(vm.classes.class_name(cat), &b"Cat".to_vec());
    assert!(vm.classes.is_subclass_of(dog, animal));
    assert!(vm.classes.is_subclass_of(dog, dog));
    assert!(!vm.classes.is_subclass_of(animal, dog));
    assert!(!vm.classes.is_subclass_of(cat, dog));
    assert!(vm.classes.has_super(dog));
    assert!(!vm.classes.has_super(animal));
}

#[test]
fn initializer_is_run_by_the_first_thread_alone() {
    let mut vm = Vm::new();
    let (animal, _) = animals(&mut vm);
    assert_eq!(vm.classes.init_state(animal), InitState::Loaded);
    let mut runs = 0;
    let mut waits = 0;
    for thread in 1..=8u64 {
        match vm.request_initialization(animal, thread) {
            InitAction::Run => runs += 1,
            InitAction::Wait => waits += 1,
            other => panic!("{:?}", other),
        }
    }
    assert_eq!((runs, waits), (1, 7));
    assert_eq!(vm.classes.init_state(animal), InitState::BeingInitialized(1));
    assert_eq!(vm.request_initialization(animal, 1), InitAction::Proceed);
    vm.finish_initialization(animal, 5, true);
    assert_eq!(vm.classes.init_state(animal), InitState::BeingInitialized(1));
    vm.finish_initialization(animal, 1, true);
    assert_eq!(vm.classes.init_state(animal), InitState::Initialized);
    for thread in 1..=8u64 {
        assert_eq!(vm.request_initialization(animal, thread), InitAction::Proceed);
    }
    vm.finish_initialization(animal, 1, false);
    assert_eq!(vm.classes.init_state(animal), InitState::Initialized);
}

#[test]
fn failed_initializer_makes_every_later_request_fail() {
    let mut vm = Vm::new();
    let (_, dog) = animals(&mut vm);
    assert_eq!(vm.request_initialization(dog, 3), InitAction::Run);
    vm.finish_initialization(dog, 3, false);
    assert_eq!(vm.classes.init_state(dog), InitState::Errored);
    assert_eq!(vm.request_initialization(dog, 3), InitAction::Fail);
    assert_eq!(vm.request_initialization(dog, 4), InitAction::Fail);
    assert_eq!(vm.classes.init_state(dog), InitState::Errored);
}

fn with_field_class(vm: &mut Vm) -> ClassId {
    let object = vm.define_class(b"java/lang/Object".to_vec(), None, vec![], vec![]);
    vm.define_class(
        b"java/lang/reflect/Field".to_vec(),
        Some(object),
        vec![
            field("clazz", "Ljava/lang/Class;", false),
            field("slot", "I", false),
            field("name", "Ljava/lang/String;", false),
        ],
        vec![],
    )
}

#[test]
fn object_field_offset_is_the_slot_of_the_field() {
    let mut vm = Vm::new();
    with_field_class(&mut vm);
    let (_, dog) = animals(&mut vm);
    let env = JNIEnv { class: dog };
    for (name, desc, expected) in [("name", "Ljava/lang/String;", 0i64), ("age", "J", 1), ("tricks", "I", 2), ("weight", "F", 3)] {
        let id = vm.classes.get_field_id(dog, name.as_bytes(), desc.as_bytes(), false).unwrap();
        let reflected = vm.reflect_field(id);
        let this = vm.heap.null();
        let first = jvm_objectFieldOffset(&mut vm, env, vec![this, reflected]).unwrap().unwrap();
        let second = jvm_objectFieldOffset(&mut vm, env, vec![this, reflected]).unwrap().unwrap();
        assert_eq!(vm.heap.extract_long(first), Ok(expected));
        assert_eq!(vm.heap.extract_long(second), Ok(expected));
        assert_ne!(first, second);
    }
}

#[test]
fn handlers_are_kept_with_their_method() {
    let mut vm = Vm::new();
    let h = Handler { start_pc: 0, end_pc: 4, handler_pc: 7, catch_type: None };
    let mut m = method("run", "()V");
    m.handlers.push(h);
    let c = vm.define_class(b"R".to_vec(), None, vec![], vec![m]);
    assert_eq!(vm.classes.method(MethodRef { class: c, index: 0 }).handlers, vec![h]);
}

#[test]
fn a_class_may_stand_for_its_superclasses_and_its_interfaces() {
    let mut vm = Vm::new();
    let object = vm.define_class(b"java/lang/Object".to_vec(), None, vec![], vec![]);
    let comparable = vm.define_class(b"Comparable".to_vec(), Some(object), vec![], vec![]);
    let sequence = vm.define_class(b"Sequence".to_vec(), Some(object), vec![], vec![]);
    let text = vm.define_class_implementing(b"Text".to_vec(), Some(object), vec![sequence], vec![], vec![]);
    let string = vm.define_class_implementing(
        b"String".to_vec(),
        Some(object),
        vec![comparable, text],
        vec![],
        vec![],
    );
    let rope = vm.define_class(b"Rope".to_vec(), Some(string), vec![], vec![]);
    let yes = [
        (rope, rope),
        (rope, string),
        (rope, object),
        (rope, comparable),
        (rope, text),
        (rope, sequence),
        (string, sequence),
        (text, sequence),
        (text, object),
    ];
    for (c, d) in yes {
        assert!(vm.classes.is_assignable(c, d), "{:?} {:?}", c, d);
    }
    let no = [(string, rope), (sequence, text), (comparable, text), (text, comparable), (object, sequence)];
    for (c, d) in no {
        assert!(!vm.classes.is_assignable(c, d), "{:?} {:?}", c, d);
    }
    assert!(vm.classes.is_subclass_of(rope, object));
    assert!(!vm.classes.is_subclass_of(rope, sequence));
    assert!(!vm.classes.is_assignable(rope, ClassId { index: 99 }));
}
