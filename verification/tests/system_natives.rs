use jvm::bootstrap::{property_index, property_key_table, PROPERTY_COUNT};
use jvm::class::{new_method_id, FieldDecl, InitAction, InitState, Method, MethodRef};
use jvm::native::java_lang_System::{
    can_get_property, get_native_methods, jvm_getProperty, jvm_getProperty_return,
    jvm_initProperties, jvm_initProperties_step, jvm_registerNatives, jvm_setErr0, jvm_setIn0,
    jvm_setOut0, InstallStep, PropertyStep,
};
use jvm::native::{new_fn, Exception, Invocation, JNIEnv, JNINativeMethod, JNIResult, NativeFn};
use jvm::oop::{ClassId, Oop};
use jvm::runtime::Vm;
use jvm::stack::Stack;

fn field(name: &str, desc: &str, is_static: bool) -> FieldDecl {
    FieldDecl { name: name.as_bytes().to_vec(), desc: desc.as_bytes().to_vec(), is_static }
}

fn method(name: &str, desc: &str) -> Method {
    Method {
        name: name.as_bytes().to_vec(),
        desc: desc.as_bytes().to_vec(),
        acc_flags: 1,
        max_stack: 4,
        max_locals: 4,
        handlers: vec![],
    }
}

struct Classes {
    system: ClassId,
    hashtable: ClassId,
    properties: ClassId,
}

fn boot(vm: &mut Vm) -> Classes {
    let object = vm.define_class(b"java/lang/Object".to_vec(), None, vec![], vec![]);
    let system = vm.define_class(
        b"java/lang/System".to_vec(),
        Some(object),
        vec![
            field("in", "Ljava/io/InputStream;", true),
            field("out", "Ljava/io/PrintStream;", true),
            field("err", "Ljava/io/PrintStream;", true),
            field("props", "Ljava/util/Properties;", true),
        ],
        vec![],
    );
    let hashtable = vm.define_class(
        b"java/util/Hashtable".to_vec(),
        Some(object),
        vec![],
        vec![
            method("get", "(Ljava/lang/Object;)Ljava/lang/Object;"),
            method("put", "(Ljava/lang/Object;Ljava/lang/Object;)Ljava/lang/Object;"),
        ],
    );
    let properties = vm.define_class(
        b"java/util/Properties".to_vec(),
        Some(hashtable),
        vec![],
        vec![method("getProperty", "(Ljava/lang/String;)Ljava/lang/String;")],
    );
    Classes { system, hashtable, properties }
}

#[test]
fn system_registers_six_native_methods() {
    let table = get_native_methods();
    let expected: Vec<JNINativeMethod> = vec![
        new_fn("arraycopy", "(Ljava/lang/Object;ILjava/lang/Object;II)V", NativeFn::SystemArraycopy),
        new_fn("registerNatives", "()V", NativeFn::SystemRegisterNatives),
        new_fn(
            "initProperties",
            "(Ljava/util/Properties;)Ljava/util/Properties;",
            NativeFn::SystemInitProperties,
        ),
        new_fn("setIn0", "(Ljava/io/InputStream;)V", NativeFn::SystemSetIn0),
        new_fn("setOut0", "(Ljava/io/PrintStream;)V", NativeFn::SystemSetOut0),
        new_fn("setErr0", "(Ljava/io/PrintStream;)V", NativeFn::SystemSetErr0),
    ];
    assert_eq!(table, expected);
}

#[test]
fn system_register_natives_does_nothing() {
    let mut vm = Vm::new();
    let env = JNIEnv { class: ClassId { index: 0 } };
    assert_eq!(jvm_registerNatives(&mut vm, env, vec![]), Ok(None));
    assert_eq!(vm.heap.len(), 5);
    assert_eq!(vm.classes.len(), 0);
}

#[test]
fn the_keys_of_the_system_properties_are_fixed() {
    let keys = property_key_table();
    assert_eq!(keys.len(), PROPERTY_COUNT);
    assert_eq!(
        keys,
        vec![
            "java.specification.version",
            "java.specification.name",
            "java.specification.vendor",
            "java.version",
            "java.vendor",
            "java.vendor.url",
            "java.vendor.url.bug",
            "java.class.version",
            "os.name",
            "os.version",
            "os.arch",
            "file.separator",
            "path.separator",
            "line.separator",
            "user.language",
            "file.encoding",
            "sun.jnu.encoding",
            "file.encoding.pkg",
            "sun.io.unicode.encoding",
            "sun.cpu.isalist",
            "sun.cpu.endian",
            "sun.arch.data.model",
            "user.name",
            "user.home",
            "user.dir",
            "java.home",
            "sun.stdout.encoding",
            "sun.stderr.encoding",
        ]
    );
    assert_eq!(property_index(b"java.specification.version"), Some(0));
    assert_eq!(property_index(b"file.separator"), Some(11));
    assert_eq!(property_index(b"sun.stderr.encoding"), Some(27));
    assert_eq!(property_index(b"file.separato"), None);
    assert_eq!(property_index(b""), None);
}

#[test]
fn set_property_takes_the_fixed_keys_alone() {
    let mut vm = Vm::new();
    assert!(vm.set_property(b"os.name", b"Linux".to_vec()));
    assert!(!vm.set_property(b"os.nam", b"x".to_vec()));
    assert_eq!(vm.properties.len(), PROPERTY_COUNT);
    assert_eq!(vm.properties[8], b"Linux".to_vec());
    assert!(vm.properties.iter().enumerate().all(|(i, v)| i == 8 || v.is_empty()));
}

#[test]
fn init_properties_asks_for_one_put_for_each_property() {
    let mut vm = Vm::new();
    let classes = boot(&mut vm);
    vm.set_property(b"file.separator", b"/".to_vec());
    vm.set_property(b"path.separator", b":".to_vec());
    vm.set_property(b"line.separator", b"\n".to_vec());
    vm.set_property(b"java.version", b"1.8".to_vec());
    let props = vm.new_inst(classes.properties);
    let base = vm.heap.len();
    let env = JNIEnv { class: classes.system };
    let (calls, result) = jvm_initProperties(&mut vm, env, vec![props]);
    assert_eq!(result, Ok(Some(props)));
    assert_eq!(calls.len(), PROPERTY_COUNT);
    assert_eq!(vm.heap.len(), base + 2 * PROPERTY_COUNT);
    let put = MethodRef { class: classes.hashtable, index: 1 };
    let keys = property_key_table();
    for (i, call) in calls.iter().enumerate() {
        assert_eq!(call.method, put);
        assert_eq!(call.args.len(), 3);
        assert_eq!(call.args[0], props);
        assert_eq!(call.args[1].cell, base + 2 * i);
        assert_eq!(call.args[2].cell, base + 2 * i + 1);
        assert_eq!(vm.heap.extract_str(call.args[1]), Ok(keys[i].as_bytes().to_vec()));
        assert_eq!(vm.heap.extract_str(call.args[2]), Ok(vm.properties[i].clone()));
    }
    let value_of = |key: &str| {
        let call = calls
            .iter()
            .find(|c| vm.heap.extract_str(c.args[1]) == Ok(key.as_bytes().to_vec()))
            .unwrap();
        vm.heap.extract_str(call.args[2]).unwrap()
    };
    assert_eq!(value_of("file.separator"), b"/".to_vec());
    assert_eq!(value_of("path.separator"), b":".to_vec());
    assert_eq!(value_of("line.separator"), b"\n".to_vec());
    assert_eq!(value_of("java.version"), b"1.8".to_vec());
    assert_eq!(value_of("os.name"), b"".to_vec());
}

#[test]
fn init_properties_resolves_put_on_the_class_of_the_receiver() {
    let mut vm = Vm::new();
    let classes = boot(&mut vm);
    let own = vm.define_class(
        b"MyProperties".to_vec(),
        Some(classes.properties),
        vec![],
        vec![method("put", "(Ljava/lang/Object;Ljava/lang/Object;)Ljava/lang/Object;")],
    );
    let props = vm.new_inst(own);
    let (calls, _) = jvm_initProperties(&mut vm, JNIEnv { class: classes.system }, vec![props]);
    assert!(calls.iter().all(|c| c.method == MethodRef { class: own, index: 0 }));
    assert_eq!(
        vm.classes.get_virtual_method(own, &new_method_id(b"get", b"(Ljava/lang/Object;)Ljava/lang/Object;")),
        Some(MethodRef { class: classes.hashtable, index: 0 })
    );
}

#[test]
fn set_in_out_err_store_into_the_static_fields_of_system() {
    let mut vm = Vm::new();
    let classes = boot(&mut vm);
    let env = JNIEnv { class: classes.system };
    let stdin = vm.heap.new_str(b"in".to_vec());
    let stdout = vm.heap.new_str(b"out".to_vec());
    let stderr = vm.heap.new_str(b"err".to_vec());
    assert_eq!(jvm_setIn0(&mut vm, env, vec![stdin]), Ok(None));
    assert_eq!(jvm_setOut0(&mut vm, env, vec![stdout]), Ok(None));
    assert_eq!(jvm_setErr0(&mut vm, env, vec![stderr]), Ok(None));
    let value = |vm: &Vm, name: &str, desc: &str| {
        let id = vm.classes.get_field_id(classes.system, name.as_bytes(), desc.as_bytes(), true).unwrap();
        vm.classes.get_static_field_value(id)
    };
    assert_eq!(value(&vm, "in", "Ljava/io/InputStream;"), stdin);
    assert_eq!(value(&vm, "out", "Ljava/io/PrintStream;"), stdout);
    assert_eq!(value(&vm, "err", "Ljava/io/PrintStream;"), stderr);
    assert_eq!(value(&vm, "props", "Ljava/util/Properties;"), vm.heap.null());
    let again = vm.heap.new_str(b"again".to_vec());
    assert_eq!(jvm_setOut0(&mut vm, env, vec![again]), Ok(None));
    assert_eq!(value(&vm, "out", "Ljava/io/PrintStream;"), again);
    assert_eq!(value(&vm, "err", "Ljava/io/PrintStream;"), stderr);
}

#[test]
fn get_property_asks_for_a_call_on_the_props_of_system() {
    let mut vm = Vm::new();
    let classes = boot(&mut vm);
    let props = vm.new_inst(classes.properties);
    let id = vm.classes.get_field_id(classes.system, b"props", b"Ljava/util/Properties;", true).unwrap();
    vm.put_static_field_value(id, props);
    for c in [classes.system, classes.properties] {
        assert_eq!(vm.request_initialization(c, 1), InitAction::Run);
        vm.finish_initialization(c, 1, true);
    }
    let key = vm.heap.new_str(b"file.separator".to_vec());
    let before = vm.heap.len();
    let step = jvm_getProperty(&mut vm, 7, JNIEnv { class: classes.system }, vec![key]);
    assert_eq!(
        step,
        PropertyStep::Call(Invocation {
            method: MethodRef { class: classes.properties, index: 0 },
            args: vec![props, key]
        })
    );
    assert_eq!(vm.heap.len(), before);
    assert_eq!(vm.classes.init_state(classes.system), InitState::Initialized);
    assert_eq!(vm.classes.init_state(classes.properties), InitState::Initialized);

    let answer = vm.heap.new_str(b"/".to_vec());
    let mut stack = Stack::new(1);
    stack.push(answer);
    assert_eq!(jvm_getProperty_return(&mut stack), Ok(Some(answer)));
    assert_eq!(stack.len(), 0);
    assert_eq!(vm.heap.get(answer), &Oop::Str(b"/".to_vec()));
}

#[test]
fn get_property_has_both_classes_initialized_first() {
    let mut vm = Vm::new();
    let classes = boot(&mut vm);
    let props = vm.new_inst(classes.properties);
    let id = vm.classes.get_field_id(classes.system, b"props", b"Ljava/util/Properties;", true).unwrap();
    vm.put_static_field_value(id, props);
    let key = vm.heap.new_str(b"os.name".to_vec());
    let env = JNIEnv { class: classes.system };

    assert_eq!(jvm_getProperty(&mut vm, 7, env, vec![key]), PropertyStep::Initialize(classes.system));
    assert_eq!(vm.classes.init_state(classes.system), InitState::BeingInitialized(7));
    assert_eq!(vm.classes.init_state(classes.properties), InitState::Loaded);
    // another thread waits, and changes nothing
    assert_eq!(jvm_getProperty(&mut vm, 8, env, vec![key]), PropertyStep::Wait(classes.system));
    assert_eq!(vm.classes.init_state(classes.system), InitState::BeingInitialized(7));
    // the thread that runs the initializer goes on to the second class
    assert_eq!(jvm_getProperty(&mut vm, 7, env, vec![key]), PropertyStep::Initialize(classes.properties));
    assert_eq!(vm.classes.init_state(classes.properties), InitState::BeingInitialized(7));
    vm.finish_initialization(classes.properties, 7, true);
    vm.finish_initialization(classes.system, 7, true);
    let call = Invocation { method: MethodRef { class: classes.properties, index: 0 }, args: vec![props, key] };
    assert_eq!(jvm_getProperty(&mut vm, 8, env, vec![key]), PropertyStep::Call(call.clone()));
    assert_eq!(jvm_getProperty(&mut vm, 7, env, vec![key]), PropertyStep::Call(call));
}

#[test]
fn get_property_fails_where_a_class_has_failed_to_initialize() {
    let mut vm = Vm::new();
    let classes = boot(&mut vm);
    let key = vm.heap.new_str(b"os.name".to_vec());
    let env = JNIEnv { class: classes.system };
    assert_eq!(jvm_getProperty(&mut vm, 1, env, vec![key]), PropertyStep::Initialize(classes.system));
    vm.finish_initialization(classes.system, 1, true);
    assert_eq!(jvm_getProperty(&mut vm, 1, env, vec![key]), PropertyStep::Initialize(classes.properties));
    vm.finish_initialization(classes.properties, 1, false);
    assert_eq!(vm.classes.init_state(classes.properties), InitState::Errored);
    let before = vm.heap.len();
    assert_eq!(
        jvm_getProperty(&mut vm, 1, env, vec![key]),
        PropertyStep::Fail(Exception::NoClassDefFoundError)
    );
    assert_eq!(
        jvm_getProperty(&mut vm, 2, env, vec![key]),
        PropertyStep::Fail(Exception::NoClassDefFoundError)
    );
    assert_eq!(vm.heap.len(), before);
    assert_eq!(vm.classes.init_state(classes.system), InitState::Initialized);
}

fn steps_of(calls: &Vec<Invocation>, result: JNIResult, raises_at: Option<usize>) -> (Vec<Invocation>, Option<JNIResult>) {
    let mut made = Vec::new();
    let mut raised = false;
    loop {
        match jvm_initProperties_step(calls, result, made.len(), raised) {
            InstallStep::Call(call) => {
                raised = raises_at == Some(made.len());
                made.push(call);
            }
            InstallStep::Done(r) => return (made, Some(r)),
            InstallStep::Raised => return (made, None),
        }
    }
}

#[test]
fn init_properties_makes_each_call_once_and_in_order() {
    let mut vm = Vm::new();
    let classes = boot(&mut vm);
    let props = vm.new_inst(classes.properties);
    let env = JNIEnv { class: classes.system };
    let (calls, result) = jvm_initProperties(&mut vm, env, vec![props]);
    let (made, end) = steps_of(&calls, result, None);
    assert_eq!(made, calls);
    assert_eq!(end, Some(Ok(Some(props))));
}

#[test]
fn init_properties_stops_at_the_first_exception() {
    let mut vm = Vm::new();
    let classes = boot(&mut vm);
    let props = vm.new_inst(classes.properties);
    let env = JNIEnv { class: classes.system };
    let (calls, result) = jvm_initProperties(&mut vm, env, vec![props]);
    let (made, end) = steps_of(&calls, result, Some(3));
    assert_eq!(made, calls[..4].to_vec());
    assert_eq!(end, None);
    let (made, end) = steps_of(&calls, result, Some(0));
    assert_eq!(made, calls[..1].to_vec());
    assert_eq!(end, None);
    let (made, end) = steps_of(&calls, result, Some(PROPERTY_COUNT - 1));
    assert_eq!(made.len(), PROPERTY_COUNT);
    assert_eq!(end, None);
    // before the first call nothing can have been raised
    match jvm_initProperties_step(&calls, result, 0, true) {
        InstallStep::Call(call) => assert_eq!(call, calls[0]),
        _ => panic!("the first call is due"),
    }
    match jvm_initProperties_step(&Vec::new(), Ok(None), 0, false) {
        InstallStep::Done(r) => assert_eq!(r, Ok(None)),
        _ => panic!("nothing is left to call"),
    }
}

#[test]
fn many_threads_ask_and_each_initializer_runs_once() {
    let mut vm = Vm::new();
    let classes = boot(&mut vm);
    let props = vm.new_inst(classes.properties);
    let id = vm.classes.get_field_id(classes.system, b"props", b"Ljava/util/Properties;", true).unwrap();
    vm.put_static_field_value(id, props);
    let key = vm.heap.new_str(b"user.dir".to_vec());
    let env = JNIEnv { class: classes.system };
    let mut started: Vec<(ClassId, u64)> = Vec::new();
    let mut through = 0;
    for round in 0..6u64 {
        for thread in 0..5u64 {
            match jvm_getProperty(&mut vm, thread, env, vec![key]) {
                PropertyStep::Initialize(c) => started.push((c, thread)),
                PropertyStep::Wait(c) => {
                    assert!(started.iter().any(|(d, t)| *d == c && *t != thread));
                }
                PropertyStep::Call(call) => {
                    through += 1;
                    assert_eq!(call.args, vec![props, key]);
                    assert_eq!(started.len(), 2);
                }
                PropertyStep::Fail(e) => panic!("{:?}", e),
            }
        }
        // the initializers end one per round, that of the second class first
        if round == 1 {
            vm.finish_initialization(classes.properties, 3, true);
        }
        if round == 2 {
            vm.finish_initialization(classes.system, 3, true);
        }
    }
    assert_eq!(started, vec![(classes.system, 0), (classes.properties, 0)]);
    assert!(through > 0);
    // a report from a thread that does not run the initializer changes nothing
    assert_eq!(vm.classes.init_state(classes.system), InitState::BeingInitialized(0));
    vm.finish_initialization(classes.properties, 0, true);
    vm.finish_initialization(classes.system, 0, true);
    for thread in 0..5u64 {
        assert!(matches!(jvm_getProperty(&mut vm, thread, env, vec![key]), PropertyStep::Call(_)));
    }
    assert_eq!(started.len(), 2);
}

#[test]
fn get_property_needs_its_key_and_its_two_classes() {
    let mut vm = Vm::new();
    let key = vm.heap.new_str(b"os.name".to_vec());
    assert!(!can_get_property(&vm, &vec![key]));
    let object = vm.define_class(b"java/lang/Object".to_vec(), None, vec![], vec![]);
    vm.define_class(
        b"java/lang/System".to_vec(),
        Some(object),
        vec![field("props", "Ljava/util/Properties;", true)],
        vec![],
    );
    assert!(!can_get_property(&vm, &vec![key]));
    // a method of the name that the superclass declares does not count
    let table = vm.define_class(
        b"java/util/Hashtable".to_vec(),
        Some(object),
        vec![],
        vec![method("getProperty", "(Ljava/lang/String;)Ljava/lang/String;")],
    );
    let mut other = Vm::new();
    let other_key = other.heap.new_str(b"os.name".to_vec());
    let other_object = other.define_class(b"java/lang/Object".to_vec(), None, vec![], vec![]);
    other.define_class(
        b"java/lang/System".to_vec(),
        Some(other_object),
        vec![field("props", "Ljava/util/Properties;", true)],
        vec![],
    );
    let other_table = other.define_class(b"java/util/Hashtable".to_vec(), Some(other_object), vec![], vec![
        method("getProperty", "(Ljava/lang/String;)Ljava/lang/String;"),
    ]);
    other.define_class(b"java/util/Properties".to_vec(), Some(other_table), vec![], vec![]);
    assert!(!can_get_property(&other, &vec![other_key]));
    vm.define_class(
        b"java/util/Properties".to_vec(),
        Some(table),
        vec![],
        vec![method("getProperty", "(Ljava/lang/String;)Ljava/lang/String;")],
    );
    assert!(can_get_property(&vm, &vec![key]));
    assert!(can_get_property(&vm, &vec![key, key]));
    assert!(!can_get_property(&vm, &vec![]));
    let beyond = jvm::oop::OopRef { cell: vm.heap.len() };
    assert!(!can_get_property(&vm, &vec![beyond]));
}

#[test]
fn the_file_separator_is_put_once_with_the_value_of_the_machine() {
    for separator in [&b"/"[..], &b"\\"[..], &b""[..]] {
        let mut vm = Vm::new();
        let classes = boot(&mut vm);
        assert!(vm.set_property(b"file.separator", separator.to_vec()));
        assert!(vm.set_property(b"path.separator", b":".to_vec()));
        assert!(!vm.set_property(b"file.separators", b"?".to_vec()));
        let props = vm.new_inst(classes.properties);
        let (calls, _) = jvm_initProperties(&mut vm, JNIEnv { class: classes.system }, vec![props]);
        let with_key: Vec<&Invocation> = calls
            .iter()
            .filter(|c| vm.heap.extract_str(c.args[1]) == Ok(b"file.separator".to_vec()))
            .collect();
        assert_eq!(with_key.len(), 1);
        assert_eq!(with_key[0], &calls[property_index(b"file.separator").unwrap()]);
        assert_eq!(with_key[0].args[0], props);
        assert_eq!(vm.heap.extract_str(with_key[0].args[2]), Ok(separator.to_vec()));
    }
}

#[test]
fn no_key_of_the_system_properties_occurs_twice() {
    let keys = property_key_table();
    for (i, key) in keys.iter().enumerate() {
        assert_eq!(property_index(key.as_bytes()), Some(i));
        assert_eq!(keys.iter().filter(|k| *k == key).count(), 1);
    }
    let mut vm = Vm::new();
    let classes = boot(&mut vm);
    let props = vm.new_inst(classes.properties);
    let (calls, _) = jvm_initProperties(&mut vm, JNIEnv { class: classes.system }, vec![props]);
    for (i, key) in keys.iter().enumerate() {
        let places: Vec<usize> = (0..calls.len())
            .filter(|j| vm.heap.extract_str(calls[*j].args[1]) == Ok(key.as_bytes().to_vec()))
            .collect();
        assert_eq!(places, vec![i]);
    }
}
