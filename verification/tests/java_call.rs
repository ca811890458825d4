use jvm::class::{Method, MethodRef};
use jvm::java_call::{deliver, exception_class_name, leave, Delivered, JavaCall};
use jvm::native::Exception;
use jvm::oop::{Oop, OopRef};
use jvm::runtime::Vm;
use jvm::stack::Stack;
use jvm::thread::JavaThread;

fn method(name: &str, desc: &str, acc_flags: u16, max_stack: u16, max_locals: u16) -> Method {
    Method {
        name: name.as_bytes().to_vec(),
        desc: desc.as_bytes().to_vec(),
        acc_flags,
        max_stack,
        max_locals,
        handlers: vec![],
    }
}

fn machine() -> (Vm, Vec<MethodRef>) {
    let mut vm = Vm::new();
    let c = vm.define_class(
        b"C".to_vec(),
        None,
        vec![],
        vec![
            method("virt", "(IJ)V", 0x0001, 4, 5),
            method("stat", "(IJ)V", 0x0009, 4, 2),
            method("none", "()I", 0x0008, 1, 0),
            method("bad", "(I", 0x0008, 1, 1),
            method("nat", "()V", 0x0109, 0, 0),
            method("tight", "(II)V", 0x0008, 1, 1),
        ],
    );
    let refs = (0..6).map(|index| MethodRef { class: c, index }).collect();
    (vm, refs)
}

fn stack_of(cells: &[usize], max: usize) -> Stack {
    let mut stack = Stack::new(max);
    for c in cells {
        stack.push(OopRef { cell: *c });
    }
    stack
}

fn rest(mut stack: Stack) -> Vec<usize> {
    let mut v = vec![];
    while stack.len() > 0 {
        v.push(stack.pop_ref().cell);
    }
    v.reverse();
    v
}

#[test]
fn a_call_takes_its_arguments_from_the_stack_of_the_caller() {
    let (vm, m) = machine();
    let mut caller = stack_of(&[10, 11, 12, 13], 8);
    let call = JavaCall::new(&vm, &mut caller, m[0]).unwrap();
    assert_eq!(call.mir, m[0]);
    assert_eq!(call.args, vec![OopRef { cell: 11 }, OopRef { cell: 12 }, OopRef { cell: 13 }]);
    assert_eq!(rest(caller), vec![10]);

    let mut caller = stack_of(&[10, 11, 12, 13], 8);
    let call = JavaCall::new(&vm, &mut caller, m[1]).unwrap();
    assert_eq!(call.args, vec![OopRef { cell: 12 }, OopRef { cell: 13 }]);
    assert_eq!(rest(caller), vec![10, 11]);

    let mut caller = stack_of(&[10], 8);
    let call = JavaCall::new(&vm, &mut caller, m[2]).unwrap();
    assert!(call.args.is_empty());
    assert_eq!(rest(caller), vec![10]);
}

#[test]
fn a_call_that_cannot_be_made_leaves_the_stack_alone() {
    let (vm, m) = machine();
    let mut caller = stack_of(&[10, 11], 8);
    assert!(JavaCall::new(&vm, &mut caller, m[0]).is_none());
    assert!(JavaCall::new(&vm, &mut caller, m[3]).is_none());
    assert_eq!(rest(caller), vec![10, 11]);
}

#[test]
fn entering_a_method_pushes_its_frame() {
    let (vm, m) = machine();
    let mut thread = JavaThread::new();
    let call = JavaCall::new_with_args(m[0], vec![OopRef { cell: 7 }, OopRef { cell: 8 }, OopRef { cell: 9 }]);
    assert!(!call.is_native(&vm));
    assert!(call.enter(&vm, &mut thread));
    assert_eq!(thread.frames.len(), 1);
    let frame = &thread.frames[0];
    assert_eq!(frame.method, m[0]);
    assert_eq!(frame.pc, 0);
    assert_eq!(frame.stack.len(), 0);
    assert_eq!(
        frame.locals,
        vec![OopRef { cell: 7 }, OopRef { cell: 8 }, OopRef { cell: 9 }, OopRef { cell: 0 }, OopRef { cell: 0 }]
    );
    let tight = JavaCall::new_with_args(m[5], vec![OopRef { cell: 1 }, OopRef { cell: 1 }]);
    assert!(!tight.enter(&vm, &mut thread));
    assert_eq!(thread.frames.len(), 1);
    assert!(JavaCall::new_with_args(m[4], vec![]).is_native(&vm));
}

#[test]
fn leaving_a_method_hands_its_value_to_the_caller() {
    let (vm, m) = machine();
    let mut thread = JavaThread::new();
    JavaCall::new_with_args(m[2], vec![]).enter(&vm, &mut thread);
    JavaCall::new_with_args(m[2], vec![]).enter(&vm, &mut thread);
    let mut stack = stack_of(&[5], 2);
    leave(&mut thread, &mut stack, Some(OopRef { cell: 6 }));
    assert_eq!(thread.frames.len(), 1);
    leave(&mut thread, &mut stack, None);
    assert_eq!(thread.frames.len(), 0);
    assert_eq!(rest(stack), vec![5, 6]);
}

#[test]
fn the_result_of_a_native_method_is_delivered() {
    let (mut vm, _) = machine();
    let mut thread = JavaThread::new();
    let mut stack = Stack::new(1);
    assert_eq!(deliver(&mut vm, &mut thread, &mut stack, Ok(None)), Delivered::Returned);
    assert_eq!(stack.len(), 0);
    let v = vm.heap.new_int(3);
    assert_eq!(deliver(&mut vm, &mut thread, &mut stack, Ok(Some(v))), Delivered::Returned);
    assert_eq!(stack.pop_ref(), v);
    assert!(!thread.is_meet_ex());
}

#[test]
fn an_exception_of_a_native_method_is_raised_as_an_instance_of_its_class() {
    let (mut vm, _) = machine();
    let mut thread = JavaThread::new();
    let mut stack = Stack::new(1);
    let e = Exception::ArrayStoreException;
    let before = vm.heap.len();
    assert_eq!(deliver(&mut vm, &mut thread, &mut stack, Err(e)), Delivered::Unloaded(e));
    assert_eq!(vm.heap.len(), before);
    assert!(!thread.is_meet_ex());
    let class = vm.define_class(b"java/lang/ArrayStoreException".to_vec(), None, vec![], vec![]);
    assert_eq!(deliver(&mut vm, &mut thread, &mut stack, Err(e)), Delivered::Raised);
    let ex = thread.take_ex().unwrap();
    assert_eq!(ex.cell, before);
    assert_eq!(vm.heap.get(ex), &Oop::Inst { class, field_values: vec![] });
    assert_eq!(stack.len(), 0);
    assert_eq!(
        deliver(&mut vm, &mut thread, &mut stack, Err(Exception::NullPointerException)),
        Delivered::Unloaded(Exception::NullPointerException)
    );
}

#[test]
fn every_exception_has_its_class() {
    assert_eq!(exception_class_name(Exception::NullPointerException), "java/lang/NullPointerException");
    assert_eq!(
        exception_class_name(Exception::ArrayIndexOutOfBoundsException),
        "java/lang/ArrayIndexOutOfBoundsException"
    );
    assert_eq!(exception_class_name(Exception::ArrayStoreException), "java/lang/ArrayStoreException");
    assert_eq!(exception_class_name(Exception::ClassCastException), "java/lang/ClassCastException");
    assert_eq!(exception_class_name(Exception::ArithmeticException), "java/lang/ArithmeticException");
    assert_eq!(exception_class_name(Exception::OutOfMemoryError), "java/lang/OutOfMemoryError");
    assert_eq!(exception_class_name(Exception::StackOverflowError), "java/lang/StackOverflowError");
    assert_eq!(exception_class_name(Exception::NoClassDefFoundError), "java/lang/NoClassDefFoundError");
    assert_eq!(exception_class_name(Exception::UnsatisfiedLinkError), "java/lang/UnsatisfiedLinkError");
}
