use jvm::class::{Handler, Method, MethodRef};
use jvm::frame::{find_handler, Frame};
use jvm::oop::{Heap, OopRef};
use jvm::runtime::Vm;
use jvm::stack::Stack;
use jvm::thread::{JavaThread, Unwound};

fn drain(mut stack: Stack) -> Vec<usize> {
    let mut cells = Vec::new();
    while stack.len() > 0 {
        cells.push(stack.pop_ref().cell);
    }
    cells.reverse();
    cells
}

fn stack_of(heap: &mut Heap, max: usize, values: &[i32]) -> (Stack, Vec<usize>) {
    let mut stack = Stack::new(max);
    let mut cells = Vec::new();
    for v in values {
        let r = heap.new_int(*v);
        cells.push(r.cell);
        stack.push(r);
    }
    (stack, cells)
}

#[test]
fn push_and_typed_pops() {
    let mut heap = Heap::new();
    let mut stack = Stack::new(4);
    let i = heap.new_int(3);
    let l = heap.new_long(-4);
    let d = heap.new_double(0.5f64.to_bits());
    let s = heap.new_str(vec![1]);
    stack.push(s);
    stack.push(d);
    stack.push(l);
    stack.push(i);
    assert_eq!(stack.len(), 4);
    assert_eq!(stack.pop_int(&heap), 3);
    assert_eq!(stack.pop_long(&heap), -4);
    assert_eq!(f64::from_bits(stack.pop_double(&heap)), 0.5);
    assert_eq!(stack.pop_ref(), s);
    assert_eq!(stack.len(), 0);
}

#[test]
fn dup_swap_and_dup_x1() {
    let mut heap = Heap::new();
    let (mut stack, c) = stack_of(&mut heap, 8, &[1, 2]);
    stack.dup();
    assert_eq!(drain(stack), vec![c[0], c[1], c[1]]);
    let (mut stack, c) = stack_of(&mut heap, 8, &[1, 2, 3]);
    stack.swap();
    assert_eq!(drain(stack), vec![c[0], c[2], c[1]]);
    let (mut stack, c) = stack_of(&mut heap, 8, &[1, 2, 3]);
    stack.dup_x1();
    assert_eq!(drain(stack), vec![c[0], c[2], c[1], c[2]]);
}

#[test]
fn dup2_goes_by_the_category_of_the_top() {
    let mut heap = Heap::new();
    let (mut stack, c) = stack_of(&mut heap, 8, &[1, 2, 3]);
    stack.dup2(&heap);
    assert_eq!(drain(stack), vec![c[0], c[1], c[2], c[1], c[2]]);
    let (mut stack, c) = stack_of(&mut heap, 8, &[1]);
    let l = heap.new_long(9);
    stack.push(l);
    stack.dup2(&heap);
    assert_eq!(drain(stack), vec![c[0], l.cell, l.cell]);
    let mut stack = Stack::new(2);
    let d = heap.new_double(0);
    stack.push(d);
    assert!(stack.top_is_wide(&heap));
    stack.dup2(&heap);
    assert_eq!(drain(stack), vec![d.cell, d.cell]);
}

#[test]
fn dup2_x1_goes_by_the_category_of_the_top() {
    let mut heap = Heap::new();
    let (mut stack, c) = stack_of(&mut heap, 8, &[0, 1, 2, 3]);
    stack.dup2_x1(&heap);
    assert_eq!(drain(stack), vec![c[0], c[2], c[3], c[1], c[2], c[3]]);
    let (mut stack, c) = stack_of(&mut heap, 8, &[0, 1]);
    let l = heap.new_long(9);
    stack.push(l);
    stack.dup2_x1(&heap);
    assert_eq!(drain(stack), vec![c[0], l.cell, c[1], l.cell]);
}

#[test]
fn a_new_frame_holds_the_arguments_in_its_first_locals() {
    let method = MethodRef { class: jvm::oop::ClassId { index: 0 }, index: 0 };
    let this = OopRef { cell: 9 };
    let arg = OopRef { cell: 7 };
    let frame = Frame::new(method, 3, 4, &vec![this, arg]);
    assert_eq!(frame.method, method);
    assert_eq!(frame.pc, 0);
    assert_eq!(frame.stack.len(), 0);
    assert_eq!(frame.locals, vec![this, arg, OopRef { cell: 0 }, OopRef { cell: 0 }]);
    let empty = Frame::new(method, 0, 0, &vec![]);
    assert!(empty.locals.is_empty());
}

struct World {
    vm: Vm,
    throwable: jvm::oop::ClassId,
    arithmetic: jvm::oop::ClassId,
    io: jvm::oop::ClassId,
    caller: MethodRef,
    callee: MethodRef,
}

fn method(name: &str, handlers: Vec<Handler>) -> Method {
    Method {
        name: name.as_bytes().to_vec(),
        desc: b"()V".to_vec(),
        acc_flags: 9,
        max_stack: 2,
        max_locals: 1,
        handlers,
    }
}

fn world() -> World {
    let mut vm = Vm::new();
    let object = vm.define_class(b"java/lang/Object".to_vec(), None, vec![], vec![]);
    let throwable = vm.define_class(b"java/lang/Throwable".to_vec(), Some(object), vec![], vec![]);
    let runtime = vm.define_class(b"java/lang/RuntimeException".to_vec(), Some(throwable), vec![], vec![]);
    let arithmetic = vm.define_class(b"java/lang/ArithmeticException".to_vec(), Some(runtime), vec![], vec![]);
    let io = vm.define_class(b"java/io/IOException".to_vec(), Some(throwable), vec![], vec![]);
    let main = vm.define_class(
        b"Main".to_vec(),
        Some(object),
        vec![],
        vec![
            method(
                "caller",
                vec![Handler { start_pc: 0, end_pc: 10, handler_pc: 20, catch_type: Some(io) }],
            ),
            method(
                "callee",
                vec![
                    Handler { start_pc: 8, end_pc: 12, handler_pc: 30, catch_type: Some(io) },
                    Handler { start_pc: 2, end_pc: 6, handler_pc: 40, catch_type: Some(runtime) },
                    Handler { start_pc: 0, end_pc: 6, handler_pc: 50, catch_type: None },
                ],
            ),
        ],
    );
    World {
        vm,
        throwable,
        arithmetic,
        io,
        caller: MethodRef { class: main, index: 0 },
        callee: MethodRef { class: main, index: 1 },
    }
}

#[test]
fn the_first_handler_that_covers_the_place_and_the_class_is_found() {
    let w = world();
    let handlers = &w.vm.classes.method(w.callee).handlers;
    let at = |pc, thrown| find_handler(&w.vm.classes, handlers, pc, thrown).map(|h| h.handler_pc);
    assert_eq!(at(2, w.arithmetic), Some(40));
    assert_eq!(at(5, w.arithmetic), Some(40));
    assert_eq!(at(6, w.arithmetic), None);
    assert_eq!(at(1, w.arithmetic), Some(50));
    assert_eq!(at(3, w.io), Some(50));
    assert_eq!(at(3, w.throwable), Some(50));
    assert_eq!(at(8, w.io), Some(30));
    assert_eq!(at(11, w.io), Some(30));
    assert_eq!(at(12, w.io), None);
    assert_eq!(at(8, w.arithmetic), None);
}

#[test]
fn an_exception_in_a_try_block_goes_to_its_handler() {
    let mut w = world();
    let ex = w.vm.new_inst(w.arithmetic);
    let mut thread = JavaThread::new();
    let mut frame = Frame::new(w.callee, 2, 1, &vec![]);
    let one = w.vm.heap.new_int(1);
    let zero = w.vm.heap.new_int(0);
    frame.stack.push(one);
    frame.stack.push(zero);
    frame.pc = 4;
    thread.push_frame(frame);
    assert!(!thread.is_meet_ex());
    thread.set_ex(ex);
    assert!(thread.is_meet_ex());
    assert_eq!(thread.unwind(&w.vm), Unwound::Caught);
    assert!(!thread.is_meet_ex());
    assert_eq!(thread.frames.len(), 1);
    let mut frame = thread.pop_frame().unwrap();
    assert_eq!(frame.pc, 40);
    assert_eq!(frame.method, w.callee);
    assert_eq!(frame.stack.len(), 1);
    assert_eq!(frame.stack.pop_ref(), ex);
}

#[test]
fn an_exception_without_handler_drops_frames_until_one_catches() {
    let mut w = world();
    let ex = w.vm.new_inst(w.io);
    let mut thread = JavaThread::new();
    let mut outer = Frame::new(w.caller, 2, 1, &vec![]);
    outer.pc = 3;
    let mut inner = Frame::new(w.callee, 2, 1, &vec![]);
    inner.pc = 7;
    thread.push_frame(outer);
    thread.push_frame(inner);
    thread.set_ex(ex);
    assert_eq!(thread.unwind(&w.vm), Unwound::Popped);
    assert_eq!(thread.frames.len(), 1);
    assert_eq!(thread.ex, Some(ex));
    assert_eq!(thread.unwind(&w.vm), Unwound::Caught);
    assert_eq!(thread.frames.len(), 1);
    assert_eq!(thread.frames[0].pc, 20);
    assert_eq!(thread.ex, None);
}

#[test]
fn an_exception_that_nothing_catches_leaves_no_frame() {
    let mut w = world();
    let ex = w.vm.new_inst(w.arithmetic);
    let mut thread = JavaThread::new();
    let mut outer = Frame::new(w.caller, 2, 1, &vec![]);
    outer.pc = 3;
    thread.push_frame(outer);
    thread.set_ex(ex);
    assert_eq!(thread.unwind(&w.vm), Unwound::Uncaught);
    assert_eq!(thread.frames.len(), 0);
    assert_eq!(thread.take_ex(), Some(ex));
    assert_eq!(thread.take_ex(), None);
    assert!(thread.pop_frame().is_none());
}

#[test]
fn a_handler_catches_what_implements_its_interface() {
    let mut vm = Vm::new();
    let object = vm.define_class(b"java/lang/Object".to_vec(), None, vec![], vec![]);
    let marker = vm.define_class(b"Marker".to_vec(), Some(object), vec![], vec![]);
    let marked = vm.define_class_implementing(b"Marked".to_vec(), Some(object), vec![marker], vec![], vec![]);
    let handlers = vec![Handler { start_pc: 0, end_pc: 9, handler_pc: 9, catch_type: Some(marker) }];
    assert_eq!(find_handler(&vm.classes, &handlers, 3, marked).map(|h| h.handler_pc), Some(9));
    assert_eq!(find_handler(&vm.classes, &handlers, 3, object), None);
}
