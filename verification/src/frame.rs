//! The frame of one invocation, and the search for the handler of an
//! exception.

use vstd::prelude::*;
use crate::class::{assignable, ClassArea, ClassView, Handler, MethodRef};
use crate::oop::{null_ref, ClassId, OopRef};
use crate::stack::Stack;

verus! {

/// The activation record of one invocation: the method that runs, its
/// operand stack, its local variables and the place of the instruction
/// that it is at.
pub struct Frame {
    pub method: MethodRef,
    pub stack: Stack,
    pub locals: Vec<OopRef>,
    pub pc: usize,
}

/// The mathematical value of a frame.
pub struct FrameView {
    pub method: MethodRef,
    pub stack: Seq<OopRef>,
    pub max_stack: nat,
    pub locals: Seq<OopRef>,
    pub pc: usize,
}

impl View for Frame {
    type V = FrameView;

    open spec fn view(&self) -> FrameView {
        FrameView {
            method: self.method,
            stack: self.stack@,
            max_stack: self.stack.capacity(),
            locals: self.locals@,
            pc: self.pc,
        }
    }
}

/// The local variables of a new frame: the arguments first, the null cell
/// in each variable after them.
pub open spec fn initial_locals(args: Seq<OopRef>, max_locals: nat) -> Seq<OopRef> {
    Seq::new(
        max_locals,
        |i: int|
            if i < args.len() {
                args[i]
            } else {
                null_ref()
            },
    )
}

impl Frame {
    /// The frame's invariant: the stack holds no more than it may.
    pub open spec fn wf(&self) -> bool {
        self.stack.wf()
    }

    /// A frame for an invocation of `method` with `args`: an empty stack
    /// of at most `max_stack` entries, `max_locals` local variables that
    /// hold the arguments from variable 0 on, and the place 0.
    pub fn new(method: MethodRef, max_stack: usize, max_locals: usize, args: &Vec<OopRef>) -> (frame:
        Frame)
        requires
            args@.len() <= max_locals,
        ensures
            frame.wf(),
            frame@ == (FrameView {
                method,
                stack: Seq::empty(),
                max_stack: max_stack as nat,
                locals: initial_locals(args@, max_locals as nat),
                pc: 0,
            }),
    {
        let mut locals: Vec<OopRef> = Vec::new();
        let mut i: usize = 0;
        while i < max_locals
            invariant
                i <= max_locals,
                args@.len() <= max_locals,
                locals@ == initial_locals(args@, max_locals as nat).take(i as int),
            decreases max_locals - i,
        {
            if i < args.len() {
                locals.push(args[i]);
            } else {
                locals.push(OopRef { cell: 0 });
            }
            assert(locals@ =~= initial_locals(args@, max_locals as nat).take(i + 1));
            i = i + 1;
        }
        assert(initial_locals(args@, max_locals as nat).take(max_locals as int) =~= initial_locals(
            args@,
            max_locals as nat,
        ));
        Frame { method, stack: Stack::new(max_stack), locals, pc: 0 }
    }
}

/// Whether the handler `h` catches an exception of class `thrown` that is
/// raised at `pc`.
pub open spec fn handler_catches(classes: Seq<ClassView>, h: Handler, pc: int, thrown: ClassId)
    -> bool {
    h.start_pc <= pc < h.end_pc && match h.catch_type {
        None => true,
        Some(c) => assignable(classes, thrown.index as int, c.index as int),
    }
}

/// The first handler of `handlers` from `from` on that catches an
/// exception of class `thrown` raised at `pc`.
pub open spec fn first_handler(
    classes: Seq<ClassView>,
    handlers: Seq<Handler>,
    pc: int,
    thrown: ClassId,
    from: int,
) -> Option<Handler>
    decreases handlers.len() - from,
{
    if from < 0 || from >= handlers.len() {
        None
    } else if handler_catches(classes, handlers[from], pc, thrown) {
        Some(handlers[from])
    } else {
        first_handler(classes, handlers, pc, thrown, from + 1)
    }
}

/// The first handler of `handlers` that catches an exception of class
/// `thrown` raised at `pc`.
pub fn find_handler(classes: &ClassArea, handlers: &Vec<Handler>, pc: usize, thrown: ClassId) -> (r:
    Option<Handler>)
    requires
        classes.wf(),
        classes.contains(thrown),
    ensures
        r == first_handler(classes@, handlers@, pc as int, thrown, 0),
{
    let mut i: usize = 0;
    while i < handlers.len()
        invariant
            classes.wf(),
            classes.contains(thrown),
            i <= handlers@.len(),
            first_handler(classes@, handlers@, pc as int, thrown, 0) == first_handler(
                classes@,
                handlers@,
                pc as int,
                thrown,
                i as int,
            ),
        decreases handlers@.len() - i,
    {
        let h = handlers[i];
        if h.start_pc as usize <= pc && pc < h.end_pc as usize {
            let catches = match h.catch_type {
                None => true,
                Some(c) => classes.is_assignable(thrown, c),
            };
            if catches {
                return Some(h);
            }
        }
        i = i + 1;
    }
    None
}

} // verus!
