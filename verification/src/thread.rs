//! The state of one thread: its chain of frames and the exception that is
//! in flight.

use vstd::prelude::*;
use crate::class::{method_exists, ClassView};
use crate::frame::{first_handler, find_handler, Frame, FrameView};
use crate::oop::{ClassId, Oop, OopRef, OopView};
use crate::runtime::Vm;

verus! {

/// The state of one thread. The frame of the invocation that runs is the
/// last of `frames`.
pub struct JavaThread {
    pub frames: Vec<Frame>,
    pub ex: Option<OopRef>,
}

/// The mathematical value of a thread.
pub struct JavaThreadView {
    pub frames: Seq<FrameView>,
    pub ex: Option<OopRef>,
}

impl View for JavaThread {
    type V = JavaThreadView;

    open spec fn view(&self) -> JavaThreadView {
        JavaThreadView { frames: self.frames@.map_values(|f: Frame| f@), ex: self.ex }
    }
}

/// What one step of unwinding has come to.
#[derive(Clone, Copy, PartialEq, Eq, Structural, Debug)]
pub enum Unwound {
    /// A handler of the current frame takes the exception.
    Caught,
    /// The current frame had no handler and is gone; its caller is the
    /// current frame now and the exception is still in flight.
    Popped,
    /// The last frame had no handler and is gone; the exception is still
    /// in flight and nothing is left to catch it.
    Uncaught,
}

/// The frame `f` as the handler at `handler_pc` finds it: the exception
/// alone on the stack, and the place of the handler.
pub open spec fn frame_at_handler(f: FrameView, handler_pc: u16, ex: OopRef) -> FrameView {
    FrameView { stack: seq![ex], pc: handler_pc as usize, ..f }
}

/// The thread after one step of unwinding, and what the step has come to.
///
/// The exception table of the current frame's method is searched for the
/// first handler that catches the exception at the frame's place. If there
/// is one, the exception is no longer in flight, and the frame goes on at
/// the handler with the exception alone on its stack. If there is none,
/// the frame is dropped.
pub open spec fn unwound(thread: JavaThreadView, heap: Seq<OopView>, classes: Seq<ClassView>) -> (
    JavaThreadView,
    Unwound,
) {
    let ex = thread.ex->Some_0;
    let top = thread.frames.last();
    let handlers = classes[top.method.class.index as int].methods[top.method.index as int].handlers;
    match first_handler(classes, handlers, top.pc as int, heap[ex.cell as int]->Inst_class, 0) {
        Some(h) => (
            JavaThreadView {
                frames: thread.frames.drop_last().push(frame_at_handler(top, h.handler_pc, ex)),
                ex: None,
            },
            Unwound::Caught,
        ),
        None => (
            JavaThreadView { frames: thread.frames.drop_last(), ex: thread.ex },
            if thread.frames.len() == 1 {
                Unwound::Uncaught
            } else {
                Unwound::Popped
            },
        ),
    }
}

impl JavaThread {
    /// A thread without frames and without an exception in flight.
    pub fn new() -> (thread: JavaThread)
        ensures
            thread@ == (JavaThreadView { frames: Seq::empty(), ex: None }),
    {
        let thread = JavaThread { frames: Vec::new(), ex: None };
        assert(thread@.frames =~= Seq::<FrameView>::empty());
        thread
    }

    /// Whether an exception is in flight.
    pub fn is_meet_ex(&self) -> (r: bool)
        ensures
            r == self.ex is Some,
    {
        self.ex.is_some()
    }

    /// Puts the exception `ex` in flight.
    pub fn set_ex(&mut self, ex: OopRef)
        ensures
            final(self)@ == (JavaThreadView { ex: Some(ex), ..old(self)@ }),
    {
        self.ex = Some(ex);
    }

    /// Takes the exception out of flight, and gives it back if there was
    /// one.
    pub fn take_ex(&mut self) -> (ex: Option<OopRef>)
        ensures
            ex == old(self).ex,
            final(self)@ == (JavaThreadView { ex: None, ..old(self)@ }),
    {
        let ex = self.ex;
        self.ex = None;
        ex
    }

    /// Makes `frame` the current frame.
    pub fn push_frame(&mut self, frame: Frame)
        ensures
            final(self)@ == (JavaThreadView {
                frames: old(self)@.frames.push(frame@),
                ..old(self)@
            }),
    {
        self.frames.push(frame);
        assert(self@.frames =~= old(self)@.frames.push(frame@));
    }

    /// Drops the current frame and gives it back, if there is one.
    pub fn pop_frame(&mut self) -> (frame: Option<Frame>)
        ensures
            match frame {
                Some(f) => old(self)@.frames.len() > 0 && f@ == old(self)@.frames.last()
                    && final(self)@ == (JavaThreadView {
                    frames: old(self)@.frames.drop_last(),
                    ..old(self)@
                }),
                None => old(self)@.frames.len() == 0 && final(self)@ == old(self)@,
            },
    {
        let frame = self.frames.pop();
        proof {
            if old(self).frames@.len() > 0 {
                assert(self@.frames =~= old(self)@.frames.drop_last());
            } else {
                assert(self@.frames =~= old(self)@.frames);
            }
        }
        frame
    }

    /// Whether the thread can take a step of unwinding: an exception that
    /// is an instance is in flight, there is a current frame, its method is
    /// one of `vm`, and its stack has room for one entry.
    pub open spec fn can_unwind(&self, vm: &Vm) -> bool {
        &&& self.ex matches Some(ex) && vm.heap.contains(ex) && vm@.heap[ex.cell as int] is Inst
        &&& self@.frames.len() > 0
        &&& method_exists(vm@.classes, self@.frames.last().method)
        &&& self@.frames.last().max_stack >= 1
    }

    /// One step of unwinding.
    pub fn unwind(&mut self, vm: &Vm) -> (r: Unwound)
        requires
            vm.wf(),
            old(self).can_unwind(vm),
        ensures
            (final(self)@, r) == unwound(old(self)@, vm@.heap, vm@.classes),
    {
        let ex = match self.ex {
            Some(ex) => ex,
            None => OopRef { cell: 0 },
        };
        let thrown = match vm.heap.get(ex) {
            Oop::Inst { class, .. } => *class,
            _ => ClassId { index: 0 },
        };
        assert(crate::runtime::cell_fits(vm.heap@[ex.cell as int], vm.classes@));
        let n = self.frames.len();
        let ghost before = self@;
        assert(before.frames.last() == self.frames@[n - 1]@);
        let method = vm.classes.method(self.frames[n - 1].method);
        match find_handler(&vm.classes, &method.handlers, self.frames[n - 1].pc, thrown) {
            Some(h) => {
                self.ex = None;
                self.frames[n - 1].stack.clear();
                self.frames[n - 1].stack.push(ex);
                self.frames[n - 1].pc = h.handler_pc as usize;
                assert(self.frames@[n - 1]@.stack =~= seq![ex]);
                assert(self@.frames =~= before.frames.drop_last().push(
                    frame_at_handler(before.frames.last(), h.handler_pc, ex),
                ));
                Unwound::Caught
            },
            None => {
                self.frames.pop();
                assert(self@.frames =~= before.frames.drop_last());
                if n == 1 {
                    Unwound::Uncaught
                } else {
                    Unwound::Popped
                }
            },
        }
    }
}

} // verus!
