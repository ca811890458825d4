//! Calls across the boundary between Java and native code: taking the
//! arguments of a call from the caller's stack, entering the frame of the
//! callee, handing back what the callee returns, and raising what a native
//! method raises.

use vstd::prelude::*;
use vstd::string::StringSliceAdditionalSpecFns;
use crate::class::{first_class, method_exists, ClassView, MethodRef};
use crate::classfile::signature::{parsed_method_descriptor, MethodSignature};
use crate::frame::{initial_locals, Frame, FrameView};
use crate::native::{Exception, JNIResult};
use crate::oop::{default_ref, OopRef, OopView};
use crate::runtime::{Vm, VmView};
use crate::stack::Stack;
use crate::thread::{JavaThread, JavaThreadView};
use crate::trans::access_flag::{has_flag, is_static, ACC_NATIVE, ACC_STATIC};

verus! {

/// A call of a method with its arguments. The receiver, if the method has
/// one, is the first argument.
#[derive(Debug)]
pub struct JavaCall {
    pub mir: MethodRef,
    pub args: Vec<OopRef>,
}

/// The number of arguments that a call of the method `mir` takes: one for
/// each parameter of its descriptor, and one more for the receiver unless
/// the method is static. There is none where the descriptor is no method
/// descriptor.
pub open spec fn argument_count(classes: Seq<ClassView>, mir: MethodRef) -> Option<nat> {
    let m = classes[mir.class.index as int].methods[mir.index as int];
    match parsed_method_descriptor(m.desc) {
        Some(sig) => Some(
            sig.args.len() + if has_flag(m.acc_flags, ACC_STATIC) {
                0nat
            } else {
                1nat
            },
        ),
        None => None,
    }
}

/// Whether the method `mir` is native.
pub open spec fn is_native_method(classes: Seq<ClassView>, mir: MethodRef) -> bool {
    has_flag(classes[mir.class.index as int].methods[mir.index as int].acc_flags, ACC_NATIVE)
}

impl JavaCall {
    /// A call of `mir` with `args`.
    pub fn new_with_args(mir: MethodRef, args: Vec<OopRef>) -> (call: JavaCall)
        ensures
            call.mir == mir,
            call.args == args,
    {
        JavaCall { mir, args }
    }

    /// A call of `mir` with the arguments that the caller has put on its
    /// stack, the first one deepest. The arguments are taken from the
    /// stack. Where the descriptor of the method is none, or the stack
    /// holds fewer entries than the call takes, there is no call and the
    /// stack stays as it is.
    pub fn new(vm: &Vm, caller: &mut Stack, mir: MethodRef) -> (r: Option<JavaCall>)
        requires
            method_exists(vm@.classes, mir),
            old(caller).wf(),
        ensures
            final(caller).wf(),
            final(caller).capacity() == old(caller).capacity(),
            match argument_count(vm@.classes, mir) {
                Some(n) => if n <= old(caller)@.len() {
                    &&& r matches Some(call)
                    &&& call.mir == mir
                    &&& call.args@ == old(caller)@.subrange(
                        old(caller)@.len() - n,
                        old(caller)@.len() as int,
                    )
                    &&& final(caller)@ == old(caller)@.take(old(caller)@.len() - n)
                } else {
                    r is None && final(caller)@ == old(caller)@
                },
                None => r is None && final(caller)@ == old(caller)@,
            },
    {
        let method = vm.classes.method(mir);
        let signature = match MethodSignature::new(method.desc.as_slice()) {
            Some(signature) => signature,
            None => {
                return None;
            },
        };
        let n = if is_static(method.acc_flags) {
            signature.args.len()
        } else {
            assert(method.desc@.len() == method.desc.len());
            signature.args.len() + 1
        };
        let depth = caller.len();
        if n > depth {
            return None;
        }
        let mut args: Vec<OopRef> = Vec::new();
        let mut i: usize = 0;
        while i < n
            invariant
                caller.wf(),
                caller.capacity() == old(caller).capacity(),
                depth == old(caller)@.len(),
                n <= depth,
                i <= n,
                caller@ == old(caller)@.take(depth - i),
                args@ == old(caller)@.subrange(depth - i, depth as int).reverse(),
            decreases n - i,
        {
            let v = caller.pop_ref();
            proof {
                let all = old(caller)@;
                assert(caller@ =~= all.take(depth - i - 1));
                assert(v == all[depth - i - 1]);
                assert(all.subrange(depth - i, depth as int).reverse().push(v) =~= all.subrange(
                    depth - i - 1,
                    depth as int,
                ).reverse());
            }
            args.push(v);
            i = i + 1;
        }
        let mut ordered: Vec<OopRef> = Vec::new();
        let mut k: usize = 0;
        let ghost taken = old(caller)@.subrange(depth - n, depth as int);
        while k < n
            invariant
                k <= n,
                taken.len() == n,
                args@ == taken.reverse(),
                ordered@ == taken.take(k as int),
            decreases n - k,
        {
            ordered.push(args[n - 1 - k]);
            assert(ordered@ =~= taken.take(k + 1));
            k = k + 1;
        }
        assert(taken.take(n as int) =~= taken);
        Some(JavaCall { mir, args: ordered })
    }

    /// Whether the method that is called is native.
    pub fn is_native(&self, vm: &Vm) -> (r: bool)
        requires
            method_exists(vm@.classes, self.mir),
        ensures
            r == is_native_method(vm@.classes, self.mir),
    {
        vm.classes.method(self.mir).acc_flags & ACC_NATIVE != 0
    }

    /// Enters the method that is called: a frame of its size, with the
    /// arguments in its first local variables, becomes the current frame of
    /// the thread. A call with more arguments than the method has local
    /// variables is not entered, and the thread stays as it is.
    pub fn enter(&self, vm: &Vm, thread: &mut JavaThread) -> (entered: bool)
        requires
            method_exists(vm@.classes, self.mir),
        ensures
            ({
                let m = vm@.classes[self.mir.class.index as int].methods[self.mir.index as int];
                if self.args@.len() <= m.max_locals {
                    entered && final(thread)@ == (JavaThreadView {
                        frames: old(thread)@.frames.push(
                            FrameView {
                                method: self.mir,
                                stack: Seq::empty(),
                                max_stack: m.max_stack as nat,
                                locals: initial_locals(self.args@, m.max_locals as nat),
                                pc: 0,
                            },
                        ),
                        ..old(thread)@
                    })
                } else {
                    !entered && final(thread)@ == old(thread)@
                }
            }),
    {
        let method = vm.classes.method(self.mir);
        if self.args.len() > method.max_locals as usize {
            return false;
        }
        let frame = Frame::new(
            self.mir,
            method.max_stack as usize,
            method.max_locals as usize,
            &self.args,
        );
        thread.push_frame(frame);
        true
    }
}

/// The callee has returned: its frame is dropped, and the value that it
/// returns, if it returns one, is put on the stack of its caller.
pub fn leave(thread: &mut JavaThread, stack: &mut Stack, value: Option<OopRef>)
    requires
        old(thread)@.frames.len() > 0,
        old(stack).wf(),
        value is Some ==> old(stack)@.len() < old(stack).capacity(),
    ensures
        final(thread)@ == (JavaThreadView {
            frames: old(thread)@.frames.drop_last(),
            ..old(thread)@
        }),
        final(stack).wf(),
        final(stack).capacity() == old(stack).capacity(),
        final(stack)@ == match value {
            Some(v) => old(stack)@.push(v),
            None => old(stack)@,
        },
{
    thread.pop_frame();
    match value {
        Some(v) => {
            stack.push(v);
        },
        None => {},
    }
}

/// The name of the class of an exception that the machine raises.
pub open spec fn exception_class(e: Exception) -> &'static str {
    match e {
        Exception::NullPointerException => "java/lang/NullPointerException",
        Exception::ArrayIndexOutOfBoundsException => "java/lang/ArrayIndexOutOfBoundsException",
        Exception::ArrayStoreException => "java/lang/ArrayStoreException",
        Exception::ClassCastException => "java/lang/ClassCastException",
        Exception::ArithmeticException => "java/lang/ArithmeticException",
        Exception::OutOfMemoryError => "java/lang/OutOfMemoryError",
        Exception::StackOverflowError => "java/lang/StackOverflowError",
        Exception::NoClassDefFoundError => "java/lang/NoClassDefFoundError",
        Exception::UnsatisfiedLinkError => "java/lang/UnsatisfiedLinkError",
    }
}

/// The name of the class of an exception that the machine raises.
pub fn exception_class_name(e: Exception) -> (name: &'static str)
    ensures
        name == exception_class(e),
{
    match e {
        Exception::NullPointerException => "java/lang/NullPointerException",
        Exception::ArrayIndexOutOfBoundsException => "java/lang/ArrayIndexOutOfBoundsException",
        Exception::ArrayStoreException => "java/lang/ArrayStoreException",
        Exception::ClassCastException => "java/lang/ClassCastException",
        Exception::ArithmeticException => "java/lang/ArithmeticException",
        Exception::OutOfMemoryError => "java/lang/OutOfMemoryError",
        Exception::StackOverflowError => "java/lang/StackOverflowError",
        Exception::NoClassDefFoundError => "java/lang/NoClassDefFoundError",
        Exception::UnsatisfiedLinkError => "java/lang/UnsatisfiedLinkError",
    }
}

/// What has become of the result of a native method.
#[derive(Clone, Copy, PartialEq, Eq, Structural, Debug)]
pub enum Delivered {
    /// The method has returned; its value, if it has one, is on the stack.
    Returned,
    /// The method has raised an exception, which is in flight now.
    Raised,
    /// The method has raised this exception, but the class of the
    /// exception is not loaded, so nothing is in flight.
    Unloaded(Exception),
}

/// What delivering the result of a native method does: a value is put on
/// the stack; an exception is made as a new instance of its class and put
/// in flight.
pub open spec fn delivered(
    vm: VmView,
    thread: JavaThreadView,
    stack: Seq<OopRef>,
    result: JNIResult,
) -> (VmView, JavaThreadView, Seq<OopRef>, Delivered) {
    match result {
        Ok(Some(v)) => (vm, thread, stack.push(v), Delivered::Returned),
        Ok(None) => (vm, thread, stack, Delivered::Returned),
        Err(e) => match first_class(vm.classes, exception_class(e).spec_bytes(), 0) {
            Some(class) => (
                VmView {
                    heap: vm.heap.push(
                        OopView::Inst {
                            class,
                            field_values: vm.classes[class.index as int].layout.map_values(
                                |d: Seq<u8>| default_ref(d),
                            ),
                        },
                    ),
                    ..vm
                },
                JavaThreadView { ex: Some(OopRef { cell: vm.heap.len() as usize }), ..thread },
                stack,
                Delivered::Raised,
            ),
            None => (vm, thread, stack, Delivered::Unloaded(e)),
        },
    }
}

/// Delivers the result of a native method to its caller.
pub fn deliver(vm: &mut Vm, thread: &mut JavaThread, stack: &mut Stack, result: JNIResult) -> (r:
    Delivered)
    requires
        old(vm).wf(),
        old(stack).wf(),
        result matches Ok(Some(_)) ==> old(stack)@.len() < old(stack).capacity(),
    ensures
        final(vm).wf(),
        final(stack).wf(),
        final(stack).capacity() == old(stack).capacity(),
        (final(vm)@, final(thread)@, final(stack)@, r) == delivered(
            old(vm)@,
            old(thread)@,
            old(stack)@,
            result,
        ),
{
    match result {
        Ok(Some(v)) => {
            stack.push(v);
            Delivered::Returned
        },
        Ok(None) => Delivered::Returned,
        Err(e) => match vm.classes.find_class(exception_class_name(e).as_bytes()) {
            Some(class) => {
                let ex = vm.new_inst(class);
                thread.set_ex(ex);
                Delivered::Raised
            },
            None => Delivered::Unloaded(e),
        },
    }
}

} // verus!
