//! The bridge to native methods: what a native method is called with, what
//! it gives back, and the table entries that a class registers.

#![allow(non_snake_case)]

pub mod dispatch;
pub mod java_lang_System;
pub mod sun_misc_Unsafe;

use vstd::prelude::*;
use crate::class::MethodRef;
use crate::oop::{ClassId, OopRef, OopView};

verus! {

/// The Java exceptions that the machine itself raises.
#[derive(Clone, Copy, PartialEq, Eq, Structural, Debug)]
pub enum Exception {
    NullPointerException,
    ArrayIndexOutOfBoundsException,
    ArrayStoreException,
    ClassCastException,
    ArithmeticException,
    OutOfMemoryError,
    StackOverflowError,
    NoClassDefFoundError,
    UnsatisfiedLinkError,
}

/// What a native method gives back: a value, nothing, or an exception.
pub type JNIResult = Result<Option<OopRef>, Exception>;

/// What a native method learns of its caller: the class that declares it.
#[derive(Clone, Copy, PartialEq, Eq, Structural, Debug)]
pub struct JNIEnv {
    pub class: ClassId,
}

/// The native methods that the machine brings with it.
#[derive(Clone, Copy, PartialEq, Eq, Structural, Debug)]
pub enum NativeFn {
    SystemArraycopy,
    SystemRegisterNatives,
    SystemInitProperties,
    SystemSetIn0,
    SystemSetOut0,
    SystemSetErr0,
    UnsafeRegisterNatives,
    UnsafeArrayBaseOffset,
    UnsafeArrayIndexScale,
    UnsafeAddressSize,
    UnsafeObjectFieldOffset,
    UnsafeCompareAndSwapObject,
    UnsafeGetIntVolatile,
    UnsafeCompareAndSwapInt,
    UnsafeAllocateMemory,
    UnsafeFreeMemory,
    UnsafePutLong,
    UnsafeGetByte,
    UnsafeCompareAndSwapLong,
    UnsafeGetObjectVolatile,
    UnsafePageSize,
    UnsafeGetLongVolatile,
    UnsafeSetMemory,
    UnsafePutChar,
}

/// One entry of a class's table of native methods: the name and the
/// descriptor that Java code calls, and the native method that runs.
#[derive(Clone, Copy, PartialEq, Eq, Debug)]
pub struct JNINativeMethod {
    pub name: &'static str,
    pub desc: &'static str,
    pub fnptr: NativeFn,
}

/// A table entry.
pub fn new_fn(name: &'static str, desc: &'static str, fnptr: NativeFn) -> (entry: JNINativeMethod)
    ensures
        entry == (JNINativeMethod { name, desc, fnptr }),
{
    JNINativeMethod { name, desc, fnptr }
}

/// A call of a Java method that a native method asks its caller to make.
#[derive(Clone, PartialEq, Eq, Debug)]
pub struct Invocation {
    pub method: MethodRef,
    pub args: Vec<OopRef>,
}

pub struct InvocationView {
    pub method: MethodRef,
    pub args: Seq<OopRef>,
}

impl View for Invocation {
    type V = InvocationView;

    open spec fn view(&self) -> InvocationView {
        InvocationView { method: self.method, args: self.args@ }
    }
}

/// Whether argument `i` is there and denotes a cell of `heap`.
pub open spec fn arg_present(heap: Seq<OopView>, args: Seq<OopRef>, i: int) -> bool {
    0 <= i < args.len() && args[i].cell < heap.len()
}

/// Whether argument `i` is there and denotes an `Int` cell.
pub open spec fn arg_is_int(heap: Seq<OopView>, args: Seq<OopRef>, i: int) -> bool {
    arg_present(heap, args, i) && heap[args[i].cell as int] is Int
}

/// Whether argument `i` is there and denotes a `Long` cell.
pub open spec fn arg_is_long(heap: Seq<OopView>, args: Seq<OopRef>, i: int) -> bool {
    arg_present(heap, args, i) && heap[args[i].cell as int] is Long
}

/// The value of the `Int` cell that argument `i` denotes.
pub open spec fn int_arg(heap: Seq<OopView>, args: Seq<OopRef>, i: int) -> i32 {
    heap[args[i].cell as int]->Int_0
}

/// The value of the `Long` cell that argument `i` denotes.
pub open spec fn long_arg(heap: Seq<OopView>, args: Seq<OopRef>, i: int) -> i64 {
    heap[args[i].cell as int]->Long_0
}

} // verus!
