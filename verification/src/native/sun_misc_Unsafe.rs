//! The native methods of `sun.misc.Unsafe`.
//!
//! An offset is a slot: `objectFieldOffset` gives the slot of a field, and
//! every access by offset indexes the fields of an instance or a mirror,
//! or the elements of an array, by it. Each compare-and-swap is one step on
//! the heap, so no other access comes between its read and its write.
//!
//! The methods that work on memory outside the heap do not touch that
//! memory themselves. They say what is to be done to it, as a
//! [`MemoryRequest`], and the caller does it.

#![allow(non_snake_case)]

use vstd::prelude::*;
use crate::native::{
    arg_is_int, arg_is_long, arg_present, int_arg, long_arg, new_fn, Exception, JNIEnv,
    JNINativeMethod, JNIResult, NativeFn,
};
use crate::oop::{if_acmpeq, slots, with_slot, Heap, Oop, OopRef, OopView};
use crate::runtime::{
    cell_fits, field_offset, lemma_cells_fit_with_cell, lemma_cells_fit_with_slot, reflects_field,
    Vm, VmView,
};

verus! {

/// The table of the native methods of `sun.misc.Unsafe`.
pub open spec fn unsafe_native_methods() -> Seq<JNINativeMethod> {
    seq![
        JNINativeMethod {
            name: "registerNatives",
            desc: "()V",
            fnptr: NativeFn::UnsafeRegisterNatives,
        },
        JNINativeMethod {
            name: "arrayBaseOffset",
            desc: "(Ljava/lang/Class;)I",
            fnptr: NativeFn::UnsafeArrayBaseOffset,
        },
        JNINativeMethod {
            name: "arrayIndexScale",
            desc: "(Ljava/lang/Class;)I",
            fnptr: NativeFn::UnsafeArrayIndexScale,
        },
        JNINativeMethod { name: "addressSize", desc: "()I", fnptr: NativeFn::UnsafeAddressSize },
        JNINativeMethod {
            name: "objectFieldOffset",
            desc: "(Ljava/lang/reflect/Field;)J",
            fnptr: NativeFn::UnsafeObjectFieldOffset,
        },
        JNINativeMethod {
            name: "compareAndSwapObject",
            desc: "(Ljava/lang/Object;JLjava/lang/Object;Ljava/lang/Object;)Z",
            fnptr: NativeFn::UnsafeCompareAndSwapObject,
        },
        JNINativeMethod {
            name: "getIntVolatile",
            desc: "(Ljava/lang/Object;J)I",
            fnptr: NativeFn::UnsafeGetIntVolatile,
        },
        JNINativeMethod {
            name: "compareAndSwapInt",
            desc: "(Ljava/lang/Object;JII)Z",
            fnptr: NativeFn::UnsafeCompareAndSwapInt,
        },
        JNINativeMethod {
            name: "allocateMemory",
            desc: "(J)J",
            fnptr: NativeFn::UnsafeAllocateMemory,
        },
        JNINativeMethod { name: "freeMemory", desc: "(J)V", fnptr: NativeFn::UnsafeFreeMemory },
        JNINativeMethod { name: "putLong", desc: "(JJ)V", fnptr: NativeFn::UnsafePutLong },
        JNINativeMethod { name: "getByte", desc: "(J)B", fnptr: NativeFn::UnsafeGetByte },
        JNINativeMethod {
            name: "compareAndSwapLong",
            desc: "(Ljava/lang/Object;JJJ)Z",
            fnptr: NativeFn::UnsafeCompareAndSwapLong,
        },
        JNINativeMethod {
            name: "getObjectVolatile",
            desc: "(Ljava/lang/Object;J)Ljava/lang/Object;",
            fnptr: NativeFn::UnsafeGetObjectVolatile,
        },
        JNINativeMethod { name: "pageSize", desc: "()I", fnptr: NativeFn::UnsafePageSize },
        JNINativeMethod {
            name: "getLongVolatile",
            desc: "(Ljava/lang/Object;J)J",
            fnptr: NativeFn::UnsafeGetLongVolatile,
        },
        JNINativeMethod {
            name: "setMemory",
            desc: "(Ljava/lang/Object;JJB)V",
            fnptr: NativeFn::UnsafeSetMemory,
        },
        JNINativeMethod { name: "putChar", desc: "(JC)V", fnptr: NativeFn::UnsafePutChar },
    ]
}

/// The native methods that `sun.misc.Unsafe` registers.
pub fn get_native_methods() -> (table: Vec<JNINativeMethod>)
    ensures
        table@ == unsafe_native_methods(),
{
    let mut table: Vec<JNINativeMethod> = Vec::new();
    table.push(new_fn("registerNatives", "()V", NativeFn::UnsafeRegisterNatives));
    table.push(new_fn("arrayBaseOffset", "(Ljava/lang/Class;)I", NativeFn::UnsafeArrayBaseOffset));
    table.push(new_fn("arrayIndexScale", "(Ljava/lang/Class;)I", NativeFn::UnsafeArrayIndexScale));
    table.push(new_fn("addressSize", "()I", NativeFn::UnsafeAddressSize));
    table.push(
        new_fn(
            "objectFieldOffset",
            "(Ljava/lang/reflect/Field;)J",
            NativeFn::UnsafeObjectFieldOffset,
        ),
    );
    table.push(
        new_fn(
            "compareAndSwapObject",
            "(Ljava/lang/Object;JLjava/lang/Object;Ljava/lang/Object;)Z",
            NativeFn::UnsafeCompareAndSwapObject,
        ),
    );
    table.push(new_fn("getIntVolatile", "(Ljava/lang/Object;J)I", NativeFn::UnsafeGetIntVolatile));
    table.push(
        new_fn("compareAndSwapInt", "(Ljava/lang/Object;JII)Z", NativeFn::UnsafeCompareAndSwapInt),
    );
    table.push(new_fn("allocateMemory", "(J)J", NativeFn::UnsafeAllocateMemory));
    table.push(new_fn("freeMemory", "(J)V", NativeFn::UnsafeFreeMemory));
    table.push(new_fn("putLong", "(JJ)V", NativeFn::UnsafePutLong));
    table.push(new_fn("getByte", "(J)B", NativeFn::UnsafeGetByte));
    table.push(
        new_fn(
            "compareAndSwapLong",
            "(Ljava/lang/Object;JJJ)Z",
            NativeFn::UnsafeCompareAndSwapLong,
        ),
    );
    table.push(
        new_fn(
            "getObjectVolatile",
            "(Ljava/lang/Object;J)Ljava/lang/Object;",
            NativeFn::UnsafeGetObjectVolatile,
        ),
    );
    table.push(new_fn("pageSize", "()I", NativeFn::UnsafePageSize));
    table.push(
        new_fn("getLongVolatile", "(Ljava/lang/Object;J)J", NativeFn::UnsafeGetLongVolatile),
    );
    table.push(new_fn("setMemory", "(Ljava/lang/Object;JJB)V", NativeFn::UnsafeSetMemory));
    table.push(new_fn("putChar", "(JC)V", NativeFn::UnsafePutChar));
    assert(table@ =~= unsafe_native_methods());
    table
}

/// The machine `vm` with one more cell, which holds `cell`.
pub open spec fn vm_with_cell(vm: VmView, cell: OopView) -> VmView {
    VmView { heap: vm.heap.push(cell), ..vm }
}

/// What a native method gives back when it returns the cell that it has
/// just added to a heap of `len` cells.
pub open spec fn returns_new_cell(len: nat) -> JNIResult {
    Ok(Some(OopRef { cell: len as usize }))
}

/// Adds an `Int` cell to the heap and returns it.
fn return_int(vm: &mut Vm, v: i32) -> (r: JNIResult)
    requires
        old(vm).wf(),
    ensures
        final(vm).wf(),
        final(vm)@ == vm_with_cell(old(vm)@, OopView::Int(v)),
        r == returns_new_cell(old(vm)@.heap.len()),
{
    let ghost before = vm.heap@;
    let cell = vm.heap.new_int(v);
    proof {
        lemma_cells_fit_with_cell(before, OopView::Int(v), vm.classes@);
    }
    Ok(Some(cell))
}

/// Adds a `Long` cell to the heap and returns it.
fn return_long(vm: &mut Vm, v: i64) -> (r: JNIResult)
    requires
        old(vm).wf(),
    ensures
        final(vm).wf(),
        final(vm)@ == vm_with_cell(old(vm)@, OopView::Long(v)),
        r == returns_new_cell(old(vm)@.heap.len()),
{
    let ghost before = vm.heap@;
    let cell = vm.heap.new_long(v);
    proof {
        lemma_cells_fit_with_cell(before, OopView::Long(v), vm.classes@);
    }
    Ok(Some(cell))
}

/// `Unsafe.registerNatives()`: nothing is left to do.
pub fn jvm_registerNatives(vm: &mut Vm, _env: JNIEnv, _args: Vec<OopRef>) -> (r: JNIResult)
    ensures
        *final(vm) == *old(vm),
        r == Ok::<Option<OopRef>, Exception>(None),
{
    Ok(None)
}

/// `Unsafe.arrayBaseOffset(arrayClass)`: the offset of the first element
/// of an array, which is 0, as a new `Int` cell.
pub fn jvm_arrayBaseOffset(vm: &mut Vm, _env: JNIEnv, _args: Vec<OopRef>) -> (r: JNIResult)
    requires
        old(vm).wf(),
    ensures
        final(vm).wf(),
        final(vm)@ == vm_with_cell(old(vm)@, OopView::Int(0)),
        r == returns_new_cell(old(vm)@.heap.len()),
{
    return_int(vm, 0)
}

/// `Unsafe.arrayIndexScale(arrayClass)`: the distance between the offsets
/// of two neighbouring elements, which is 1, as a new `Int` cell.
pub fn jvm_arrayIndexScale(vm: &mut Vm, _env: JNIEnv, _args: Vec<OopRef>) -> (r: JNIResult)
    requires
        old(vm).wf(),
    ensures
        final(vm).wf(),
        final(vm)@ == vm_with_cell(old(vm)@, OopView::Int(1)),
        r == returns_new_cell(old(vm)@.heap.len()),
{
    return_int(vm, 1)
}

/// `Unsafe.addressSize()`: the size of a machine pointer in bytes, as a
/// new `Int` cell.
pub fn jvm_addressSize(vm: &mut Vm, _env: JNIEnv, _args: Vec<OopRef>) -> (r: JNIResult)
    requires
        old(vm).wf(),
    ensures
        final(vm).wf(),
        final(vm)@ == vm_with_cell(old(vm)@, OopView::Int((usize::BITS / 8) as i32)),
        r == returns_new_cell(old(vm)@.heap.len()),
{
    let size: u32 = usize::BITS / 8;
    return_int(vm, size as i32)
}

/// `Unsafe.pageSize()`: 4096, as a new `Int` cell.
pub fn jvm_pageSize(vm: &mut Vm, _env: JNIEnv, _args: Vec<OopRef>) -> (r: JNIResult)
    requires
        old(vm).wf(),
    ensures
        final(vm).wf(),
        final(vm)@ == vm_with_cell(old(vm)@, OopView::Int(4096)),
        r == returns_new_cell(old(vm)@.heap.len()),
{
    return_int(vm, 4 * 1024)
}

/// `Unsafe.objectFieldOffset(field)`: the slot of `field`, as a new `Long`
/// cell.
pub fn jvm_objectFieldOffset(vm: &mut Vm, _env: JNIEnv, args: Vec<OopRef>) -> (r: JNIResult)
    requires
        old(vm).wf(),
        args@.len() > 1,
        reflects_field(old(vm)@, args@[1]),
    ensures
        final(vm).wf(),
        final(vm)@ == vm_with_cell(old(vm)@, OopView::Long(field_offset(old(vm)@, args@[1]))),
        r == returns_new_cell(old(vm)@.heap.len()),
{
    let field = args[1];
    let v = match vm.classes.find_class("java/lang/reflect/Field".as_bytes()) {
        Some(class) => match vm.classes.get_field_id(
            class,
            "slot".as_bytes(),
            "I".as_bytes(),
            false,
        ) {
            Some(id) => {
                let value = vm.get_field_value(field, id);
                match vm.heap.get(value) {
                    Oop::Int(v) => *v,
                    _ => 0,
                }
            },
            None => 0,
        },
        None => 0,
    };
    return_long(vm, v as i64)
}

/// The offset of a field is stable: adding a cell to the heap, as every
/// query of an offset does, changes neither which cells are
/// `java.lang.reflect.Field` objects nor the offsets that they give.
pub proof fn lemma_field_offset_stable(vm: VmView, f: OopRef, cell: OopView)
    requires
        reflects_field(vm, f),
    ensures
        reflects_field(vm_with_cell(vm, cell), f),
        field_offset(vm_with_cell(vm, cell), f) == field_offset(vm, f),
{
}

/// Whether arguments 1 and 2 name a slot: argument 1 denotes a cell, and
/// argument 2 a `Long` cell whose value indexes the slots of that cell.
pub open spec fn names_slot(heap: Seq<OopView>, args: Seq<OopRef>) -> bool {
    &&& arg_present(heap, args, 1)
    &&& arg_is_long(heap, args, 2)
    &&& 0 <= long_arg(heap, args, 2) < slots(heap[args[1].cell as int]).len()
}

/// The handle in the slot that arguments 1 and 2 name.
pub open spec fn named_slot(heap: Seq<OopView>, args: Seq<OopRef>) -> OopRef {
    slots(heap[args[1].cell as int])[long_arg(heap, args, 2) as int]
}

/// The heap with `value` in the slot that arguments 1 and 2 name.
pub open spec fn with_named_slot(heap: Seq<OopView>, args: Seq<OopRef>, value: OopRef) -> Seq<
    OopView,
> {
    heap.update(
        args[1].cell as int,
        with_slot(heap[args[1].cell as int], long_arg(heap, args, 2) as int, value),
    )
}

/// The owner and the index of the slot that arguments 1 and 2 name.
fn slot_of_args(heap: &Heap, args: &Vec<OopRef>) -> (r: (OopRef, usize))
    requires
        names_slot(heap@, args@),
    ensures
        r.0 == args@[1],
        r.1 == long_arg(heap@, args@, 2),
{
    let owner = args[1];
    let offset = match heap.get(args[2]) {
        Oop::Long(v) => *v,
        _ => 0,
    };
    proof {
        heap.lemma_slots_bounded(owner);
    }
    (owner, offset as usize)
}

/// Reads the slot that arguments 1 and 2 name.
fn read_slot(vm: &Vm, args: &Vec<OopRef>) -> (r: JNIResult)
    requires
        vm.wf(),
        names_slot(vm@.heap, args@),
    ensures
        r == Ok::<Option<OopRef>, Exception>(Some(named_slot(vm@.heap, args@))),
{
    let (owner, index) = slot_of_args(&vm.heap, args);
    Ok(Some(vm.heap.get_slot(owner, index)))
}

/// `Unsafe.getIntVolatile(o, offset)`: the cell in slot `offset` of `o`.
pub fn jvm_getIntVolatile(vm: &mut Vm, _env: JNIEnv, args: Vec<OopRef>) -> (r: JNIResult)
    requires
        old(vm).wf(),
        names_slot(old(vm)@.heap, args@),
    ensures
        *final(vm) == *old(vm),
        r == Ok::<Option<OopRef>, Exception>(Some(named_slot(old(vm)@.heap, args@))),
{
    read_slot(vm, &args)
}

/// `Unsafe.getLongVolatile(o, offset)`: the cell in slot `offset` of `o`.
pub fn jvm_getLongVolatile(vm: &mut Vm, _env: JNIEnv, args: Vec<OopRef>) -> (r: JNIResult)
    requires
        old(vm).wf(),
        names_slot(old(vm)@.heap, args@),
    ensures
        *final(vm) == *old(vm),
        r == Ok::<Option<OopRef>, Exception>(Some(named_slot(old(vm)@.heap, args@))),
{
    read_slot(vm, &args)
}

/// `Unsafe.getObjectVolatile(o, offset)`: the cell in slot `offset` of `o`.
pub fn jvm_getObjectVolatile(vm: &mut Vm, _env: JNIEnv, args: Vec<OopRef>) -> (r: JNIResult)
    requires
        old(vm).wf(),
        names_slot(old(vm)@.heap, args@),
    ensures
        *final(vm) == *old(vm),
        r == Ok::<Option<OopRef>, Exception>(Some(named_slot(old(vm)@.heap, args@))),
{
    read_slot(vm, &args)
}

/// The machine after a compare-and-swap on the slot that arguments 1 and 2
/// name: where it `succeeds`, the slot holds argument 4; in either case the
/// heap has one more cell, which holds 1 for success and 0 for failure.
pub open spec fn vm_after_cas(vm: VmView, args: Seq<OopRef>, succeeds: bool) -> VmView {
    if succeeds {
        vm_with_cell(
            VmView { heap: with_named_slot(vm.heap, args, args[4]), ..vm },
            OopView::Int(1),
        )
    } else {
        vm_with_cell(vm, OopView::Int(0))
    }
}

/// Writes argument 4 to the named slot if `succeeds`, and returns the
/// outcome as a new `Int` cell.
fn finish_cas(vm: &mut Vm, args: &Vec<OopRef>, succeeds: bool) -> (r: JNIResult)
    requires
        old(vm).wf(),
        names_slot(old(vm)@.heap, args@),
        arg_present(old(vm)@.heap, args@, 4),
    ensures
        final(vm).wf(),
        final(vm)@ == vm_after_cas(old(vm)@, args@, succeeds),
        r == returns_new_cell(old(vm)@.heap.len()),
{
    if succeeds {
        let (owner, index) = slot_of_args(&vm.heap, args);
        let ghost before = vm.heap@;
        vm.heap.set_slot(owner, index, args[4]);
        proof {
            lemma_cells_fit_with_slot(before, owner.cell as int, index as int, args@[4], vm.classes@);
        }
        return_int(vm, 1)
    } else {
        return_int(vm, 0)
    }
}

/// `Unsafe.compareAndSwapObject(o, offset, expected, x)`.
///
/// If slot `offset` of `o` holds the very cell `expected`, the slot is
/// given `x` and the result is 1; else nothing is written and the result
/// is 0.
pub fn jvm_compareAndSwapObject(vm: &mut Vm, _env: JNIEnv, args: Vec<OopRef>) -> (r: JNIResult)
    requires
        old(vm).wf(),
        names_slot(old(vm)@.heap, args@),
        arg_present(old(vm)@.heap, args@, 3),
        arg_present(old(vm)@.heap, args@, 4),
    ensures
        final(vm).wf(),
        final(vm)@ == vm_after_cas(
            old(vm)@,
            args@,
            named_slot(old(vm)@.heap, args@) == args@[3],
        ),
        r == returns_new_cell(old(vm)@.heap.len()),
{
    let (owner, index) = slot_of_args(&vm.heap, &args);
    let current = vm.heap.get_slot(owner, index);
    let succeeds = if_acmpeq(current, args[3]);
    finish_cas(vm, &args, succeeds)
}

/// Whether the named slot and argument 3 both denote `Int` cells.
pub open spec fn int_cas_args(heap: Seq<OopView>, args: Seq<OopRef>) -> bool {
    &&& names_slot(heap, args)
    &&& named_slot(heap, args).cell < heap.len()
    &&& heap[named_slot(heap, args).cell as int] is Int
    &&& arg_is_int(heap, args, 3)
    &&& arg_present(heap, args, 4)
}

/// `Unsafe.compareAndSwapInt(o, offset, expected, x)`.
///
/// If the integer in slot `offset` of `o` equals `expected`, the slot is
/// given the cell `x` and the result is 1; else nothing is written and the
/// result is 0.
pub fn jvm_compareAndSwapInt(vm: &mut Vm, _env: JNIEnv, args: Vec<OopRef>) -> (r: JNIResult)
    requires
        old(vm).wf(),
        int_cas_args(old(vm)@.heap, args@),
    ensures
        final(vm).wf(),
        final(vm)@ == vm_after_cas(
            old(vm)@,
            args@,
            old(vm)@.heap[named_slot(old(vm)@.heap, args@).cell as int]->Int_0 == int_arg(
                old(vm)@.heap,
                args@,
                3,
            ),
        ),
        r == returns_new_cell(old(vm)@.heap.len()),
{
    let (owner, index) = slot_of_args(&vm.heap, &args);
    let expected = match vm.heap.get(args[3]) {
        Oop::Int(v) => *v,
        _ => 0,
    };
    let current = match vm.heap.get(vm.heap.get_slot(owner, index)) {
        Oop::Int(v) => *v,
        _ => 0,
    };
    finish_cas(vm, &args, current == expected)
}

/// A compare-and-swap whose expected value is the one in the slot returns
/// 1 and leaves the slot with the new cell; one whose expected value is
/// another returns 0 and leaves the slot as it was.
pub proof fn lemma_cas_int(vm: VmView, args: Seq<OopRef>)
    requires
        int_cas_args(vm.heap, args),
        vm.heap.len() < usize::MAX,
    ensures
        ({
            let current = vm.heap[named_slot(vm.heap, args).cell as int]->Int_0;
            let expected = int_arg(vm.heap, args, 3);
            let after = vm_after_cas(vm, args, current == expected);
            let result = OopRef { cell: vm.heap.len() as usize };
            &&& after.heap.len() == vm.heap.len() + 1
            &&& current == expected ==> after.heap[result.cell as int] == OopView::Int(1)
                && named_slot(after.heap, args) == args[4]
            &&& current != expected ==> after.heap[result.cell as int] == OopView::Int(0)
                && named_slot(after.heap, args) == named_slot(vm.heap, args)
                && after.heap[named_slot(after.heap, args).cell as int] == OopView::Int(current)
        }),
{
}

/// Of two compare-and-swaps on one slot that both expect the value in the
/// slot and both bring another value, exactly one succeeds, whichever
/// comes first: the first returns 1, and the second, run on what the first
/// has left, meets the value of the first and returns 0.
pub proof fn lemma_cas_int_one_winner(vm: VmView, first: Seq<OopRef>, second: Seq<OopRef>)
    requires
        int_cas_args(vm.heap, first),
        int_cas_args(vm.heap, second),
        first[1] == second[1],
        long_arg(vm.heap, first, 2) == long_arg(vm.heap, second, 2),
        int_arg(vm.heap, first, 3) == vm.heap[named_slot(vm.heap, first).cell as int]->Int_0,
        int_arg(vm.heap, second, 3) == int_arg(vm.heap, first, 3),
        vm.heap[first[4].cell as int] is Int,
        vm.heap[first[4].cell as int]->Int_0 != int_arg(vm.heap, first, 3),
    ensures
        ({
            let after = vm_after_cas(vm, first, true);
            &&& int_cas_args(after.heap, second)
            &&& after.heap[named_slot(after.heap, second).cell as int]->Int_0 != int_arg(
                after.heap,
                second,
                3,
            )
            &&& vm_after_cas(after, second, false).heap == after.heap.push(OopView::Int(0))
        }),
{
}

/// Whether `args` ask to raise by one the integer in slot `offset` of the
/// cell `owner`: they are the arguments of a compare-and-swap on that slot
/// whose new value is the expected value and one.
pub open spec fn is_increment(heap: Seq<OopView>, args: Seq<OopRef>, owner: OopRef, offset: i64) -> bool {
    &&& int_cas_args(heap, args)
    &&& args[1] == owner
    &&& long_arg(heap, args, 2) == offset
    &&& heap[args[4].cell as int] is Int
    &&& heap[args[4].cell as int]->Int_0 == int_arg(heap, args, 3) + 1
}

/// The integer in slot `offset` of the cell `owner`.
pub open spec fn slot_int(heap: Seq<OopView>, owner: OopRef, offset: i64) -> int {
    heap[slots(heap[owner.cell as int])[offset as int].cell as int]->Int_0 as int
}

/// The machine after `compareAndSwapInt` was called with `args`.
pub open spec fn after_cas_int(vm: VmView, args: Seq<OopRef>) -> VmView {
    vm_after_cas(
        vm,
        args,
        vm.heap[named_slot(vm.heap, args).cell as int]->Int_0 == int_arg(vm.heap, args, 3),
    )
}

/// Whether `compareAndSwapInt`, called with `args`, returns 1: the cell
/// that it returns is the one that it adds to the heap.
pub open spec fn cas_int_returns_one(vm: VmView, args: Seq<OopRef>) -> bool {
    after_cas_int(vm, args).heap[vm.heap.len() as int] == OopView::Int(1)
}

/// Whether slot `offset` of the cell `owner` holds an integer.
pub open spec fn holds_int(heap: Seq<OopView>, owner: OopRef, offset: i64) -> bool {
    &&& owner.cell < heap.len()
    &&& 0 <= offset < slots(heap[owner.cell as int]).len()
    &&& slots(heap[owner.cell as int])[offset as int].cell < heap.len()
    &&& heap[slots(heap[owner.cell as int])[offset as int].cell as int] is Int
}

/// One attempt to raise an integer by one raises it by one if it returns
/// 1 and leaves it as it is if it returns 0.
pub proof fn lemma_cas_increment(vm: VmView, call: Seq<OopRef>, owner: OopRef, offset: i64)
    requires
        is_increment(vm.heap, call, owner, offset),
    ensures
        holds_int(after_cas_int(vm, call).heap, owner, offset),
        slot_int(after_cas_int(vm, call).heap, owner, offset) == slot_int(vm.heap, owner, offset)
            + (if cas_int_returns_one(vm, call) {
            1int
        } else {
            0int
        }),
{
}

/// What the threads that count in one slot do to the machine.
pub enum CountEvent {
    /// A thread adds this cell to the heap: an integer to expect or to
    /// bring, or whatever else it needs.
    NewCell(OopView),
    /// A thread calls `compareAndSwapInt` with these arguments.
    Swap(Seq<OopRef>),
}

/// The machine after one event.
pub open spec fn after_count_event(vm: VmView, event: CountEvent) -> VmView {
    match event {
        CountEvent::NewCell(cell) => vm_with_cell(vm, cell),
        CountEvent::Swap(args) => after_cas_int(vm, args),
    }
}

/// Whether each call among `events` asks, when it is made, to raise by one
/// the integer in slot `offset` of the cell `owner`.
pub open spec fn counts_in(vm: VmView, events: Seq<CountEvent>, owner: OopRef, offset: i64) -> bool
    decreases events.len(),
{
    events.len() > 0 ==> {
        &&& events[0] matches CountEvent::Swap(args) ==> is_increment(vm.heap, args, owner, offset)
        &&& counts_in(after_count_event(vm, events[0]), events.drop_first(), owner, offset)
    }
}

/// How many of the calls among `events` return 1.
pub open spec fn ones_returned(vm: VmView, events: Seq<CountEvent>) -> int
    decreases events.len(),
{
    if events.len() == 0 {
        0
    } else {
        (if events[0] matches CountEvent::Swap(args) && cas_int_returns_one(vm, args) {
            1int
        } else {
            0int
        }) + ones_returned(after_count_event(vm, events[0]), events.drop_first())
    }
}

/// The machine after `events`.
pub open spec fn after_count_events(vm: VmView, events: Seq<CountEvent>) -> VmView
    decreases events.len(),
{
    if events.len() == 0 {
        vm
    } else {
        after_count_events(after_count_event(vm, events[0]), events.drop_first())
    }
}

/// Threads that count in one slot by compare-and-swap lose no step and
/// count none twice. Whatever cells they add to the heap, whatever
/// each of them expects when it calls, and in whatever order their calls
/// are made: in the end the integer in the slot is what it was and the
/// number of calls that returned 1.
pub proof fn lemma_cas_increments_count(
    vm: VmView,
    events: Seq<CountEvent>,
    owner: OopRef,
    offset: i64,
)
    requires
        holds_int(vm.heap, owner, offset),
        counts_in(vm, events, owner, offset),
    ensures
        holds_int(after_count_events(vm, events).heap, owner, offset),
        slot_int(after_count_events(vm, events).heap, owner, offset) == slot_int(
            vm.heap,
            owner,
            offset,
        ) + ones_returned(vm, events),
        0 <= ones_returned(vm, events) <= events.len(),
    decreases events.len(),
{
    if events.len() > 0 {
        match events[0] {
            CountEvent::Swap(args) => {
                lemma_cas_increment(vm, args, owner, offset);
            },
            CountEvent::NewCell(_) => {},
        }
        lemma_cas_increments_count(
            after_count_event(vm, events[0]),
            events.drop_first(),
            owner,
            offset,
        );
    }
}

/// Whether the named slot and argument 3 both denote `Long` cells.
pub open spec fn long_cas_args(heap: Seq<OopView>, args: Seq<OopRef>) -> bool {
    &&& names_slot(heap, args)
    &&& named_slot(heap, args).cell < heap.len()
    &&& heap[named_slot(heap, args).cell as int] is Long
    &&& arg_is_long(heap, args, 3)
    &&& arg_present(heap, args, 4)
}

/// `Unsafe.compareAndSwapLong(o, offset, expected, x)`.
///
/// If the long integer in slot `offset` of `o` equals `expected`, the slot
/// is given the cell `x` and the result is 1; else nothing is written and
/// the result is 0.
pub fn jvm_compareAndSwapLong(vm: &mut Vm, _env: JNIEnv, args: Vec<OopRef>) -> (r: JNIResult)
    requires
        old(vm).wf(),
        long_cas_args(old(vm)@.heap, args@),
    ensures
        final(vm).wf(),
        final(vm)@ == vm_after_cas(
            old(vm)@,
            args@,
            old(vm)@.heap[named_slot(old(vm)@.heap, args@).cell as int]->Long_0 == long_arg(
                old(vm)@.heap,
                args@,
                3,
            ),
        ),
        r == returns_new_cell(old(vm)@.heap.len()),
{
    let (owner, index) = slot_of_args(&vm.heap, &args);
    let expected = match vm.heap.get(args[3]) {
        Oop::Long(v) => *v,
        _ => 0,
    };
    let current = match vm.heap.get(vm.heap.get_slot(owner, index)) {
        Oop::Long(v) => *v,
        _ => 0,
    };
    finish_cas(vm, &args, current == expected)
}

/// What is to be done to the memory outside the heap.
#[derive(Clone, PartialEq, Eq, Debug)]
pub enum MemoryRequest {
    /// Allocate `size` bytes; the reply is the address of the block.
    Allocate { size: usize },
    /// Free the block at `address`.
    Free { address: i64 },
    /// Write `bytes` to the memory from `address` on.
    Write { address: i64, bytes: Vec<u8> },
    /// Read the byte at `address`; the reply is that byte.
    ReadByte { address: i64 },
    /// Set each of the `count` bytes from `address` on to `value`, taken
    /// as an unsigned byte.
    Fill { address: i64, value: i32, count: usize },
}

pub enum MemoryRequestView {
    Allocate { size: usize },
    Free { address: i64 },
    Write { address: i64, bytes: Seq<u8> },
    ReadByte { address: i64 },
    Fill { address: i64, value: i32, count: usize },
}

impl View for MemoryRequest {
    type V = MemoryRequestView;

    open spec fn view(&self) -> MemoryRequestView {
        match *self {
            MemoryRequest::Allocate { size } => MemoryRequestView::Allocate { size },
            MemoryRequest::Free { address } => MemoryRequestView::Free { address },
            MemoryRequest::Write { address, bytes } => MemoryRequestView::Write {
                address,
                bytes: bytes@,
            },
            MemoryRequest::ReadByte { address } => MemoryRequestView::ReadByte { address },
            MemoryRequest::Fill { address, value, count } => MemoryRequestView::Fill {
                address,
                value,
                count,
            },
        }
    }
}

/// What came of a [`MemoryRequest`].
#[derive(Clone, Copy, PartialEq, Eq, Structural, Debug)]
pub enum MemoryReply {
    /// The request is done and has nothing to say.
    Done,
    /// The address of the block that was allocated.
    Address(i64),
    /// The byte that was read.
    Byte(u8),
}

/// The eight bytes of `v`, the most significant first.
pub open spec fn be_bytes(v: i64) -> Seq<u8> {
    let u = v as u64;
    seq![
        (u >> 56) as u8,
        (u >> 48) as u8,
        (u >> 40) as u8,
        (u >> 32) as u8,
        (u >> 24) as u8,
        (u >> 16) as u8,
        (u >> 8) as u8,
        u as u8,
    ]
}

/// The number that eight bytes spell, the most significant first.
pub open spec fn be_value(bytes: Seq<u8>) -> int {
    ((((((bytes[0] as int * 256 + bytes[1]) * 256 + bytes[2]) * 256 + bytes[3]) * 256 + bytes[4])
        * 256 + bytes[5]) * 256 + bytes[6]) * 256 + bytes[7]
}

/// The bytes of `v` spell `v` as an unsigned number: `v` itself where it
/// is not negative, and `v + 2^64` where it is.
pub proof fn lemma_be_bytes_value(v: i64)
    ensures
        be_bytes(v).len() == 8,
        be_value(be_bytes(v)) == if v >= 0 {
            v as int
        } else {
            v + 0x1_0000_0000_0000_0000
        },
{
    let u = v as u64;
    assert(u == if v >= 0 {
        v as int
    } else {
        v + 0x1_0000_0000_0000_0000
    }) by (bit_vector)
        requires
            u == v as u64,
    ;
    let b0 = (u >> 56) as u8;
    let b1 = (u >> 48) as u8;
    let b2 = (u >> 40) as u8;
    let b3 = (u >> 32) as u8;
    let b4 = (u >> 24) as u8;
    let b5 = (u >> 16) as u8;
    let b6 = (u >> 8) as u8;
    let b7 = u as u8;
    assert(u == ((((((b0 as int * 256 + b1) * 256 + b2) * 256 + b3) * 256 + b4) * 256 + b5) * 256
        + b6) * 256 + b7) by (bit_vector)
        requires
            b0 == (u >> 56) as u8,
            b1 == (u >> 48) as u8,
            b2 == (u >> 40) as u8,
            b3 == (u >> 32) as u8,
            b4 == (u >> 24) as u8,
            b5 == (u >> 16) as u8,
            b6 == (u >> 8) as u8,
            b7 == u as u8,
    ;
}

/// The eight bytes of `v`, the most significant first.
pub fn to_be_bytes(v: i64) -> (bytes: Vec<u8>)
    ensures
        bytes@ == be_bytes(v),
{
    let u = v as u64;
    let mut bytes: Vec<u8> = Vec::new();
    bytes.push((u >> 56) as u8);
    bytes.push((u >> 48) as u8);
    bytes.push((u >> 40) as u8);
    bytes.push((u >> 32) as u8);
    bytes.push((u >> 24) as u8);
    bytes.push((u >> 16) as u8);
    bytes.push((u >> 8) as u8);
    bytes.push(u as u8);
    assert(bytes@ =~= be_bytes(v));
    bytes
}

/// The value of the `Long` cell that argument `i` denotes.
fn long_of(heap: &Heap, args: &Vec<OopRef>, i: usize) -> (v: i64)
    requires
        arg_is_long(heap@, args@, i as int),
    ensures
        v == long_arg(heap@, args@, i as int),
{
    match heap.get(args[i]) {
        Oop::Long(v) => *v,
        _ => 0,
    }
}

/// `Unsafe.allocateMemory(bytes)`: asks for a block of `bytes` bytes. The
/// reply to the request goes to [`complete_memory_request`].
pub fn jvm_allocateMemory(vm: &mut Vm, _env: JNIEnv, args: Vec<OopRef>) -> (request: MemoryRequest)
    requires
        arg_is_long(old(vm)@.heap, args@, 1),
    ensures
        *final(vm) == *old(vm),
        request@ == (MemoryRequestView::Allocate {
            size: long_arg(old(vm)@.heap, args@, 1) as usize,
        }),
{
    let size = long_of(&vm.heap, &args, 1);
    MemoryRequest::Allocate { size: size as usize }
}

/// `Unsafe.freeMemory(address)`: asks to free the block at `address`.
pub fn jvm_freeMemory(vm: &mut Vm, _env: JNIEnv, args: Vec<OopRef>) -> (request: MemoryRequest)
    requires
        arg_is_long(old(vm)@.heap, args@, 1),
    ensures
        *final(vm) == *old(vm),
        request@ == (MemoryRequestView::Free { address: long_arg(old(vm)@.heap, args@, 1) }),
{
    MemoryRequest::Free { address: long_of(&vm.heap, &args, 1) }
}

/// `Unsafe.putLong(address, x)`: asks to write the eight bytes of `x` from
/// `address` on, the most significant first.
pub fn jvm_putLong(vm: &mut Vm, _env: JNIEnv, args: Vec<OopRef>) -> (request: MemoryRequest)
    requires
        arg_is_long(old(vm)@.heap, args@, 1),
        arg_is_long(old(vm)@.heap, args@, 2),
    ensures
        *final(vm) == *old(vm),
        request@ == (MemoryRequestView::Write {
            address: long_arg(old(vm)@.heap, args@, 1),
            bytes: be_bytes(long_arg(old(vm)@.heap, args@, 2)),
        }),
{
    let address = long_of(&vm.heap, &args, 1);
    let x = long_of(&vm.heap, &args, 2);
    MemoryRequest::Write { address, bytes: to_be_bytes(x) }
}

/// `Unsafe.getByte(address)`: asks for the byte at `address`. The reply to
/// the request goes to [`complete_memory_request`].
pub fn jvm_getByte(vm: &mut Vm, _env: JNIEnv, args: Vec<OopRef>) -> (request: MemoryRequest)
    requires
        arg_is_long(old(vm)@.heap, args@, 1),
    ensures
        *final(vm) == *old(vm),
        request@ == (MemoryRequestView::ReadByte { address: long_arg(old(vm)@.heap, args@, 1) }),
{
    MemoryRequest::ReadByte { address: long_of(&vm.heap, &args, 1) }
}

/// `Unsafe.setMemory(o, offset, bytes, value)` for the null `o`: asks to
/// set `bytes` bytes from the address `offset` on to `value`.
pub fn jvm_setMemory(vm: &mut Vm, _env: JNIEnv, args: Vec<OopRef>) -> (request: MemoryRequest)
    requires
        arg_present(old(vm)@.heap, args@, 0),
        arg_present(old(vm)@.heap, args@, 1),
        old(vm)@.heap[args@[1].cell as int] is Null,
        arg_is_long(old(vm)@.heap, args@, 2),
        arg_is_long(old(vm)@.heap, args@, 3),
        arg_is_int(old(vm)@.heap, args@, 4),
    ensures
        *final(vm) == *old(vm),
        request@ == (MemoryRequestView::Fill {
            address: long_arg(old(vm)@.heap, args@, 2),
            value: int_arg(old(vm)@.heap, args@, 4),
            count: long_arg(old(vm)@.heap, args@, 3) as usize,
        }),
{
    let address = long_of(&vm.heap, &args, 2);
    let size = long_of(&vm.heap, &args, 3);
    let value = match vm.heap.get(args[4]) {
        Oop::Int(v) => *v,
        _ => 0,
    };
    MemoryRequest::Fill { address, value, count: size as usize }
}

/// `Unsafe.putChar(address, x)`: asks to set the one byte at `address` to
/// `x`.
pub fn jvm_putChar(vm: &mut Vm, _env: JNIEnv, args: Vec<OopRef>) -> (request: MemoryRequest)
    requires
        arg_is_long(old(vm)@.heap, args@, 1),
        arg_is_int(old(vm)@.heap, args@, 2),
    ensures
        *final(vm) == *old(vm),
        request@ == (MemoryRequestView::Fill {
            address: long_arg(old(vm)@.heap, args@, 1),
            value: int_arg(old(vm)@.heap, args@, 2),
            count: 1,
        }),
{
    let address = long_of(&vm.heap, &args, 1);
    let value = match vm.heap.get(args[2]) {
        Oop::Int(v) => *v,
        _ => 0,
    };
    MemoryRequest::Fill { address, value, count: 1 }
}

/// What the native method returns whose request got this reply, and the
/// machine that it leaves: the address of an allocated block as a new
/// `Long` cell, a byte that was read as a new `Int` cell that holds it
/// unsigned, and nothing for any other request and reply.
pub open spec fn memory_outcome(vm: VmView, request: MemoryRequestView, reply: MemoryReply) -> (
    VmView,
    JNIResult,
) {
    match (request, reply) {
        (MemoryRequestView::Allocate { .. }, MemoryReply::Address(a)) => (
            vm_with_cell(vm, OopView::Long(a)),
            returns_new_cell(vm.heap.len()),
        ),
        (MemoryRequestView::ReadByte { .. }, MemoryReply::Byte(b)) => (
            vm_with_cell(vm, OopView::Int(b as i32)),
            returns_new_cell(vm.heap.len()),
        ),
        _ => (vm, Ok(None)),
    }
}

/// Finishes the native method that made `request`, once the caller has
/// done what it asks and has `reply` for it.
pub fn complete_memory_request(vm: &mut Vm, request: &MemoryRequest, reply: MemoryReply) -> (r:
    JNIResult)
    requires
        old(vm).wf(),
    ensures
        final(vm).wf(),
        (final(vm)@, r) == memory_outcome(old(vm)@, request@, reply),
{
    match request {
        MemoryRequest::Allocate { .. } => match reply {
            MemoryReply::Address(a) => return_long(vm, a),
            _ => Ok(None),
        },
        MemoryRequest::ReadByte { .. } => match reply {
            MemoryReply::Byte(b) => return_int(vm, b as i32),
            _ => Ok(None),
        },
        _ => Ok(None),
    }
}

} // verus!
