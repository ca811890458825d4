//! The registry of native methods, and the call of one.
//!
//! A native method is found by the class that owns it, its name and its
//! descriptor. Before it is called its arguments are checked; a call with
//! arguments that the method cannot work on is never made.

#![allow(non_snake_case)]

use vstd::prelude::*;
use vstd::string::StringSliceAdditionalSpecFns;
use crate::class::{resolve_field, virtual_method};
use crate::native::java_lang_System;
use crate::native::java_lang_System::{
    arraycopy_outcome, invocation_views, property_calls, property_cells, put_method_id,
    vm_with_static,
};
use crate::native::sun_misc_Unsafe;
use crate::native::sun_misc_Unsafe::{
    be_bytes, int_cas_args, long_cas_args, named_slot, names_slot, returns_new_cell, vm_after_cas,
    vm_with_cell, MemoryRequest, MemoryRequestView,
};
use crate::native::{
    arg_is_int, arg_is_long, arg_present, int_arg, long_arg, Exception, Invocation,
    InvocationView, JNIEnv, JNINativeMethod, JNIResult, NativeFn,
};
use crate::oop::{Oop, OopRef, OopView};
use crate::runtime::{field_offset, reflects_field, Vm, VmView};
use crate::util::bytes_eq;

verus! {

/// One entry of the registry: a native method and the class that owns it.
#[derive(Clone, Copy, PartialEq, Eq, Debug)]
pub struct NativeEntry {
    pub owner: &'static str,
    pub method: JNINativeMethod,
}

/// The registry of native methods.
pub struct NativeRegistry {
    entries: Vec<NativeEntry>,
}

impl View for NativeRegistry {
    type V = Seq<NativeEntry>;

    closed spec fn view(&self) -> Seq<NativeEntry> {
        self.entries@
    }
}

/// The entries that the table `table` of the class `owner` makes.
pub open spec fn entries_of(owner: &'static str, table: Seq<JNINativeMethod>) -> Seq<NativeEntry> {
    table.map_values(|method: JNINativeMethod| NativeEntry { owner, method })
}

/// Whether the entry `e` is the method of this owner, name and descriptor.
pub open spec fn entry_matches(e: NativeEntry, owner: Seq<u8>, name: Seq<u8>, desc: Seq<u8>) -> bool {
    e.owner.spec_bytes() == owner && e.method.name.spec_bytes() == name
        && e.method.desc.spec_bytes() == desc
}

/// The native method that the last of the first `upto` entries of
/// `entries` gives to this owner, name and descriptor: a later
/// registration takes the place of an earlier one.
pub open spec fn registered(
    entries: Seq<NativeEntry>,
    owner: Seq<u8>,
    name: Seq<u8>,
    desc: Seq<u8>,
    upto: int,
) -> Option<NativeFn>
    decreases upto,
{
    if upto <= 0 || upto > entries.len() {
        None
    } else if entry_matches(entries[upto - 1], owner, name, desc) {
        Some(entries[upto - 1].method.fnptr)
    } else {
        registered(entries, owner, name, desc, upto - 1)
    }
}

impl NativeRegistry {
    /// A registry without entries.
    pub fn new() -> (registry: NativeRegistry)
        ensures
            registry@ == Seq::<NativeEntry>::empty(),
    {
        NativeRegistry { entries: Vec::new() }
    }

    /// Registers the native methods `table` of the class `owner`.
    pub fn register(&mut self, owner: &'static str, table: Vec<JNINativeMethod>)
        ensures
            final(self)@ == old(self)@ + entries_of(owner, table@),
    {
        let mut i: usize = 0;
        assert(self@ =~= old(self)@ + entries_of(owner, table@).take(0));
        while i < table.len()
            invariant
                i <= table@.len(),
                self@ == old(self)@ + entries_of(owner, table@).take(i as int),
            decreases table@.len() - i,
        {
            self.entries.push(NativeEntry { owner, method: table[i] });
            assert(self@ =~= old(self)@ + entries_of(owner, table@).take(i + 1));
            i = i + 1;
        }
        assert(entries_of(owner, table@).take(table@.len() as int) =~= entries_of(owner, table@));
    }

    /// The registry that the machine starts with: the native methods of
    /// `java/lang/System` and of `sun/misc/Unsafe`.
    pub fn init() -> (registry: NativeRegistry)
        ensures
            registry@ == entries_of(
                "java/lang/System",
                java_lang_System::system_native_methods(),
            ) + entries_of("sun/misc/Unsafe", sun_misc_Unsafe::unsafe_native_methods()),
    {
        let mut registry = NativeRegistry::new();
        registry.register("java/lang/System", java_lang_System::get_native_methods());
        registry.register("sun/misc/Unsafe", sun_misc_Unsafe::get_native_methods());
        registry
    }

    /// The native method of this owner, name and descriptor. A method that
    /// is not registered raises `UnsatisfiedLinkError`.
    pub fn find_symbol(&self, owner: &[u8], name: &[u8], desc: &[u8]) -> (r: Result<
        NativeFn,
        Exception,
    >)
        ensures
            r == match registered(self@, owner@, name@, desc@, self@.len() as int) {
                Some(f) => Ok::<NativeFn, Exception>(f),
                None => Err(Exception::UnsatisfiedLinkError),
            },
    {
        let mut i = self.entries.len();
        while i > 0
            invariant
                i <= self@.len(),
                registered(self@, owner@, name@, desc@, self@.len() as int) == registered(
                    self@,
                    owner@,
                    name@,
                    desc@,
                    i as int,
                ),
            decreases i,
        {
            let e = self.entries[i - 1];
            if bytes_eq(e.owner.as_bytes(), owner) && bytes_eq(e.method.name.as_bytes(), name)
                && bytes_eq(e.method.desc.as_bytes(), desc) {
                return Ok(e.method.fnptr);
            }
            i = i - 1;
        }
        Err(Exception::UnsatisfiedLinkError)
    }
}

/// What the call of a native method has come to.
#[derive(PartialEq, Eq, Debug)]
pub enum NativeOutcome {
    /// The method has returned.
    Returned(JNIResult),
    /// The method returns the result once the caller has made the calls,
    /// in their order.
    Invoke(Vec<Invocation>, JNIResult),
    /// The method returns what
    /// [`complete_memory_request`](sun_misc_Unsafe::complete_memory_request)
    /// makes of the reply, once the caller has done to the memory outside
    /// the heap what the request asks.
    Memory(MemoryRequest),
}

pub enum NativeOutcomeView {
    Returned(JNIResult),
    Invoke(Seq<InvocationView>, JNIResult),
    Memory(MemoryRequestView),
}

impl View for NativeOutcome {
    type V = NativeOutcomeView;

    open spec fn view(&self) -> NativeOutcomeView {
        match *self {
            NativeOutcome::Returned(r) => NativeOutcomeView::Returned(r),
            NativeOutcome::Invoke(calls, r) => NativeOutcomeView::Invoke(
                invocation_views(calls@),
                r,
            ),
            NativeOutcome::Memory(request) => NativeOutcomeView::Memory(request@),
        }
    }
}

/// Whether the static field of this name and descriptor can be set from
/// argument 0.
pub open spec fn static_ready(vm: VmView, env: JNIEnv, args: Seq<OopRef>, name: &str, desc: &str)
    -> bool {
    &&& arg_present(vm.heap, args, 0)
    &&& env.class.index < vm.classes.len()
    &&& resolve_field(
        vm.classes,
        env.class.index as int,
        name.spec_bytes(),
        desc.spec_bytes(),
        true,
    ) is Some
}

/// Whether the native method `f` can work on these arguments.
pub open spec fn native_ready(f: NativeFn, vm: VmView, env: JNIEnv, args: Seq<OopRef>) -> bool {
    match f {
        NativeFn::SystemArraycopy => arg_present(vm.heap, args, 0) && arg_is_int(vm.heap, args, 1)
            && arg_present(vm.heap, args, 2) && arg_is_int(vm.heap, args, 3) && arg_is_int(
            vm.heap,
            args,
            4,
        ),
        NativeFn::SystemInitProperties => arg_present(vm.heap, args, 0) && vm.heap[args[0].cell as int]
            is Inst && virtual_method(
            vm.classes,
            vm.heap[args[0].cell as int]->Inst_class.index as int,
            put_method_id(),
        ) is Some,
        NativeFn::SystemSetIn0 => static_ready(vm, env, args, "in", "Ljava/io/InputStream;"),
        NativeFn::SystemSetOut0 => static_ready(vm, env, args, "out", "Ljava/io/PrintStream;"),
        NativeFn::SystemSetErr0 => static_ready(vm, env, args, "err", "Ljava/io/PrintStream;"),
        NativeFn::UnsafeObjectFieldOffset => args.len() > 1 && reflects_field(vm, args[1]),
        NativeFn::UnsafeCompareAndSwapObject => names_slot(vm.heap, args) && arg_present(
            vm.heap,
            args,
            3,
        ) && arg_present(vm.heap, args, 4),
        NativeFn::UnsafeGetIntVolatile
        | NativeFn::UnsafeGetLongVolatile
        | NativeFn::UnsafeGetObjectVolatile => names_slot(vm.heap, args),
        NativeFn::UnsafeCompareAndSwapInt => int_cas_args(vm.heap, args),
        NativeFn::UnsafeCompareAndSwapLong => long_cas_args(vm.heap, args),
        NativeFn::UnsafeAllocateMemory | NativeFn::UnsafeFreeMemory | NativeFn::UnsafeGetByte => arg_is_long(
            vm.heap,
            args,
            1,
        ),
        NativeFn::UnsafePutLong => arg_is_long(vm.heap, args, 1) && arg_is_long(vm.heap, args, 2),
        NativeFn::UnsafeSetMemory => arg_present(vm.heap, args, 0) && arg_present(vm.heap, args, 1)
            && vm.heap[args[1].cell as int] is Null && arg_is_long(vm.heap, args, 2)
            && arg_is_long(vm.heap, args, 3) && arg_is_int(vm.heap, args, 4),
        NativeFn::UnsafePutChar => arg_is_long(vm.heap, args, 1) && arg_is_int(vm.heap, args, 2),
        _ => true,
    }
}

/// The machine after the call of the native method `f`, and what the call
/// has come to.
pub open spec fn native_effect(f: NativeFn, vm: VmView, env: JNIEnv, args: Seq<OopRef>) -> (
    VmView,
    NativeOutcomeView,
) {
    let new_cell = NativeOutcomeView::Returned(returns_new_cell(vm.heap.len()));
    let nothing = NativeOutcomeView::Returned(Ok(None));
    match f {
        NativeFn::SystemArraycopy => (
            VmView { heap: arraycopy_outcome(vm.heap, vm.classes, args).0, ..vm },
            NativeOutcomeView::Returned(arraycopy_outcome(vm.heap, vm.classes, args).1),
        ),
        NativeFn::SystemRegisterNatives | NativeFn::UnsafeRegisterNatives => (vm, nothing),
        NativeFn::SystemInitProperties => (
            VmView { heap: vm.heap + property_cells(vm.properties), ..vm },
            NativeOutcomeView::Invoke(
                property_calls(
                    virtual_method(
                        vm.classes,
                        vm.heap[args[0].cell as int]->Inst_class.index as int,
                        put_method_id(),
                    )->Some_0,
                    args[0],
                    vm.heap.len() as int,
                ),
                Ok(Some(args[0])),
            ),
        ),
        NativeFn::SystemSetIn0 => (
            vm_with_static(
                vm,
                env,
                "in".spec_bytes(),
                "Ljava/io/InputStream;".spec_bytes(),
                args[0],
            ),
            nothing,
        ),
        NativeFn::SystemSetOut0 => (
            vm_with_static(
                vm,
                env,
                "out".spec_bytes(),
                "Ljava/io/PrintStream;".spec_bytes(),
                args[0],
            ),
            nothing,
        ),
        NativeFn::SystemSetErr0 => (
            vm_with_static(
                vm,
                env,
                "err".spec_bytes(),
                "Ljava/io/PrintStream;".spec_bytes(),
                args[0],
            ),
            nothing,
        ),
        NativeFn::UnsafeArrayBaseOffset => (vm_with_cell(vm, OopView::Int(0)), new_cell),
        NativeFn::UnsafeArrayIndexScale => (vm_with_cell(vm, OopView::Int(1)), new_cell),
        NativeFn::UnsafeAddressSize => (
            vm_with_cell(vm, OopView::Int((usize::BITS / 8) as i32)),
            new_cell,
        ),
        NativeFn::UnsafePageSize => (vm_with_cell(vm, OopView::Int(4096)), new_cell),
        NativeFn::UnsafeObjectFieldOffset => (
            vm_with_cell(vm, OopView::Long(field_offset(vm, args[1]))),
            new_cell,
        ),
        NativeFn::UnsafeCompareAndSwapObject => (
            vm_after_cas(vm, args, named_slot(vm.heap, args) == args[3]),
            new_cell,
        ),
        NativeFn::UnsafeCompareAndSwapInt => (
            vm_after_cas(
                vm,
                args,
                vm.heap[named_slot(vm.heap, args).cell as int]->Int_0 == int_arg(vm.heap, args, 3),
            ),
            new_cell,
        ),
        NativeFn::UnsafeCompareAndSwapLong => (
            vm_after_cas(
                vm,
                args,
                vm.heap[named_slot(vm.heap, args).cell as int]->Long_0 == long_arg(
                    vm.heap,
                    args,
                    3,
                ),
            ),
            new_cell,
        ),
        NativeFn::UnsafeGetIntVolatile
        | NativeFn::UnsafeGetLongVolatile
        | NativeFn::UnsafeGetObjectVolatile => (
            vm,
            NativeOutcomeView::Returned(Ok(Some(named_slot(vm.heap, args)))),
        ),
        NativeFn::UnsafeAllocateMemory => (
            vm,
            NativeOutcomeView::Memory(
                MemoryRequestView::Allocate { size: long_arg(vm.heap, args, 1) as usize },
            ),
        ),
        NativeFn::UnsafeFreeMemory => (
            vm,
            NativeOutcomeView::Memory(
                MemoryRequestView::Free { address: long_arg(vm.heap, args, 1) },
            ),
        ),
        NativeFn::UnsafePutLong => (
            vm,
            NativeOutcomeView::Memory(
                MemoryRequestView::Write {
                    address: long_arg(vm.heap, args, 1),
                    bytes: be_bytes(long_arg(vm.heap, args, 2)),
                },
            ),
        ),
        NativeFn::UnsafeGetByte => (
            vm,
            NativeOutcomeView::Memory(
                MemoryRequestView::ReadByte { address: long_arg(vm.heap, args, 1) },
            ),
        ),
        NativeFn::UnsafeSetMemory => (
            vm,
            NativeOutcomeView::Memory(
                MemoryRequestView::Fill {
                    address: long_arg(vm.heap, args, 2),
                    value: int_arg(vm.heap, args, 4),
                    count: long_arg(vm.heap, args, 3) as usize,
                },
            ),
        ),
        NativeFn::UnsafePutChar => (
            vm,
            NativeOutcomeView::Memory(
                MemoryRequestView::Fill {
                    address: long_arg(vm.heap, args, 1),
                    value: int_arg(vm.heap, args, 2),
                    count: 1,
                },
            ),
        ),
    }
}

/// Whether argument `i` is there and denotes a cell.
fn has_arg(vm: &Vm, args: &Vec<OopRef>, i: usize) -> (r: bool)
    ensures
        r == arg_present(vm@.heap, args@, i as int),
{
    i < args.len() && args[i].cell < vm.heap.len()
}

/// Whether argument `i` is there and denotes an `Int` cell.
fn has_int_arg(vm: &Vm, args: &Vec<OopRef>, i: usize) -> (r: bool)
    ensures
        r == arg_is_int(vm@.heap, args@, i as int),
{
    has_arg(vm, args, i) && match vm.heap.get(args[i]) {
        Oop::Int(_) => true,
        _ => false,
    }
}

/// Whether argument `i` is there and denotes a `Long` cell.
fn has_long_arg(vm: &Vm, args: &Vec<OopRef>, i: usize) -> (r: bool)
    ensures
        r == arg_is_long(vm@.heap, args@, i as int),
{
    has_arg(vm, args, i) && match vm.heap.get(args[i]) {
        Oop::Long(_) => true,
        _ => false,
    }
}

/// Whether arguments 1 and 2 name a slot.
fn has_named_slot(vm: &Vm, args: &Vec<OopRef>) -> (r: bool)
    ensures
        r == names_slot(vm@.heap, args@),
{
    if !has_arg(vm, args, 1) || !has_long_arg(vm, args, 2) {
        return false;
    }
    let offset = match vm.heap.get(args[2]) {
        Oop::Long(v) => *v,
        _ => 0,
    };
    let n = vm.heap.slot_count(args[1]);
    offset >= 0 && (offset as u64) < n as u64
}

/// Whether the static field of this name and descriptor can be set from
/// argument 0.
fn is_static_ready(vm: &Vm, env: JNIEnv, args: &Vec<OopRef>, name: &str, desc: &str) -> (r: bool)
    requires
        vm.wf(),
    ensures
        r == static_ready(vm@, env, args@, name, desc),
{
    has_arg(vm, args, 0) && env.class.index < vm.classes.len() && vm.classes.get_field_id(
        env.class,
        name.as_bytes(),
        desc.as_bytes(),
        true,
    ).is_some()
}

/// Whether the cell `f` is a `java.lang.reflect.Field` object whose field
/// `slot` holds an `Int` cell.
fn is_field_object(vm: &Vm, f: OopRef) -> (r: bool)
    requires
        vm.wf(),
    ensures
        r == reflects_field(vm@, f),
{
    if f.cell >= vm.heap.len() {
        return false;
    }
    let class = match vm.heap.get(f) {
        Oop::Inst { class, .. } => *class,
        _ => {
            return false;
        },
    };
    match vm.classes.find_class("java/lang/reflect/Field".as_bytes()) {
        Some(found) => {
            if found.index != class.index {
                return false;
            }
            match vm.classes.get_field_id(found, "slot".as_bytes(), "I".as_bytes(), false) {
                Some(id) => {
                    if id.slot >= vm.heap.slot_count(f) {
                        return false;
                    }
                    let value = vm.heap.get_slot(f, id.slot);
                    match vm.heap.get(value) {
                        Oop::Int(_) => true,
                        _ => false,
                    }
                },
                None => false,
            }
        },
        None => false,
    }
}

/// Whether the named slot holds a cell of the kind that argument 3 is of:
/// `Int` if `long` is not set, `Long` if it is.
fn has_cas_args(vm: &Vm, args: &Vec<OopRef>, long: bool) -> (r: bool)
    requires
        vm.wf(),
    ensures
        r == if long {
            long_cas_args(vm@.heap, args@)
        } else {
            int_cas_args(vm@.heap, args@)
        },
{
    if !has_named_slot(vm, args) || !has_arg(vm, args, 4) {
        return false;
    }
    let offset = match vm.heap.get(args[2]) {
        Oop::Long(v) => *v,
        _ => 0,
    };
    proof {
        vm.heap.lemma_slots_bounded(args[1]);
    }
    let current = vm.heap.get_slot(args[1], offset as usize);
    if long {
        has_long_arg(vm, args, 3) && match vm.heap.get(current) {
            Oop::Long(_) => true,
            _ => false,
        }
    } else {
        has_int_arg(vm, args, 3) && match vm.heap.get(current) {
            Oop::Int(_) => true,
            _ => false,
        }
    }
}

/// Whether the native method `f` can work on these arguments.
pub fn check_args(f: NativeFn, vm: &Vm, env: JNIEnv, args: &Vec<OopRef>) -> (ok: bool)
    requires
        vm.wf(),
    ensures
        ok == native_ready(f, vm@, env, args@),
{
    match f {
        NativeFn::SystemArraycopy => has_arg(vm, args, 0) && has_int_arg(vm, args, 1) && has_arg(
            vm,
            args,
            2,
        ) && has_int_arg(vm, args, 3) && has_int_arg(vm, args, 4),
        NativeFn::SystemInitProperties => {
            if !has_arg(vm, args, 0) {
                return false;
            }
            match vm.heap.get(args[0]) {
                Oop::Inst { class, .. } => {
                    assert(crate::runtime::cell_fits(vm@.heap[args@[0].cell as int], vm@.classes));
                    let id = crate::class::new_method_id(
                        "put".as_bytes(),
                        "(Ljava/lang/Object;Ljava/lang/Object;)Ljava/lang/Object;".as_bytes(),
                    );
                    vm.classes.get_virtual_method(*class, &id).is_some()
                },
                _ => false,
            }
        },
        NativeFn::SystemSetIn0 => is_static_ready(vm, env, args, "in", "Ljava/io/InputStream;"),
        NativeFn::SystemSetOut0 => is_static_ready(vm, env, args, "out", "Ljava/io/PrintStream;"),
        NativeFn::SystemSetErr0 => is_static_ready(vm, env, args, "err", "Ljava/io/PrintStream;"),
        NativeFn::UnsafeObjectFieldOffset => args.len() > 1 && is_field_object(vm, args[1]),
        NativeFn::UnsafeCompareAndSwapObject => has_named_slot(vm, args) && has_arg(vm, args, 3)
            && has_arg(vm, args, 4),
        NativeFn::UnsafeGetIntVolatile => has_named_slot(vm, args),
        NativeFn::UnsafeGetLongVolatile => has_named_slot(vm, args),
        NativeFn::UnsafeGetObjectVolatile => has_named_slot(vm, args),
        NativeFn::UnsafeCompareAndSwapInt => has_cas_args(vm, args, false),
        NativeFn::UnsafeCompareAndSwapLong => has_cas_args(vm, args, true),
        NativeFn::UnsafeAllocateMemory => has_long_arg(vm, args, 1),
        NativeFn::UnsafeFreeMemory => has_long_arg(vm, args, 1),
        NativeFn::UnsafeGetByte => has_long_arg(vm, args, 1),
        NativeFn::UnsafePutLong => has_long_arg(vm, args, 1) && has_long_arg(vm, args, 2),
        NativeFn::UnsafeSetMemory => {
            has_arg(vm, args, 0) && has_arg(vm, args, 1) && match vm.heap.get(args[1]) {
                Oop::Null => true,
                _ => false,
            } && has_long_arg(vm, args, 2) && has_long_arg(vm, args, 3) && has_int_arg(
                vm,
                args,
                4,
            )
        },
        NativeFn::UnsafePutChar => has_long_arg(vm, args, 1) && has_int_arg(vm, args, 2),
        _ => true,
    }
}

/// Calls the native method `f`.
pub fn call_native(f: NativeFn, vm: &mut Vm, env: JNIEnv, args: Vec<OopRef>) -> (outcome:
    NativeOutcome)
    requires
        old(vm).wf(),
        native_ready(f, old(vm)@, env, args@),
    ensures
        final(vm).wf(),
        (final(vm)@, outcome@) == native_effect(f, old(vm)@, env, args@),
{
    match f {
        NativeFn::SystemArraycopy => NativeOutcome::Returned(
            java_lang_System::jvm_arraycopy(vm, env, args),
        ),
        NativeFn::SystemRegisterNatives => NativeOutcome::Returned(
            java_lang_System::jvm_registerNatives(vm, env, args),
        ),
        NativeFn::SystemInitProperties => {
            let (calls, r) = java_lang_System::jvm_initProperties(vm, env, args);
            NativeOutcome::Invoke(calls, r)
        },
        NativeFn::SystemSetIn0 => NativeOutcome::Returned(
            java_lang_System::jvm_setIn0(vm, env, args),
        ),
        NativeFn::SystemSetOut0 => NativeOutcome::Returned(
            java_lang_System::jvm_setOut0(vm, env, args),
        ),
        NativeFn::SystemSetErr0 => NativeOutcome::Returned(
            java_lang_System::jvm_setErr0(vm, env, args),
        ),
        NativeFn::UnsafeRegisterNatives => NativeOutcome::Returned(
            sun_misc_Unsafe::jvm_registerNatives(vm, env, args),
        ),
        NativeFn::UnsafeArrayBaseOffset => NativeOutcome::Returned(
            sun_misc_Unsafe::jvm_arrayBaseOffset(vm, env, args),
        ),
        NativeFn::UnsafeArrayIndexScale => NativeOutcome::Returned(
            sun_misc_Unsafe::jvm_arrayIndexScale(vm, env, args),
        ),
        NativeFn::UnsafeAddressSize => NativeOutcome::Returned(
            sun_misc_Unsafe::jvm_addressSize(vm, env, args),
        ),
        NativeFn::UnsafeObjectFieldOffset => NativeOutcome::Returned(
            sun_misc_Unsafe::jvm_objectFieldOffset(vm, env, args),
        ),
        NativeFn::UnsafeCompareAndSwapObject => NativeOutcome::Returned(
            sun_misc_Unsafe::jvm_compareAndSwapObject(vm, env, args),
        ),
        NativeFn::UnsafeGetIntVolatile => NativeOutcome::Returned(
            sun_misc_Unsafe::jvm_getIntVolatile(vm, env, args),
        ),
        NativeFn::UnsafeCompareAndSwapInt => NativeOutcome::Returned(
            sun_misc_Unsafe::jvm_compareAndSwapInt(vm, env, args),
        ),
        NativeFn::UnsafeAllocateMemory => NativeOutcome::Memory(
            sun_misc_Unsafe::jvm_allocateMemory(vm, env, args),
        ),
        NativeFn::UnsafeFreeMemory => NativeOutcome::Memory(
            sun_misc_Unsafe::jvm_freeMemory(vm, env, args),
        ),
        NativeFn::UnsafePutLong => NativeOutcome::Memory(
            sun_misc_Unsafe::jvm_putLong(vm, env, args),
        ),
        NativeFn::UnsafeGetByte => NativeOutcome::Memory(
            sun_misc_Unsafe::jvm_getByte(vm, env, args),
        ),
        NativeFn::UnsafeCompareAndSwapLong => NativeOutcome::Returned(
            sun_misc_Unsafe::jvm_compareAndSwapLong(vm, env, args),
        ),
        NativeFn::UnsafeGetObjectVolatile => NativeOutcome::Returned(
            sun_misc_Unsafe::jvm_getObjectVolatile(vm, env, args),
        ),
        NativeFn::UnsafePageSize => NativeOutcome::Returned(
            sun_misc_Unsafe::jvm_pageSize(vm, env, args),
        ),
        NativeFn::UnsafeGetLongVolatile => NativeOutcome::Returned(
            sun_misc_Unsafe::jvm_getLongVolatile(vm, env, args),
        ),
        NativeFn::UnsafeSetMemory => NativeOutcome::Memory(
            sun_misc_Unsafe::jvm_setMemory(vm, env, args),
        ),
        NativeFn::UnsafePutChar => NativeOutcome::Memory(
            sun_misc_Unsafe::jvm_putChar(vm, env, args),
        ),
    }
}

} // verus!
