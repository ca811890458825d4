//! The native methods of `java.lang.System`.

#![allow(non_snake_case)]

use vstd::prelude::*;
use vstd::string::{StrSliceExecFns, StringSliceAdditionalSpecFns};
use crate::bootstrap::{
    key_position, lemma_key_position, lemma_keys_differ, property_key_table, property_keys,
    PROPERTY_COUNT,
};
use crate::class::{
    assignable, class_method, first_class, init_finish, init_request, new_method_id,
    resolve_field, virtual_method, with_state, with_static, ClassView, FieldId, InitAction,
    InitState, MethodIdView, MethodRef,
};
use crate::native::{
    arg_is_int, arg_present, int_arg, new_fn, Exception, Invocation, InvocationView, JNIEnv,
    JNINativeMethod, JNIResult, NativeFn,
};
use crate::util::bytes_to_vec;
use crate::oop::{slots, ClassId, ComponentType, Heap, Oop, OopRef, OopView};
use crate::runtime::{cell_fits, lemma_cells_fit_with_cell, Vm, VmView};
use crate::stack::Stack;

verus! {

/// The table of the native methods of `java.lang.System`.
pub open spec fn system_native_methods() -> Seq<JNINativeMethod> {
    seq![
        JNINativeMethod {
            name: "arraycopy",
            desc: "(Ljava/lang/Object;ILjava/lang/Object;II)V",
            fnptr: NativeFn::SystemArraycopy,
        },
        JNINativeMethod {
            name: "registerNatives",
            desc: "()V",
            fnptr: NativeFn::SystemRegisterNatives,
        },
        JNINativeMethod {
            name: "initProperties",
            desc: "(Ljava/util/Properties;)Ljava/util/Properties;",
            fnptr: NativeFn::SystemInitProperties,
        },
        JNINativeMethod {
            name: "setIn0",
            desc: "(Ljava/io/InputStream;)V",
            fnptr: NativeFn::SystemSetIn0,
        },
        JNINativeMethod {
            name: "setOut0",
            desc: "(Ljava/io/PrintStream;)V",
            fnptr: NativeFn::SystemSetOut0,
        },
        JNINativeMethod {
            name: "setErr0",
            desc: "(Ljava/io/PrintStream;)V",
            fnptr: NativeFn::SystemSetErr0,
        },
    ]
}

/// The native methods that `java.lang.System` registers.
pub fn get_native_methods() -> (table: Vec<JNINativeMethod>)
    ensures
        table@ == system_native_methods(),
{
    let mut table: Vec<JNINativeMethod> = Vec::new();
    table.push(
        new_fn(
            "arraycopy",
            "(Ljava/lang/Object;ILjava/lang/Object;II)V",
            NativeFn::SystemArraycopy,
        ),
    );
    table.push(new_fn("registerNatives", "()V", NativeFn::SystemRegisterNatives));
    table.push(
        new_fn(
            "initProperties",
            "(Ljava/util/Properties;)Ljava/util/Properties;",
            NativeFn::SystemInitProperties,
        ),
    );
    table.push(new_fn("setIn0", "(Ljava/io/InputStream;)V", NativeFn::SystemSetIn0));
    table.push(new_fn("setOut0", "(Ljava/io/PrintStream;)V", NativeFn::SystemSetOut0));
    table.push(new_fn("setErr0", "(Ljava/io/PrintStream;)V", NativeFn::SystemSetErr0));
    assert(table@ =~= system_native_methods());
    table
}

/// `System.registerNatives()`: nothing is left to do.
pub fn jvm_registerNatives(vm: &mut Vm, _env: JNIEnv, _args: Vec<OopRef>) -> (r: JNIResult)
    ensures
        *final(vm) == *old(vm),
        r == Ok::<Option<OopRef>, Exception>(None),
{
    Ok(None)
}

/// Whether a value of the loaded class `name` may stand where a value of
/// class `d` is asked for. Of a class that is not loaded no value may.
pub open spec fn named_assignable(classes: Seq<ClassView>, name: Seq<u8>, d: ClassId) -> bool {
    match first_class(classes, name, 0) {
        Some(c) => assignable(classes, c.index as int, d.index as int),
        None => false,
    }
}

/// Whether a value of the cell `v` may be stored in an array whose
/// elements are declared of class `d`: the null cell always; an instance
/// if its class may stand where `d` is asked for; a string carrier if
/// `java/lang/String` may, and a mirror if `java/lang/Class` may; an array
/// if `d` is `java/lang/Object`.
pub open spec fn storable(v: OopView, classes: Seq<ClassView>, d: ClassId) -> bool {
    match v {
        OopView::Null => true,
        OopView::Inst { class, .. } => assignable(classes, class.index as int, d.index as int),
        OopView::Str(_) => named_assignable(classes, "java/lang/String".spec_bytes(), d),
        OopView::Mirror { .. } => named_assignable(classes, "java/lang/Class".spec_bytes(), d),
        OopView::Array { .. } => first_class(classes, "java/lang/Object".spec_bytes(), 0) == Some(d),
        _ => false,
    }
}

/// Whether a copy from the cell `src` to the cell `dest` is a copy between
/// arrays of matching kinds. A string carrier stands for an array of `char`.
pub open spec fn array_kinds_match(src: OopView, dest: OopView) -> bool {
    match dest {
        OopView::Array { component: dc, .. } => match src {
            OopView::Str(_) => dc == ComponentType::Char,
            OopView::Array { component: sc, .. } => if sc is Reference {
                dc is Reference
            } else {
                sc == dc
            },
            _ => false,
        },
        _ => false,
    }
}

/// The number of elements that the cell `src` offers to a copy.
pub open spec fn source_len(src: OopView) -> nat {
    match src {
        OopView::Str(bytes) => bytes.len(),
        OopView::Array { elements, .. } => elements.len(),
        _ => 0,
    }
}

/// Whether the `length` elements of the cell `src` from `src_pos` on may
/// be stored in the array `dest`.
///
/// Elements of primitive arrays and of string carriers always may. So may
/// the elements of an array of references where `src` and `dest` are one
/// cell, for they stand in it already, and where the class of the
/// elements of `src` may stand where that of `dest` is asked for. Only in
/// a copy to an array of another class is each element of the range
/// looked at.
pub open spec fn elements_storable(
    heap: Seq<OopView>,
    classes: Seq<ClassView>,
    src: OopRef,
    src_pos: int,
    dest: OopRef,
    length: int,
) -> bool {
    heap[src.cell as int] matches OopView::Array {
        component: ComponentType::Reference(s),
        elements,
    } ==> (heap[dest.cell as int] matches OopView::Array {
        component: ComponentType::Reference(d),
        ..
    } ==> src == dest || assignable(classes, s.index as int, d.index as int) || forall|k: int|
        src_pos <= k < src_pos + length ==> storable(
            heap[(#[trigger] elements[k]).cell as int],
            classes,
            d,
        ))
}

/// The exception that a copy of `length` elements raises, if it raises one.
/// The checks come in this order: a null array, arrays of kinds that do not
/// match, a range that leaves an array, an element that the destination
/// cannot hold.
pub open spec fn arraycopy_exception(
    heap: Seq<OopView>,
    classes: Seq<ClassView>,
    src: OopRef,
    src_pos: i32,
    dest: OopRef,
    dest_pos: i32,
    length: i32,
) -> Option<Exception> {
    let s = heap[src.cell as int];
    let d = heap[dest.cell as int];
    if s is Null || d is Null {
        Some(Exception::NullPointerException)
    } else if !array_kinds_match(s, d) {
        Some(Exception::ArrayStoreException)
    } else if src_pos < 0 || dest_pos < 0 || length < 0 || src_pos + length > source_len(s)
        || dest_pos + length > slots(d).len() {
        Some(Exception::ArrayIndexOutOfBoundsException)
    } else if !elements_storable(heap, classes, src, src_pos as int, dest, length as int) {
        Some(Exception::ArrayStoreException)
    } else {
        None
    }
}

/// The elements `dest` with `items` written over them from `dest_pos` on.
pub open spec fn overwritten(dest: Seq<OopRef>, dest_pos: int, items: Seq<OopRef>) -> Seq<OopRef> {
    dest.subrange(0, dest_pos) + items + dest.subrange(dest_pos + items.len(), dest.len() as int)
}

/// The array cell `dest` with `items` written over its elements from
/// `dest_pos` on.
pub open spec fn array_overwritten(dest: OopView, dest_pos: int, items: Seq<OopRef>) -> OopView {
    match dest {
        OopView::Array { component, elements } => OopView::Array {
            component,
            elements: overwritten(elements, dest_pos, items),
        },
        other => other,
    }
}

/// The heap after a copy that raises no exception.
///
/// From an array the handles themselves are copied, so that the
/// destination shares the cells of the source; where both are one cell,
/// the elements are those that the cell held before the copy. From a
/// string carrier each byte is widened to a new `Int` cell, appended to the
/// heap in order.
pub open spec fn heap_after_arraycopy(
    heap: Seq<OopView>,
    src: OopRef,
    src_pos: int,
    dest: OopRef,
    dest_pos: int,
    length: int,
) -> Seq<OopView> {
    match heap[src.cell as int] {
        OopView::Str(bytes) => {
            let boxes = Seq::new(
                length as nat,
                |k: int| OopView::Int(bytes[src_pos + k] as i32),
            );
            let handles = Seq::new(
                length as nat,
                |k: int| OopRef { cell: (heap.len() + k) as usize },
            );
            (heap + boxes).update(
                dest.cell as int,
                array_overwritten(heap[dest.cell as int], dest_pos, handles),
            )
        },
        OopView::Array { elements, .. } => heap.update(
            dest.cell as int,
            array_overwritten(
                heap[dest.cell as int],
                dest_pos,
                elements.subrange(src_pos, src_pos + length),
            ),
        ),
        _ => heap,
    }
}

/// A copy within one array, from its start to `k` places further, of all
/// elements that then still fit, raises nothing, whatever the array
/// holds. It leaves the first `k` elements where they were and puts at
/// each later place `i` the element that stood at `i - k` before the copy:
/// no element is read after it was overwritten.
pub proof fn lemma_arraycopy_shift(
    heap: Seq<OopView>,
    classes: Seq<ClassView>,
    a: OopRef,
    k: i32,
    length: i32,
)
    requires
        a.cell < heap.len(),
        heap[a.cell as int] matches OopView::Array { elements, .. } && 0 < k < elements.len()
            && length == elements.len() - k,
    ensures
        arraycopy_exception(heap, classes, a, 0, a, k, length) is None,
        ({
            let before = heap[a.cell as int]->Array_elements;
            let after = heap_after_arraycopy(heap, a, 0, a, k as int, length as int);
            &&& after.len() == heap.len()
            &&& forall|c: int| 0 <= c < heap.len() && c != a.cell ==> after[c] == heap[c]
            &&& after[a.cell as int] matches OopView::Array { component, elements }
            &&& component == heap[a.cell as int]->Array_component
            &&& elements.len() == before.len()
            &&& forall|i: int| 0 <= i < k ==> elements[i] == before[i]
            &&& forall|i: int| k <= i < before.len() ==> elements[i] == before[i - k]
        }),
{
}

/// What `arraycopy` leaves behind and gives back, from the heap before
/// the call: nothing is done for a length of zero; else an exception is
/// raised with the heap untouched, or the elements are copied.
pub open spec fn arraycopy_outcome(
    heap: Seq<OopView>,
    classes: Seq<ClassView>,
    args: Seq<OopRef>,
) -> (Seq<OopView>, JNIResult) {
    let src = args[0];
    let src_pos = int_arg(heap, args, 1);
    let dest = args[2];
    let dest_pos = int_arg(heap, args, 3);
    let length = int_arg(heap, args, 4);
    if length == 0 {
        (heap, Ok(None))
    } else {
        match arraycopy_exception(heap, classes, src, src_pos, dest, dest_pos, length) {
            Some(e) => (heap, Err(e)),
            None => (
                heap_after_arraycopy(heap, src, src_pos as int, dest, dest_pos as int, length as int),
                Ok(None),
            ),
        }
    }
}

/// Whether the cells `src` and `dest` are arrays of compatible type:
/// arrays of one primitive kind, or arrays of references that are one
/// cell or of which the class of the elements of `src` may stand where
/// that of `dest` is asked for.
pub open spec fn arrays_compatible(
    heap: Seq<OopView>,
    classes: Seq<ClassView>,
    src: OopRef,
    dest: OopRef,
) -> bool {
    heap[src.cell as int] matches OopView::Array { component: sc, .. } && (
    heap[dest.cell as int] matches OopView::Array { component: dc, .. } && match (sc, dc) {
        (ComponentType::Reference(s), ComponentType::Reference(d)) => src == dest || assignable(
            classes,
            s.index as int,
            d.index as int,
        ),
        _ => sc == dc,
    })
}

/// A copy between arrays of compatible type, of a range that is not empty
/// and lies inside both, raises nothing, whatever the elements are: string
/// carriers, mirrors, arrays, instances or the null cell. Each place of
/// the range of the destination then holds the very cell that the source
/// held at its place before the copy, also where both are one array, and
/// nothing else has changed.
pub proof fn lemma_arraycopy_shares_cells(
    heap: Seq<OopView>,
    classes: Seq<ClassView>,
    args: Seq<OopRef>,
)
    requires
        arg_present(heap, args, 0),
        arg_is_int(heap, args, 1),
        arg_present(heap, args, 2),
        arg_is_int(heap, args, 3),
        arg_is_int(heap, args, 4),
        arrays_compatible(heap, classes, args[0], args[2]),
        0 <= int_arg(heap, args, 1),
        0 <= int_arg(heap, args, 3),
        0 < int_arg(heap, args, 4),
        int_arg(heap, args, 1) + int_arg(heap, args, 4) <= slots(heap[args[0].cell as int]).len(),
        int_arg(heap, args, 3) + int_arg(heap, args, 4) <= slots(heap[args[2].cell as int]).len(),
    ensures
        ({
            let src_pos = int_arg(heap, args, 1) as int;
            let dest_pos = int_arg(heap, args, 3) as int;
            let length = int_arg(heap, args, 4) as int;
            let source = heap[args[0].cell as int]->Array_elements;
            let before = heap[args[2].cell as int]->Array_elements;
            let after = arraycopy_outcome(heap, classes, args).0;
            &&& arraycopy_outcome(heap, classes, args).1 == Ok::<Option<OopRef>, Exception>(None)
            &&& after.len() == heap.len()
            &&& forall|c: int| 0 <= c < heap.len() && c != args[2].cell ==> after[c] == heap[c]
            &&& after[args[2].cell as int] matches OopView::Array { component, elements }
            &&& component == heap[args[2].cell as int]->Array_component
            &&& elements.len() == before.len()
            &&& forall|j: int|
                dest_pos <= j < dest_pos + length ==> elements[j] == source[src_pos + (j
                    - dest_pos)]
            &&& forall|j: int|
                0 <= j < before.len() && !(dest_pos <= j < dest_pos + length) ==> elements[j]
                    == before[j]
        }),
{
}

/// The value of an `Int` cell.
fn int_of(heap: &Heap, r: OopRef) -> (v: i32)
    requires
        heap.contains(r),
        heap@[r.cell as int] is Int,
    ensures
        v == heap@[r.cell as int]->Int_0,
{
    match heap.get(r) {
        Oop::Int(v) => *v,
        _ => 0,
    }
}

/// Whether the cells `src` and `dest` are arrays of matching kinds.
fn kinds_match(heap: &Heap, src: OopRef, dest: OopRef) -> (r: bool)
    requires
        heap.contains(src),
        heap.contains(dest),
    ensures
        r == array_kinds_match(heap@[src.cell as int], heap@[dest.cell as int]),
{
    match heap.get(dest) {
        Oop::Array { component: dc, .. } => match heap.get(src) {
            Oop::Str(_) => match dc {
                ComponentType::Char => true,
                _ => false,
            },
            Oop::Array { component: sc, .. } => match sc {
                ComponentType::Reference(_) => match dc {
                    ComponentType::Reference(_) => true,
                    _ => false,
                },
                _ => *sc == *dc,
            },
            _ => false,
        },
        _ => false,
    }
}

/// The number of elements that the cell `src` offers to a copy.
fn source_length(heap: &Heap, src: OopRef) -> (n: usize)
    requires
        heap.contains(src),
    ensures
        n == source_len(heap@[src.cell as int]),
{
    match heap.get(src) {
        Oop::Str(bytes) => bytes.len(),
        Oop::Array { elements, .. } => elements.len(),
        _ => 0,
    }
}

/// Whether a value of the loaded class `name` may stand where a value of
/// class `d` is asked for.
fn is_named_assignable(vm: &Vm, name: &[u8], d: ClassId) -> (ok: bool)
    requires
        vm.wf(),
    ensures
        ok == named_assignable(vm.classes@, name@, d),
{
    match vm.classes.find_class(name) {
        Some(c) => vm.classes.is_assignable(c, d),
        None => false,
    }
}

/// Whether the cell `r` may be stored in an array of elements of class `d`.
fn is_storable(vm: &Vm, r: OopRef, d: ClassId) -> (ok: bool)
    requires
        vm.wf(),
        vm.heap.contains(r),
    ensures
        ok == storable(vm.heap@[r.cell as int], vm.classes@, d),
{
    assert(cell_fits(vm.heap@[r.cell as int], vm.classes@));
    match vm.heap.get(r) {
        Oop::Null => true,
        Oop::Inst { class, .. } => vm.classes.is_assignable(*class, d),
        Oop::Str(_) => is_named_assignable(vm, "java/lang/String".as_bytes(), d),
        Oop::Mirror { .. } => is_named_assignable(vm, "java/lang/Class".as_bytes(), d),
        Oop::Array { .. } => match vm.classes.find_class("java/lang/Object".as_bytes()) {
            Some(object) => object.index == d.index,
            None => false,
        },
        _ => false,
    }
}

/// Whether the elements of the range may be stored in the destination.
fn range_storable(vm: &Vm, src: OopRef, src_pos: usize, dest: OopRef, length: usize) -> (ok: bool)
    requires
        vm.wf(),
        vm.heap.contains(src),
        vm.heap.contains(dest),
        array_kinds_match(vm.heap@[src.cell as int], vm.heap@[dest.cell as int]),
        src_pos + length <= source_len(vm.heap@[src.cell as int]),
    ensures
        ok == elements_storable(
            vm.heap@,
            vm.classes@,
            src,
            src_pos as int,
            dest,
            length as int,
        ),
{
    let d = match vm.heap.get(dest) {
        Oop::Array { component: ComponentType::Reference(d), .. } => *d,
        _ => {
            return true;
        },
    };
    let s = match vm.heap.get(src) {
        Oop::Array { component: ComponentType::Reference(s), .. } => *s,
        _ => {
            return true;
        },
    };
    if src.cell == dest.cell {
        return true;
    }
    assert(cell_fits(vm.heap@[src.cell as int], vm.classes@));
    if vm.classes.is_assignable(s, d) {
        return true;
    }
    let ghost elements = slots(vm.heap@[src.cell as int]);
    proof {
        vm.heap.lemma_slots_bounded(src);
    }
    let mut k: usize = 0;
    while k < length
        invariant
            vm.wf(),
            elements.len() <= usize::MAX,
            vm.heap.contains(dest),
            vm.heap@[src.cell as int] matches OopView::Array {
                component: ComponentType::Reference(ss),
                ..
            } && ss == s,
            vm.heap@[dest.cell as int] matches OopView::Array {
                component: ComponentType::Reference(dd),
                ..
            } && dd == d,
            src != dest,
            !assignable(vm.classes@, s.index as int, d.index as int),
            vm.heap.contains(src),
            elements == slots(vm.heap@[src.cell as int]),
            src_pos + length <= elements.len(),
            k <= length,
            forall|j: int|
                src_pos <= j < src_pos + k ==> storable(
                    vm.heap@[(#[trigger] elements[j]).cell as int],
                    vm.classes@,
                    d,
                ),
        decreases length - k,
    {
        let e = vm.heap.get_slot(src, src_pos + k);
        if !is_storable(vm, e, d) {
            assert(elements[src_pos + k] == e);
            return false;
        }
        k = k + 1;
    }
    true
}

/// Copies `length` handles from the array `src` to another array `dest`.
fn copy_elements(
    heap: &mut Heap,
    src: OopRef,
    src_pos: usize,
    dest: OopRef,
    dest_pos: usize,
    length: usize,
)
    requires
        old(heap).wf(),
        old(heap).contains(src),
        old(heap).contains(dest),
        src != dest,
        old(heap)@[src.cell as int] is Array,
        old(heap)@[dest.cell as int] is Array,
        src_pos + length <= slots(old(heap)@[src.cell as int]).len(),
        dest_pos + length <= slots(old(heap)@[dest.cell as int]).len(),
    ensures
        final(heap).wf(),
        final(heap)@ == heap_after_arraycopy(
            old(heap)@,
            src,
            src_pos as int,
            dest,
            dest_pos as int,
            length as int,
        ),
{
    let ghost before = heap@;
    let ghost source = slots(before[src.cell as int]);
    let ghost target = slots(before[dest.cell as int]);
    proof {
        heap.lemma_slots_bounded(src);
        heap.lemma_slots_bounded(dest);
    }
    assert(overwritten(target, dest_pos as int, source.subrange(src_pos as int, src_pos + 0))
        =~= target);
    assert(heap@ =~= before.update(dest.cell as int, before[dest.cell as int]));
    let mut k: usize = 0;
    while k < length
        invariant
            heap.wf(),
            source.len() <= usize::MAX,
            target.len() <= usize::MAX,
            heap.contains(src),
            heap.contains(dest),
            src != dest,
            before.len() == heap@.len(),
            source == slots(before[src.cell as int]),
            target == slots(before[dest.cell as int]),
            src_pos + length <= source.len(),
            dest_pos + length <= target.len(),
            k <= length,
            heap@ == before.update(
                dest.cell as int,
                array_overwritten(
                    before[dest.cell as int],
                    dest_pos as int,
                    source.subrange(src_pos as int, src_pos + k),
                ),
            ),
            before[src.cell as int] is Array,
            before[dest.cell as int] is Array,
        decreases length - k,
    {
        let e = heap.get_slot(src, src_pos + k);
        heap.set_slot(dest, dest_pos + k, e);
        proof {
            let items = source.subrange(src_pos as int, src_pos + k);
            let more = source.subrange(src_pos as int, src_pos + k + 1);
            assert(overwritten(target, dest_pos as int, items).update(dest_pos + k, e)
                =~= overwritten(target, dest_pos as int, more));
            assert(heap@ =~= before.update(
                dest.cell as int,
                array_overwritten(before[dest.cell as int], dest_pos as int, more),
            ));
        }
        k = k + 1;
    }
}

/// Copies `length` handles from one place of the array `cell` to another
/// place of the same array, through a buffer that holds the source range
/// as it was before the first write.
fn copy_within(heap: &mut Heap, cell: OopRef, src_pos: usize, dest_pos: usize, length: usize)
    requires
        old(heap).wf(),
        old(heap).contains(cell),
        old(heap)@[cell.cell as int] is Array,
        src_pos + length <= slots(old(heap)@[cell.cell as int]).len(),
        dest_pos + length <= slots(old(heap)@[cell.cell as int]).len(),
    ensures
        final(heap).wf(),
        final(heap)@ == heap_after_arraycopy(
            old(heap)@,
            cell,
            src_pos as int,
            cell,
            dest_pos as int,
            length as int,
        ),
{
    let ghost before = heap@;
    let ghost elements = slots(before[cell.cell as int]);
    proof {
        heap.lemma_slots_bounded(cell);
    }
    let mut buffer: Vec<OopRef> = Vec::new();
    let mut k: usize = 0;
    while k < length
        invariant
            heap.wf(),
            heap.contains(cell),
            heap@ == before,
            elements == slots(before[cell.cell as int]),
            elements.len() <= usize::MAX,
            src_pos + length <= elements.len(),
            k <= length,
            buffer@ == elements.subrange(src_pos as int, src_pos + k),
        decreases length - k,
    {
        let e = heap.get_slot(cell, src_pos + k);
        buffer.push(e);
        assert(elements.subrange(src_pos as int, src_pos + k).push(e) =~= elements.subrange(
            src_pos as int,
            src_pos + k + 1,
        ));
        k = k + 1;
    }
    assert(overwritten(elements, dest_pos as int, buffer@.subrange(0, 0)) =~= elements);
    assert(heap@ =~= before.update(cell.cell as int, before[cell.cell as int]));
    let mut k: usize = 0;
    while k < length
        invariant
            heap.wf(),
            heap.contains(cell),
            before.len() == heap@.len(),
            before[cell.cell as int] is Array,
            elements == slots(before[cell.cell as int]),
            elements.len() <= usize::MAX,
            dest_pos + length <= elements.len(),
            k <= length,
            buffer@.len() == length,
            forall|j: int| 0 <= j < buffer@.len() ==> heap.contains(#[trigger] buffer@[j]),
            heap@ == before.update(
                cell.cell as int,
                array_overwritten(
                    before[cell.cell as int],
                    dest_pos as int,
                    buffer@.subrange(0, k as int),
                ),
            ),
        decreases length - k,
    {
        let e = buffer[k];
        heap.set_slot(cell, dest_pos + k, e);
        proof {
            let items = buffer@.subrange(0, k as int);
            let more = buffer@.subrange(0, k + 1);
            assert(overwritten(elements, dest_pos as int, items).update(dest_pos + k, e)
                =~= overwritten(elements, dest_pos as int, more));
            assert(heap@ =~= before.update(
                cell.cell as int,
                array_overwritten(before[cell.cell as int], dest_pos as int, more),
            ));
        }
        k = k + 1;
    }
    assert(buffer@.subrange(0, length as int) =~= buffer@);
}

/// Copies `length` bytes of the string carrier `src` to the array `dest`,
/// each widened to an `Int` cell of its own.
fn copy_from_str(
    heap: &mut Heap,
    src: OopRef,
    src_pos: usize,
    dest: OopRef,
    dest_pos: usize,
    length: usize,
)
    requires
        old(heap).wf(),
        old(heap).contains(src),
        old(heap).contains(dest),
        old(heap)@[src.cell as int] is Str,
        old(heap)@[dest.cell as int] is Array,
        src_pos + length <= source_len(old(heap)@[src.cell as int]),
        dest_pos + length <= slots(old(heap)@[dest.cell as int]).len(),
    ensures
        final(heap).wf(),
        final(heap)@ == heap_after_arraycopy(
            old(heap)@,
            src,
            src_pos as int,
            dest,
            dest_pos as int,
            length as int,
        ),
{
    let ghost before = heap@;
    let ghost bytes = before[src.cell as int]->Str_0;
    let ghost target = slots(before[dest.cell as int]);
    proof {
        heap.lemma_slots_bounded(dest);
    }
    let n = source_length(heap, src);
    let base = heap.len();
    assert(overwritten(target, dest_pos as int, Seq::<OopRef>::empty()) =~= target);
    assert(heap@ =~= (before + Seq::<OopView>::empty()).update(
        dest.cell as int,
        before[dest.cell as int],
    ));
    let mut k: usize = 0;
    while k < length
        invariant
            heap.wf(),
            heap.contains(src),
            heap.contains(dest),
            before.len() == base,
            before[src.cell as int] == OopView::Str(bytes),
            before[dest.cell as int] is Array,
            src.cell < base,
            dest.cell < base,
            target == slots(before[dest.cell as int]),
            n == bytes.len(),
            target.len() <= usize::MAX,
            src_pos + length <= bytes.len(),
            dest_pos + length <= target.len(),
            k <= length,
            heap@.len() == base + k,
            heap@ == (before + Seq::new(
                k as nat,
                |j: int| OopView::Int(bytes[src_pos + j] as i32),
            )).update(
                dest.cell as int,
                array_overwritten(
                    before[dest.cell as int],
                    dest_pos as int,
                    Seq::new(k as nat, |j: int| OopRef { cell: (base + j) as usize }),
                ),
            ),
        decreases length - k,
    {
        let b = match heap.get(src) {
            Oop::Str(bytes) => bytes[src_pos + k],
            _ => 0,
        };
        let e = heap.new_cell(Oop::Int(b as i32));
        heap.set_slot(dest, dest_pos + k, e);
        proof {
            let boxes = Seq::new(k as nat, |j: int| OopView::Int(bytes[src_pos + j] as i32));
            let more_boxes = Seq::new(
                (k + 1) as nat,
                |j: int| OopView::Int(bytes[src_pos + j] as i32),
            );
            let items = Seq::new(k as nat, |j: int| OopRef { cell: (base + j) as usize });
            let more = Seq::new((k + 1) as nat, |j: int| OopRef { cell: (base + j) as usize });
            assert(overwritten(target, dest_pos as int, items).update(dest_pos + k, e)
                =~= overwritten(target, dest_pos as int, more));
            assert(heap@ =~= (before + more_boxes).update(
                dest.cell as int,
                array_overwritten(before[dest.cell as int], dest_pos as int, more),
            ));
        }
        k = k + 1;
    }
}

/// `System.arraycopy(src, srcPos, dest, destPos, length)`.
///
/// A length of zero does nothing. Else the arrays are checked before
/// anything is written: a failed check raises its exception and leaves the
/// heap as it was. A copy within one array behaves as if the source range
/// had first been copied aside.
pub fn jvm_arraycopy(vm: &mut Vm, _env: JNIEnv, args: Vec<OopRef>) -> (r: JNIResult)
    requires
        old(vm).wf(),
        arg_present(old(vm).heap@, args@, 0),
        arg_is_int(old(vm).heap@, args@, 1),
        arg_present(old(vm).heap@, args@, 2),
        arg_is_int(old(vm).heap@, args@, 3),
        arg_is_int(old(vm).heap@, args@, 4),
    ensures
        final(vm).wf(),
        final(vm)@ == (VmView {
            heap: arraycopy_outcome(old(vm)@.heap, old(vm)@.classes, args@).0,
            ..old(vm)@
        }),
        r == arraycopy_outcome(old(vm)@.heap, old(vm)@.classes, args@).1,
{
    let src = args[0];
    let src_pos = int_of(&vm.heap, args[1]);
    let dest = args[2];
    let dest_pos = int_of(&vm.heap, args[3]);
    let length = int_of(&vm.heap, args[4]);

    if length == 0 {
        return Ok(None);
    }
    let src_is_null = match vm.heap.get(src) {
        Oop::Null => true,
        _ => false,
    };
    let dest_is_null = match vm.heap.get(dest) {
        Oop::Null => true,
        _ => false,
    };
    if src_is_null || dest_is_null {
        return Err(Exception::NullPointerException);
    }
    if !kinds_match(&vm.heap, src, dest) {
        return Err(Exception::ArrayStoreException);
    }
    if src_pos < 0 || dest_pos < 0 || length < 0 {
        return Err(Exception::ArrayIndexOutOfBoundsException);
    }
    let src_len = source_length(&vm.heap, src);
    let dest_len = vm.heap.slot_count(dest);
    let src_end: u64 = src_pos as u64 + length as u64;
    let dest_end: u64 = dest_pos as u64 + length as u64;
    if src_end > src_len as u64 || dest_end > dest_len as u64 {
        return Err(Exception::ArrayIndexOutOfBoundsException);
    }
    let src_pos = src_pos as usize;
    let dest_pos = dest_pos as usize;
    let length = length as usize;
    if !range_storable(vm, src, src_pos, dest, length) {
        return Err(Exception::ArrayStoreException);
    }
    let src_is_str = match vm.heap.get(src) {
        Oop::Str(_) => true,
        _ => false,
    };
    if src_is_str {
        copy_from_str(&mut vm.heap, src, src_pos, dest, dest_pos, length);
    } else if src.cell == dest.cell {
        copy_within(&mut vm.heap, src, src_pos, dest_pos, length);
    } else {
        copy_elements(&mut vm.heap, src, src_pos, dest, dest_pos, length);
    }
    Ok(None)
}

/// The id of `Properties.put(Object, Object)`.
pub open spec fn put_method_id() -> MethodIdView {
    MethodIdView {
        name: "put".spec_bytes(),
        desc: "(Ljava/lang/Object;Ljava/lang/Object;)Ljava/lang/Object;".spec_bytes(),
    }
}

/// The string carriers of the system properties: for each property its
/// key and then its value.
pub open spec fn property_cells(values: Seq<Seq<u8>>) -> Seq<OopView> {
    Seq::new(
        2 * PROPERTY_COUNT as nat,
        |j: int|
            if j % 2 == 0 {
                OopView::Str(property_keys()[j / 2].spec_bytes())
            } else {
                OopView::Str(values[j / 2])
            },
    )
}

/// The calls that install the system properties: for each property one call
/// of `method` on `props` with the key and the value, which stand in the
/// heap from cell `base` on.
pub open spec fn property_calls(method: MethodRef, props: OopRef, base: int) -> Seq<
    InvocationView,
> {
    Seq::new(
        PROPERTY_COUNT as nat,
        |i: int|
            InvocationView {
                method,
                args: seq![
                    props,
                    OopRef { cell: (base + 2 * i) as usize },
                    OopRef { cell: (base + 2 * i + 1) as usize },
                ],
            },
    )
}

/// The views of a vector of calls.
pub open spec fn invocation_views(calls: Seq<Invocation>) -> Seq<InvocationView> {
    calls.map_values(|c: Invocation| c@)
}

/// The call at place `j` among those that `System.initProperties` hands
/// out: a call of `method` on `props` with a string carrier of the key at
/// that place and one of what the machine holds for it.
proof fn lemma_property_call(vm: VmView, method: MethodRef, props: OopRef, j: int)
    requires
        vm.properties.len() == PROPERTY_COUNT,
        vm.heap.len() + 2 * PROPERTY_COUNT <= usize::MAX,
        0 <= j < PROPERTY_COUNT,
    ensures
        ({
            let heap = vm.heap + property_cells(vm.properties);
            let call = property_calls(method, props, vm.heap.len() as int)[j];
            &&& call.method == method
            &&& call.args.len() == 3
            &&& call.args[0] == props
            &&& heap[call.args[1].cell as int] == OopView::Str(property_keys()[j].spec_bytes())
            &&& heap[call.args[2].cell as int] == OopView::Str(vm.properties[j])
        }),
{
    let cells = property_cells(vm.properties);
    let heap = vm.heap + cells;
    let base = vm.heap.len() as int;
    let call = property_calls(method, props, base)[j];
    assert(call.args[1].cell == base + 2 * j);
    assert(call.args[2].cell == base + 2 * j + 1);
    assert(heap[base + 2 * j] == cells[2 * j]);
    assert(heap[base + 2 * j + 1] == cells[2 * j + 1]);
    assert((2 * j) % 2 == 0 && (2 * j) / 2 == j);
    assert((2 * j + 1) % 2 == 1 && (2 * j + 1) / 2 == j);
}

/// `System.initProperties` asks for each system property to be put
/// exactly once. Of the calls that it hands out, the one at the place of
/// a key, and no other, has a string carrier of that key as its key; its
/// value is a string carrier of what the machine holds for the key, and it
/// is a call of `method` on `props`.
pub proof fn lemma_init_properties_puts_each_key_once(
    vm: VmView,
    method: MethodRef,
    props: OopRef,
    i: int,
)
    requires
        vm.properties.len() == PROPERTY_COUNT,
        vm.heap.len() + 2 * PROPERTY_COUNT <= usize::MAX,
        0 <= i < PROPERTY_COUNT,
    ensures
        ({
            let heap = vm.heap + property_cells(vm.properties);
            let calls = property_calls(method, props, vm.heap.len() as int);
            let key = OopView::Str(property_keys()[i].spec_bytes());
            &&& calls.len() == PROPERTY_COUNT
            &&& forall|j: int|
                0 <= j < calls.len() ==> (heap[(#[trigger] calls[j]).args[1].cell as int] == key
                    <==> j == i)
            &&& heap[calls[i].args[2].cell as int] == OopView::Str(vm.properties[i])
            &&& calls[i].args[0] == props
            &&& calls[i].method == method
        }),
{
    let heap = vm.heap + property_cells(vm.properties);
    let calls = property_calls(method, props, vm.heap.len() as int);
    let key = OopView::Str(property_keys()[i].spec_bytes());
    lemma_property_call(vm, method, props, i);
    assert forall|j: int| 0 <= j < calls.len() implies (heap[(
    #[trigger] calls[j]).args[1].cell as int] == key <==> j == i) by {
        lemma_property_call(vm, method, props, j);
        lemma_keys_differ();
        if property_keys()[j].spec_bytes() == property_keys()[i].spec_bytes() {
            assert(j == i);
        }
    }
}

/// On a machine that holds `separator` for the key `file.separator`,
/// `System.initProperties` asks for exactly one put whose key is a string
/// carrier of `file.separator`, and the value of that put is a string
/// carrier of `separator`.
pub proof fn lemma_init_properties_puts_the_file_separator(
    vm: VmView,
    method: MethodRef,
    props: OopRef,
    separator: Seq<u8>,
)
    requires
        vm.properties.len() == PROPERTY_COUNT,
        vm.heap.len() + 2 * PROPERTY_COUNT <= usize::MAX,
        key_position(property_keys(), "file.separator".spec_bytes(), 0) matches Some(i)
            && vm.properties[i] == separator,
    ensures
        ({
            let heap = vm.heap + property_cells(vm.properties);
            let calls = property_calls(method, props, vm.heap.len() as int);
            let key = OopView::Str("file.separator".spec_bytes());
            exists|i: int|
                {
                    &&& 0 <= i < calls.len()
                    &&& forall|j: int|
                        0 <= j < calls.len() ==> (heap[(#[trigger] calls[j]).args[1].cell as int]
                            == key <==> j == i)
                    &&& #[trigger] heap[calls[i].args[2].cell as int] == OopView::Str(separator)
                }
        }),
{
    lemma_key_position(11);
    assert(property_keys()[11] == "file.separator");
    lemma_init_properties_puts_each_key_once(vm, method, props, 11);
    let heap = vm.heap + property_cells(vm.properties);
    let calls = property_calls(method, props, vm.heap.len() as int);
    assert(heap[calls[11].args[2].cell as int] == OopView::Str(separator));
}

/// `System.initProperties(props)`.
///
/// Puts the key and the value of each system property into the heap as
/// string carriers, and gives back the calls of `props.put(key, value)`
/// that install them, in the order of the keys, together with what the
/// native method returns once the calls are made: `props` itself. The
/// caller makes the calls.
pub fn jvm_initProperties(vm: &mut Vm, _env: JNIEnv, args: Vec<OopRef>) -> (r: (
    Vec<Invocation>,
    JNIResult,
))
    requires
        old(vm).wf(),
        arg_present(old(vm)@.heap, args@, 0),
        old(vm)@.heap[args@[0].cell as int] is Inst,
        virtual_method(
            old(vm)@.classes,
            old(vm)@.heap[args@[0].cell as int]->Inst_class.index as int,
            put_method_id(),
        ) is Some,
    ensures
        final(vm).wf(),
        final(vm)@ == (VmView {
            heap: old(vm)@.heap + property_cells(old(vm)@.properties),
            ..old(vm)@
        }),
        invocation_views(r.0@) == property_calls(
            virtual_method(
                old(vm)@.classes,
                old(vm)@.heap[args@[0].cell as int]->Inst_class.index as int,
                put_method_id(),
            )->Some_0,
            args@[0],
            old(vm)@.heap.len() as int,
        ),
        r.1 == Ok::<Option<OopRef>, Exception>(Some(args@[0])),
{
    let props = args[0];
    let class = match vm.heap.get(props) {
        Oop::Inst { class, .. } => *class,
        _ => ClassId { index: 0 },
    };
    assert(cell_fits(vm.heap@[props.cell as int], vm.classes@));
    let id = new_method_id(
        "put".as_bytes(),
        "(Ljava/lang/Object;Ljava/lang/Object;)Ljava/lang/Object;".as_bytes(),
    );
    let method = match vm.classes.get_virtual_method(class, &id) {
        Some(m) => m,
        None => MethodRef { class, index: 0 },
    };
    let keys = property_key_table();
    let ghost before = vm@;
    let base = vm.heap.len();
    let mut calls: Vec<Invocation> = Vec::new();
    let mut i: usize = 0;
    while i < PROPERTY_COUNT
        invariant
            vm.wf(),
            keys@ == property_keys(),
            i <= PROPERTY_COUNT,
            base == before.heap.len(),
            props.cell < base,
            vm@.classes == before.classes,
            vm@.properties == before.properties,
            vm@.heap == before.heap + property_cells(before.properties).subrange(0, 2 * i),
            calls@.len() == i,
            invocation_views(calls@) == property_calls(method, props, base as int).subrange(
                0,
                i as int,
            ),
        decreases PROPERTY_COUNT - i,
    {
        let ghost heap_before = vm.heap@;
        let key = keys[i].as_bytes_vec();
        let value = bytes_to_vec(vm.properties[i].as_slice());
        let k = vm.heap.new_str(key);
        let v = vm.heap.new_str(value);
        let mut call_args: Vec<OopRef> = Vec::new();
        call_args.push(props);
        call_args.push(k);
        call_args.push(v);
        let call = Invocation { method, args: call_args };
        proof {
            let cells = property_cells(before.properties);
            assert(cells[2 * i] == OopView::Str(keys@[i as int].spec_bytes()));
            assert(cells[2 * i + 1] == OopView::Str(before.properties[i as int]));
            assert(vm.heap@ =~= before.heap + cells.subrange(0, 2 * (i + 1)));
            assert(call@.args =~= property_calls(method, props, base as int)[i as int].args);
            let key_cell = OopView::Str(keys@[i as int].spec_bytes());
            lemma_cells_fit_with_cell(heap_before, key_cell, vm.classes@);
            lemma_cells_fit_with_cell(
                heap_before.push(key_cell),
                OopView::Str(before.properties[i as int]),
                vm.classes@,
            );
        }
        let ghost calls_before = calls@;
        let ghost call_view = call@;
        calls.push(call);
        proof {
            let all = property_calls(method, props, base as int);
            assert(call_view == all[i as int]);
            assert forall|j: int| 0 <= j < i + 1 implies invocation_views(calls@)[j] == all[j] by {
                if j < i {
                    assert(calls@[j] == calls_before[j]);
                    assert(invocation_views(calls_before)[j] == all.subrange(0, i as int)[j]);
                }
            }
            assert(invocation_views(calls@) =~= all.subrange(0, i + 1));
        }
        i = i + 1;
    }
    proof {
        let cells = property_cells(before.properties);
        assert(cells.subrange(0, 2 * PROPERTY_COUNT as int) =~= cells);
        let all = property_calls(method, props, base as int);
        assert(all.subrange(0, PROPERTY_COUNT as int) =~= all);
    }
    (calls, Ok(Some(props)))
}

/// Stores argument 0 in the static field of this name and descriptor that
/// the class of `env` resolves.
fn set_static_field(vm: &mut Vm, env: JNIEnv, args: &Vec<OopRef>, name: &str, desc: &str)
    requires
        old(vm).wf(),
        arg_present(old(vm)@.heap, args@, 0),
        old(vm).classes.contains(env.class),
        resolve_field(
            old(vm)@.classes,
            env.class.index as int,
            name.spec_bytes(),
            desc.spec_bytes(),
            true,
        ) is Some,
    ensures
        final(vm).wf(),
        final(vm)@ == vm_with_static(old(vm)@, env, name.spec_bytes(), desc.spec_bytes(), args@[0]),
{
    let v = args[0];
    match vm.classes.get_field_id(env.class, name.as_bytes(), desc.as_bytes(), true) {
        Some(id) => {
            vm.put_static_field_value(id, v);
        },
        None => {},
    }
}

/// What the caller of `System.initProperties` does next while it makes
/// the calls that the native method has handed it.
pub enum InstallStep {
    /// Make this call, and ask again.
    Call(Invocation),
    /// Every call is made: the native method returns this.
    Done(JNIResult),
    /// The last call has left an exception in flight: no further call is
    /// made, and the exception goes on to the caller of the native method.
    Raised,
}

pub enum InstallStepView {
    Call(InvocationView),
    Done(JNIResult),
    Raised,
}

impl View for InstallStep {
    type V = InstallStepView;

    open spec fn view(&self) -> InstallStepView {
        match *self {
            InstallStep::Call(call) => InstallStepView::Call(call@),
            InstallStep::Done(r) => InstallStepView::Done(r),
            InstallStep::Raised => InstallStepView::Raised,
        }
    }
}

/// The step after `made` of the calls `calls` were made, where `raised`
/// says whether the last of them left an exception in flight and `result`
/// is what the native method returns in the end. Before the first call
/// there is no last one, and `raised` says nothing.
pub open spec fn install_step(
    calls: Seq<InvocationView>,
    result: JNIResult,
    made: int,
    raised: bool,
) -> InstallStepView {
    if made > 0 && raised {
        InstallStepView::Raised
    } else if made < calls.len() {
        InstallStepView::Call(calls[made])
    } else {
        InstallStepView::Done(result)
    }
}

/// The number of calls that are made of `calls`, where `raises[i]` says
/// whether call `i` leaves an exception in flight: the calls up to and
/// including the first that does, or all of them.
pub open spec fn calls_made(raises: Seq<bool>, made: int) -> int
    decreases raises.len() - made,
{
    if made < 0 || made >= raises.len() {
        made
    } else if raises[made] {
        made + 1
    } else {
        calls_made(raises, made + 1)
    }
}

/// What [`lemma_install_run`] says, from the call `made` on, where none of
/// the calls before it has raised.
proof fn lemma_install_run_from(
    calls: Seq<InvocationView>,
    result: JNIResult,
    raises: Seq<bool>,
    made: int,
)
    requires
        raises.len() == calls.len(),
        0 <= made <= calls.len(),
        forall|i: int| 0 <= i < made ==> !raises[i],
    ensures
        made <= calls_made(raises, made) <= calls.len(),
        forall|i: int|
            made <= i < calls_made(raises, made) ==> install_step(
                calls,
                result,
                i,
                i > 0 && #[trigger] raises[i - 1],
            ) == InstallStepView::Call(calls[i]),
        ({
            let n = calls_made(raises, made);
            install_step(calls, result, n, n > 0 && raises[n - 1]) == if exists|i: int|
                0 <= i < raises.len() && raises[i] {
                InstallStepView::Raised
            } else {
                InstallStepView::Done(result)
            }
        }),
    decreases calls.len() - made,
{
    if made < raises.len() && !raises[made] {
        lemma_install_run_from(calls, result, raises, made + 1);
        let n = calls_made(raises, made);
        assert forall|i: int| made <= i < n implies install_step(
            calls,
            result,
            i,
            i > 0 && #[trigger] raises[i - 1],
        ) == InstallStepView::Call(calls[i]) by {
            if i == made {
                if i > 0 {
                    assert(!raises[i - 1]);
                }
            }
        }
    } else if made < raises.len() {
        assert(raises[made]);
        if made > 0 {
            assert(!raises[made - 1]);
        }
    } else {
        if made > 0 {
            assert(!raises[made - 1]);
        }
    }
}

/// Following [`install_step`] from the first call on, the calls are made
/// in their order and each at most once; the native method returns its
/// result if and only if none of them raised, and otherwise the first
/// exception reaches the caller and nothing is called after it.
pub proof fn lemma_install_run(calls: Seq<InvocationView>, result: JNIResult, raises: Seq<bool>)
    requires
        raises.len() == calls.len(),
    ensures
        0 <= calls_made(raises, 0) <= calls.len(),
        forall|i: int|
            0 <= i < calls_made(raises, 0) ==> install_step(
                calls,
                result,
                i,
                i > 0 && #[trigger] raises[i - 1],
            ) == InstallStepView::Call(calls[i]),
        ({
            let n = calls_made(raises, 0);
            install_step(calls, result, n, n > 0 && raises[n - 1]) == if exists|i: int|
                0 <= i < raises.len() && raises[i] {
                InstallStepView::Raised
            } else {
                InstallStepView::Done(result)
            }
        }),
{
    lemma_install_run_from(calls, result, raises, 0);
}

/// A call with the method and the arguments of `call`.
fn same_call(call: &Invocation) -> (r: Invocation)
    ensures
        r@ == call@,
{
    let mut args: Vec<OopRef> = Vec::new();
    let mut i: usize = 0;
    while i < call.args.len()
        invariant
            i <= call.args.len(),
            args@ == call.args@.take(i as int),
        decreases call.args.len() - i,
    {
        args.push(call.args[i]);
        assert(call.args@.take(i + 1) =~= call.args@.take(i as int).push(call.args@[i as int]));
        i = i + 1;
    }
    assert(call.args@.take(i as int) =~= call.args@);
    Invocation { method: call.method, args }
}

/// One step of making the calls that [`jvm_initProperties`] has handed
/// out: see [`install_step`].
pub fn jvm_initProperties_step(
    calls: &Vec<Invocation>,
    result: JNIResult,
    made: usize,
    raised: bool,
) -> (step: InstallStep)
    ensures
        step@ == install_step(invocation_views(calls@), result, made as int, raised),
{
    if made > 0 && raised {
        InstallStep::Raised
    } else if made < calls.len() {
        InstallStep::Call(same_call(&calls[made]))
    } else {
        InstallStep::Done(result)
    }
}

/// The machine `vm` with `value` in the static field of this name and
/// descriptor that the class of `env` resolves.
pub open spec fn vm_with_static(
    vm: VmView,
    env: JNIEnv,
    name: Seq<u8>,
    desc: Seq<u8>,
    value: OopRef,
) -> VmView {
    let id = resolve_field(vm.classes, env.class.index as int, name, desc, true)->Some_0;
    VmView {
        classes: vm.classes.update(
            id.class.index as int,
            with_static(vm.classes[id.class.index as int], id.slot as int, value),
        ),
        ..vm
    }
}

/// `System.setIn0(in)`: stores `in` in the static field `System.in`.
pub fn jvm_setIn0(vm: &mut Vm, env: JNIEnv, args: Vec<OopRef>) -> (r: JNIResult)
    requires
        old(vm).wf(),
        arg_present(old(vm)@.heap, args@, 0),
        old(vm).classes.contains(env.class),
        resolve_field(
            old(vm)@.classes,
            env.class.index as int,
            "in".spec_bytes(),
            "Ljava/io/InputStream;".spec_bytes(),
            true,
        ) is Some,
    ensures
        final(vm).wf(),
        final(vm)@ == vm_with_static(
            old(vm)@,
            env,
            "in".spec_bytes(),
            "Ljava/io/InputStream;".spec_bytes(),
            args@[0],
        ),
        r == Ok::<Option<OopRef>, Exception>(None),
{
    set_static_field(vm, env, &args, "in", "Ljava/io/InputStream;");
    Ok(None)
}

/// `System.setOut0(out)`: stores `out` in the static field `System.out`.
pub fn jvm_setOut0(vm: &mut Vm, env: JNIEnv, args: Vec<OopRef>) -> (r: JNIResult)
    requires
        old(vm).wf(),
        arg_present(old(vm)@.heap, args@, 0),
        old(vm).classes.contains(env.class),
        resolve_field(
            old(vm)@.classes,
            env.class.index as int,
            "out".spec_bytes(),
            "Ljava/io/PrintStream;".spec_bytes(),
            true,
        ) is Some,
    ensures
        final(vm).wf(),
        final(vm)@ == vm_with_static(
            old(vm)@,
            env,
            "out".spec_bytes(),
            "Ljava/io/PrintStream;".spec_bytes(),
            args@[0],
        ),
        r == Ok::<Option<OopRef>, Exception>(None),
{
    set_static_field(vm, env, &args, "out", "Ljava/io/PrintStream;");
    Ok(None)
}

/// `System.setErr0(err)`: stores `err` in the static field `System.err`.
pub fn jvm_setErr0(vm: &mut Vm, env: JNIEnv, args: Vec<OopRef>) -> (r: JNIResult)
    requires
        old(vm).wf(),
        arg_present(old(vm)@.heap, args@, 0),
        old(vm).classes.contains(env.class),
        resolve_field(
            old(vm)@.classes,
            env.class.index as int,
            "err".spec_bytes(),
            "Ljava/io/PrintStream;".spec_bytes(),
            true,
        ) is Some,
    ensures
        final(vm).wf(),
        final(vm)@ == vm_with_static(
            old(vm)@,
            env,
            "err".spec_bytes(),
            "Ljava/io/PrintStream;".spec_bytes(),
            args@[0],
        ),
        r == Ok::<Option<OopRef>, Exception>(None),
{
    set_static_field(vm, env, &args, "err", "Ljava/io/PrintStream;");
    Ok(None)
}

/// The id of `Properties.getProperty(String)`.
pub open spec fn get_property_method_id() -> MethodIdView {
    MethodIdView {
        name: "getProperty".spec_bytes(),
        desc: "(Ljava/lang/String;)Ljava/lang/String;".spec_bytes(),
    }
}

/// The static field `System.props`, as the loaded class `java/lang/System`
/// resolves it.
pub open spec fn props_field(classes: Seq<ClassView>) -> Option<FieldId> {
    match first_class(classes, "java/lang/System".spec_bytes(), 0) {
        Some(system) => resolve_field(
            classes,
            system.index as int,
            "props".spec_bytes(),
            "Ljava/util/Properties;".spec_bytes(),
            true,
        ),
        None => None,
    }
}

/// The method `getProperty(String)` that the loaded class
/// `java/util/Properties` itself declares.
pub open spec fn get_property_method(classes: Seq<ClassView>) -> Option<MethodRef> {
    match first_class(classes, "java/util/Properties".spec_bytes(), 0) {
        Some(properties) => class_method(
            classes,
            properties.index as int,
            get_property_method_id(),
        ),
        None => None,
    }
}

/// What `System.getProperty` asks of its caller next.
#[derive(Clone, PartialEq, Eq, Debug)]
pub enum PropertyStep {
    /// Run the initializer of this class, report how it ended, and ask
    /// again.
    Initialize(ClassId),
    /// Wait until another thread has initialized this class, and ask
    /// again.
    Wait(ClassId),
    /// Raise this exception: a class that is needed has failed to
    /// initialize.
    Fail(Exception),
    /// Make this call on a stack of its own and hand that stack to
    /// [`jvm_getProperty_return`].
    Call(Invocation),
}

pub enum PropertyStepView {
    Initialize(ClassId),
    Wait(ClassId),
    Fail(Exception),
    Call(InvocationView),
}

impl View for PropertyStep {
    type V = PropertyStepView;

    open spec fn view(&self) -> PropertyStepView {
        match *self {
            PropertyStep::Initialize(c) => PropertyStepView::Initialize(c),
            PropertyStep::Wait(c) => PropertyStepView::Wait(c),
            PropertyStep::Fail(e) => PropertyStepView::Fail(e),
            PropertyStep::Call(call) => PropertyStepView::Call(call@),
        }
    }
}

/// The machine after the thread `thread` has asked for class `c`
/// initialized, and what keeps the thread from going on, if anything does:
/// it is to run the initializer, to wait, or to fail.
pub open spec fn asked_for(vm: VmView, c: ClassId, thread: u64) -> (
    VmView,
    Option<PropertyStepView>,
) {
    let request = init_request(vm.classes[c.index as int].state, thread);
    match request.1 {
        InitAction::Run => (
            VmView {
                classes: vm.classes.update(
                    c.index as int,
                    with_state(vm.classes[c.index as int], request.0),
                ),
                ..vm
            },
            Some(PropertyStepView::Initialize(c)),
        ),
        InitAction::Wait => (vm, Some(PropertyStepView::Wait(c))),
        InitAction::Fail => (vm, Some(PropertyStepView::Fail(Exception::NoClassDefFoundError))),
        InitAction::Proceed => (vm, None),
    }
}

/// The call of `props.getProperty(key)`, where `props` is the value of the
/// static field `System.props`.
pub open spec fn get_property_call(vm: VmView, args: Seq<OopRef>) -> InvocationView {
    let props = props_field(vm.classes)->Some_0;
    InvocationView {
        method: get_property_method(vm.classes)->Some_0,
        args: seq![
            vm.classes[props.class.index as int].static_field_values[props.slot as int],
            args[0],
        ],
    }
}

/// What `System.getProperty(key)` does when the thread `thread` calls it.
///
/// The thread asks for `java/lang/System` initialized, and then for
/// `java/util/Properties`. The first of the two that is not ready for the
/// thread decides the step: the thread is to run its initializer, to wait
/// for it, or to fail. Only where both are ready is the static field read
/// and the call handed back.
pub open spec fn get_property_step(vm: VmView, thread: u64, args: Seq<OopRef>) -> (
    VmView,
    PropertyStepView,
) {
    let system = first_class(vm.classes, "java/lang/System".spec_bytes(), 0)->Some_0;
    let properties = first_class(vm.classes, "java/util/Properties".spec_bytes(), 0)->Some_0;
    let first = asked_for(vm, system, thread);
    match first.1 {
        Some(step) => (first.0, step),
        None => {
            let second = asked_for(vm, properties, thread);
            match second.1 {
                Some(step) => (second.0, step),
                None => (vm, PropertyStepView::Call(get_property_call(vm, args))),
            }
        },
    }
}

/// Asks for class `c` initialized on behalf of the thread `thread`.
fn ask_for(vm: &mut Vm, c: ClassId, thread: u64) -> (r: Option<PropertyStep>)
    requires
        old(vm).wf(),
        old(vm).classes.contains(c),
    ensures
        final(vm).wf(),
        final(vm)@ == asked_for(old(vm)@, c, thread).0,
        match asked_for(old(vm)@, c, thread).1 {
            Some(step) => r matches Some(got) && got@ == step,
            None => r is None,
        },
{
    let action = vm.request_initialization(c, thread);
    proof {
        let before = old(vm)@.classes;
        let state = before[c.index as int].state;
        if init_request(state, thread).1 != InitAction::Run {
            assert(init_request(state, thread).0 == state);
            assert(before.update(c.index as int, with_state(before[c.index as int], state))
                =~= before);
        }
    }
    match action {
        InitAction::Run => Some(PropertyStep::Initialize(c)),
        InitAction::Wait => Some(PropertyStep::Wait(c)),
        InitAction::Fail => Some(PropertyStep::Fail(Exception::NoClassDefFoundError)),
        InitAction::Proceed => None,
    }
}

/// Whether `System.getProperty` can be called with `args` on the machine:
/// the key is there, and the classes `java/lang/System` and
/// `java/util/Properties` are loaded with the field and the method that
/// the call needs.
pub open spec fn get_property_ready(vm: VmView, args: Seq<OopRef>) -> bool {
    &&& arg_present(vm.heap, args, 0)
    &&& props_field(vm.classes) is Some
    &&& get_property_method(vm.classes) is Some
}

/// Whether `System.getProperty` can be called with `args`.
pub fn can_get_property(vm: &Vm, args: &Vec<OopRef>) -> (r: bool)
    requires
        vm.wf(),
    ensures
        r == get_property_ready(vm@, args@),
{
    if args.len() == 0 || args[0].cell >= vm.heap.len() {
        return false;
    }
    let has_field = match vm.classes.find_class("java/lang/System".as_bytes()) {
        Some(system) => vm.classes.get_field_id(
            system,
            "props".as_bytes(),
            "Ljava/util/Properties;".as_bytes(),
            true,
        ).is_some(),
        None => false,
    };
    let id = new_method_id(
        "getProperty".as_bytes(),
        "(Ljava/lang/String;)Ljava/lang/String;".as_bytes(),
    );
    let has_method = match vm.classes.find_class("java/util/Properties".as_bytes()) {
        Some(properties) => vm.classes.get_class_method(properties, &id).is_some(),
        None => false,
    };
    has_field && has_method
}

/// `System.getProperty(key)`, called by the thread `thread`: one step of
/// it. The classes `java/lang/System` and `java/util/Properties` are asked
/// for initialized before anything of them is read; see
/// [`get_property_step`].
pub fn jvm_getProperty(vm: &mut Vm, thread: u64, _env: JNIEnv, args: Vec<OopRef>) -> (step:
    PropertyStep)
    requires
        old(vm).wf(),
        arg_present(old(vm)@.heap, args@, 0),
        props_field(old(vm)@.classes) is Some,
        get_property_method(old(vm)@.classes) is Some,
    ensures
        final(vm).wf(),
        (final(vm)@, step@) == get_property_step(old(vm)@, thread, args@),
{
    let key = args[0];
    let system = match vm.classes.find_class("java/lang/System".as_bytes()) {
        Some(system) => system,
        None => ClassId { index: 0 },
    };
    let properties = match vm.classes.find_class("java/util/Properties".as_bytes()) {
        Some(properties) => properties,
        None => ClassId { index: 0 },
    };
    match ask_for(vm, system, thread) {
        Some(step) => {
            return step;
        },
        None => {},
    }
    match ask_for(vm, properties, thread) {
        Some(step) => {
            return step;
        },
        None => {},
    }
    let props = match vm.classes.get_field_id(
        system,
        "props".as_bytes(),
        "Ljava/util/Properties;".as_bytes(),
        true,
    ) {
        Some(id) => vm.classes.get_static_field_value(id),
        None => key,
    };
    let id = new_method_id(
        "getProperty".as_bytes(),
        "(Ljava/lang/String;)Ljava/lang/String;".as_bytes(),
    );
    let method = match vm.classes.get_class_method(properties, &id) {
        Some(m) => m,
        None => MethodRef { class: properties, index: 0 },
    };
    let mut call_args: Vec<OopRef> = Vec::new();
    call_args.push(props);
    call_args.push(key);
    let call = Invocation { method, args: call_args };
    assert(call@.args =~= seq![props, key]);
    PropertyStep::Call(call)
}

/// What happens to a machine on which threads call `System.getProperty`.
pub enum PropertyEvent {
    /// The thread of this id calls `System.getProperty`.
    Call(u64),
    /// The thread of this id reports that the initializer of this class
    /// has ended, well or not.
    Finish(ClassId, u64, bool),
}

/// Whether the two classes of `System.getProperty` are among the loaded
/// classes.
pub open spec fn property_classes_loaded(classes: Seq<ClassView>) -> bool {
    &&& classes.len() <= usize::MAX
    &&& first_class(classes, "java/lang/System".spec_bytes(), 0) is Some
    &&& first_class(classes, "java/util/Properties".spec_bytes(), 0) is Some
}

/// Whether the two classes of `System.getProperty` are among the loaded
/// classes, and `events` speak of loaded classes alone.
pub open spec fn property_events_fit(classes: Seq<ClassView>, events: Seq<PropertyEvent>) -> bool {
    &&& property_classes_loaded(classes)
    &&& forall|i: int|
        0 <= i < events.len() ==> ((#[trigger] events[i]) matches PropertyEvent::Finish(c, _, _)
            ==> c.index < classes.len())
}

/// The machine after one event.
pub open spec fn after_property_event(vm: VmView, event: PropertyEvent, args: Seq<OopRef>) -> VmView {
    match event {
        PropertyEvent::Call(thread) => get_property_step(vm, thread, args).0,
        PropertyEvent::Finish(c, thread, ok) => VmView {
            classes: vm.classes.update(
                c.index as int,
                with_state(
                    vm.classes[c.index as int],
                    init_finish(vm.classes[c.index as int].state, thread, ok),
                ),
            ),
            ..vm
        },
    }
}

/// Whether the event is a call of `System.getProperty` that tells its
/// thread to run the initializer of class `c`.
pub open spec fn starts_initializer(
    vm: VmView,
    event: PropertyEvent,
    args: Seq<OopRef>,
    c: ClassId,
) -> bool {
    event matches PropertyEvent::Call(thread) && get_property_step(vm, thread, args).1
        == PropertyStepView::Initialize(c)
}

/// Whether the event is a call of `System.getProperty` that goes through:
/// the static field is read and the call of `getProperty` is handed back.
pub open spec fn goes_through(vm: VmView, event: PropertyEvent, args: Seq<OopRef>) -> bool {
    event matches PropertyEvent::Call(thread) && get_property_step(vm, thread, args).1 is Call
}

/// The number of times that a thread is told to run the initializer of
/// class `c` while `events` happen.
pub open spec fn initializations(
    vm: VmView,
    events: Seq<PropertyEvent>,
    args: Seq<OopRef>,
    c: ClassId,
) -> nat
    decreases events.len(),
{
    if events.len() == 0 {
        0
    } else {
        (if starts_initializer(vm, events[0], args, c) {
            1nat
        } else {
            0nat
        }) + initializations(
            after_property_event(vm, events[0], args),
            events.drop_first(),
            args,
            c,
        )
    }
}

/// Whether one of the calls among `events` goes through.
pub open spec fn some_call_goes_through(
    vm: VmView,
    events: Seq<PropertyEvent>,
    args: Seq<OopRef>,
) -> bool
    decreases events.len(),
{
    events.len() > 0 && (goes_through(vm, events[0], args) || some_call_goes_through(
        after_property_event(vm, events[0], args),
        events.drop_first(),
        args,
    ))
}

/// The class of a name is found among the loaded classes, and stays the
/// class of that name when a class changes its state.
proof fn lemma_first_class_keeps(
    classes: Seq<ClassView>,
    i: int,
    state: InitState,
    name: Seq<u8>,
    from: int,
)
    requires
        0 <= i < classes.len() <= usize::MAX,
    ensures
        first_class(classes.update(i, with_state(classes[i], state)), name, from) == first_class(
            classes,
            name,
            from,
        ),
        first_class(classes, name, from) matches Some(id) ==> from <= id.index < classes.len(),
    decreases classes.len() - from,
{
    if 0 <= from < classes.len() {
        lemma_first_class_keeps(classes, i, state, name, from + 1);
    }
}

/// A call of `System.getProperty` goes through only where the two classes
/// are initialized for its thread: each is initialized, or the thread
/// itself is running its initializer. A thread is told to run the
/// initializer of a class only where the class is loaded and not
/// initialized, and the class then remembers that thread. No other step
/// changes the machine.
pub proof fn lemma_get_property_step(vm: VmView, thread: u64, args: Seq<OopRef>)
    requires
        property_classes_loaded(vm.classes),
    ensures
        ({
            let system = first_class(vm.classes, "java/lang/System".spec_bytes(), 0)->Some_0;
            let properties = first_class(vm.classes, "java/util/Properties".spec_bytes(), 0)->Some_0;
            let after = get_property_step(vm, thread, args).0;
            match get_property_step(vm, thread, args).1 {
                PropertyStepView::Call(_) => {
                    &&& after == vm
                    &&& init_request(vm.classes[system.index as int].state, thread).1
                        == InitAction::Proceed
                    &&& init_request(vm.classes[properties.index as int].state, thread).1
                        == InitAction::Proceed
                },
                PropertyStepView::Initialize(c) => {
                    &&& c == system || c == properties
                    &&& vm.classes[c.index as int].state == InitState::Loaded
                    &&& after == (VmView {
                        classes: vm.classes.update(
                            c.index as int,
                            with_state(
                                vm.classes[c.index as int],
                                InitState::BeingInitialized(thread),
                            ),
                        ),
                        ..vm
                    })
                },
                PropertyStepView::Wait(c) => {
                    &&& c == system || c == properties
                    &&& vm.classes[c.index as int].state is BeingInitialized
                    &&& vm.classes[c.index as int].state != InitState::BeingInitialized(thread)
                    &&& after == vm
                },
                PropertyStepView::Fail(e) => {
                    &&& e == Exception::NoClassDefFoundError
                    &&& vm.classes[system.index as int].state == InitState::Errored
                        || vm.classes[properties.index as int].state == InitState::Errored
                    &&& after == vm
                },
            }
        }),
{
}

/// One event leaves the loaded classes with their names, and changes the
/// state of a class only as the protocol of initialization has it.
proof fn lemma_property_event(vm: VmView, event: PropertyEvent, args: Seq<OopRef>, c: ClassId)
    requires
        property_events_fit(vm.classes, seq![event]),
        c.index < vm.classes.len(),
    ensures
        ({
            let after = after_property_event(vm, event, args);
            let state = vm.classes[c.index as int].state;
            &&& property_classes_loaded(after.classes)
            &&& after.classes.len() == vm.classes.len()
            &&& first_class(after.classes, "java/lang/System".spec_bytes(), 0) == first_class(
                vm.classes,
                "java/lang/System".spec_bytes(),
                0,
            )
            &&& first_class(after.classes, "java/util/Properties".spec_bytes(), 0) == first_class(
                vm.classes,
                "java/util/Properties".spec_bytes(),
                0,
            )
            &&& starts_initializer(vm, event, args, c) ==> state == InitState::Loaded
            &&& after.classes[c.index as int].state == InitState::Loaded ==> state
                == InitState::Loaded && !starts_initializer(vm, event, args, c)
        }),
{
    let system_name = "java/lang/System".spec_bytes();
    let properties_name = "java/util/Properties".spec_bytes();
    let system = first_class(vm.classes, system_name, 0)->Some_0;
    let properties = first_class(vm.classes, properties_name, 0)->Some_0;
    lemma_first_class_keeps(vm.classes, 0, InitState::Loaded, system_name, 0);
    lemma_first_class_keeps(vm.classes, 0, InitState::Loaded, properties_name, 0);
    assert(seq![event][0] == event);
    match event {
        PropertyEvent::Call(thread) => {
            lemma_get_property_step(vm, thread, args);
            match get_property_step(vm, thread, args).1 {
                PropertyStepView::Initialize(d) => {
                    let state = InitState::BeingInitialized(thread);
                    lemma_first_class_keeps(vm.classes, d.index as int, state, system_name, 0);
                    lemma_first_class_keeps(vm.classes, d.index as int, state, properties_name, 0);
                },
                _ => {},
            }
        },
        PropertyEvent::Finish(d, thread, ok) => {
            let state = init_finish(vm.classes[d.index as int].state, thread, ok);
            lemma_first_class_keeps(vm.classes, d.index as int, state, system_name, 0);
            lemma_first_class_keeps(vm.classes, d.index as int, state, properties_name, 0);
        },
    }
}

/// Whatever threads call `System.getProperty`, in whatever order, and
/// whenever the initializers are reported to have ended: of no class is a
/// thread told twice to run the initializer, and of a class that has left
/// the state in which it was loaded no thread is told so at all.
pub proof fn lemma_get_property_initializes_at_most_once(
    vm: VmView,
    events: Seq<PropertyEvent>,
    args: Seq<OopRef>,
    c: ClassId,
)
    requires
        property_events_fit(vm.classes, events),
        c.index < vm.classes.len(),
    ensures
        initializations(vm, events, args, c) <= 1,
        vm.classes[c.index as int].state != InitState::Loaded ==> initializations(
            vm,
            events,
            args,
            c,
        ) == 0,
    decreases events.len(),
{
    if events.len() > 0 {
        let after = after_property_event(vm, events[0], args);
        let rest = events.drop_first();
        assert(seq![events[0]][0] == events[0]);
        lemma_property_event(vm, events[0], args, c);
        assert forall|i: int| 0 <= i < rest.len() implies ((#[trigger] rest[i]) matches PropertyEvent::Finish(
            d,
            _,
            _,
        ) ==> d.index < after.classes.len()) by {
            assert(rest[i] == events[i + 1]);
        }
        lemma_get_property_initializes_at_most_once(after, rest, args, c);
    }
}

/// Where a call of `System.getProperty` goes through, the initializer of
/// each of its two classes that was loaded and not initialized has run
/// exactly once: one thread was told to run it, before that call, and no
/// thread was told so again, however many threads have called and in
/// whatever order.
pub proof fn lemma_get_property_initializes_exactly_once(
    vm: VmView,
    events: Seq<PropertyEvent>,
    args: Seq<OopRef>,
    c: ClassId,
)
    requires
        property_events_fit(vm.classes, events),
        c == first_class(vm.classes, "java/lang/System".spec_bytes(), 0)->Some_0 || c
            == first_class(vm.classes, "java/util/Properties".spec_bytes(), 0)->Some_0,
        vm.classes[c.index as int].state == InitState::Loaded,
        some_call_goes_through(vm, events, args),
    ensures
        initializations(vm, events, args, c) == 1,
    decreases events.len(),
{
    lemma_first_class_keeps(vm.classes, 0, InitState::Loaded, "java/lang/System".spec_bytes(), 0);
    lemma_first_class_keeps(
        vm.classes,
        0,
        InitState::Loaded,
        "java/util/Properties".spec_bytes(),
        0,
    );
    let after = after_property_event(vm, events[0], args);
    let rest = events.drop_first();
    assert(seq![events[0]][0] == events[0]);
    lemma_property_event(vm, events[0], args, c);
    assert forall|i: int| 0 <= i < rest.len() implies ((#[trigger] rest[i]) matches PropertyEvent::Finish(
        d,
        _,
        _,
    ) ==> d.index < after.classes.len()) by {
        assert(rest[i] == events[i + 1]);
    }
    match events[0] {
        PropertyEvent::Call(thread) => {
            lemma_get_property_step(vm, thread, args);
        },
        PropertyEvent::Finish(_, _, _) => {},
    }
    if starts_initializer(vm, events[0], args, c) {
        lemma_get_property_initializes_at_most_once(after, rest, args, c);
    } else {
        lemma_get_property_initializes_exactly_once(after, rest, args, c);
    }
}

/// `System.getProperty(key)`, after the call that [`PropertyStep::Call`]
/// asks for was made: what the call has left on top of the stack is the
/// answer.
pub fn jvm_getProperty_return(stack: &mut Stack) -> (r: JNIResult)
    requires
        old(stack).wf(),
        old(stack)@.len() > 0,
    ensures
        final(stack).wf(),
        final(stack).capacity() == old(stack).capacity(),
        final(stack)@ == old(stack)@.drop_last(),
        r == Ok::<Option<OopRef>, Exception>(Some(old(stack)@.last())),
{
    let v = stack.pop_ref();
    Ok(Some(v))
}

} // verus!
