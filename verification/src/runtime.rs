//! The state that the whole machine shares: the heap and the class area.

use vstd::prelude::*;
use crate::bootstrap::{key_position, property_index, property_keys, PROPERTY_COUNT};
use vstd::string::StringSliceAdditionalSpecFns;
use crate::class::{
    decl_views, first_class, init_finish, init_request, lemma_subclass_layout, linked_class,
    method_views, resolve_field, static_slot_exists, with_state, with_static, ClassArea,
    ClassView, FieldDecl, FieldId, InitAction, Method,
};
use crate::oop::{
    default_handle, default_ref, initial_cells, slots, with_slot, ClassId, ComponentType, Heap,
    Oop, OopRef, OopView,
};

verus! {

/// Whether the cell `v` names only classes of `classes`, and, if it is an
/// instance, has one field value for each instance slot of its class.
pub open spec fn cell_fits(v: OopView, classes: Seq<ClassView>) -> bool {
    match v {
        OopView::Inst { class, field_values } => class.index < classes.len() && field_values.len()
            == classes[class.index as int].layout.len(),
        OopView::Mirror { target, .. } => target.index < classes.len(),
        OopView::Array { component: ComponentType::Reference(c), .. } => c.index < classes.len(),
        _ => true,
    }
}

/// Whether every cell of `cells` fits `classes`.
pub open spec fn cells_fit(cells: Seq<OopView>, classes: Seq<ClassView>) -> bool {
    forall|i: int| 0 <= i < cells.len() ==> cell_fits(#[trigger] cells[i], classes)
}

/// Whether every cell of `cells` fits `classes`, and every static field
/// value of `classes` denotes a cell of `cells`.
pub open spec fn heap_fits(cells: Seq<OopView>, classes: Seq<ClassView>) -> bool {
    &&& cells_fit(cells, classes)
    &&& forall|c: int, j: int|
        0 <= c < classes.len() && 0 <= j < classes[c].static_field_values.len() ==> (
        #[trigger] classes[c].static_field_values[j]).cell < cells.len()
}

/// Cells that fit the classes fit them still after classes were added or
/// have changed, as long as each class has kept its instance slots.
pub proof fn lemma_cells_fit_classes(
    cells: Seq<OopView>,
    before: Seq<ClassView>,
    after: Seq<ClassView>,
)
    requires
        cells_fit(cells, before),
        before.len() <= after.len(),
        forall|c: int| 0 <= c < before.len() ==> (#[trigger] after[c]).layout == before[c].layout,
    ensures
        cells_fit(cells, after),
{
    assert forall|i: int| 0 <= i < cells.len() implies cell_fits(#[trigger] cells[i], after) by {
        assert(cell_fits(cells[i], before));
    }
}

/// Cells that fit the classes fit them still with one more cell that fits.
pub proof fn lemma_cells_fit_with_cell(cells: Seq<OopView>, cell: OopView, classes: Seq<ClassView>)
    requires
        cells_fit(cells, classes),
        cell_fits(cell, classes),
    ensures
        cells_fit(cells.push(cell), classes),
{
    assert forall|i: int| 0 <= i < cells.len() + 1 implies cell_fits(
        #[trigger] cells.push(cell)[i],
        classes,
    ) by {
        if i < cells.len() {
            assert(cell_fits(cells[i], classes));
        }
    }
}

/// Cells that fit the classes fit them still after one slot of a cell was
/// given another value.
pub proof fn lemma_cells_fit_with_slot(
    cells: Seq<OopView>,
    owner: int,
    index: int,
    value: OopRef,
    classes: Seq<ClassView>,
)
    requires
        cells_fit(cells, classes),
        0 <= owner < cells.len(),
        0 <= index < slots(cells[owner]).len(),
    ensures
        cells_fit(cells.update(owner, with_slot(cells[owner], index, value)), classes),
{
    let after = cells.update(owner, with_slot(cells[owner], index, value));
    assert forall|i: int| 0 <= i < after.len() implies cell_fits(#[trigger] after[i], classes) by {
        assert(cell_fits(cells[i], classes));
    }
}

/// The loaded class `java/lang/reflect/Field`.
pub open spec fn field_class(classes: Seq<ClassView>) -> Option<ClassId> {
    first_class(classes, "java/lang/reflect/Field".spec_bytes(), 0)
}

/// The instance field `slot` of the loaded class `java/lang/reflect/Field`.
pub open spec fn slot_field(classes: Seq<ClassView>) -> Option<FieldId> {
    match field_class(classes) {
        Some(class) => resolve_field(
            classes,
            class.index as int,
            "slot".spec_bytes(),
            "I".spec_bytes(),
            false,
        ),
        None => None,
    }
}

/// Whether the cell `f` is a `java.lang.reflect.Field` object whose field
/// `slot` holds an `Int` cell.
pub open spec fn reflects_field(vm: VmView, f: OopRef) -> bool {
    &&& f.cell < vm.heap.len()
    &&& vm.heap[f.cell as int] matches OopView::Inst { class, field_values }
    &&& field_class(vm.classes) == Some(class)
    &&& slot_field(vm.classes) matches Some(id)
    &&& id.slot < field_values.len()
    &&& field_values[id.slot as int].cell < vm.heap.len()
    &&& vm.heap[field_values[id.slot as int].cell as int] is Int
}

/// The offset of the field that the `java.lang.reflect.Field` object `f`
/// stands for: the slot that the object holds in its field `slot`.
pub open spec fn field_offset(vm: VmView, f: OopRef) -> i64 {
    let field_values = vm.heap[f.cell as int]->Inst_field_values;
    let id = slot_field(vm.classes)->Some_0;
    vm.heap[field_values[id.slot as int].cell as int]->Int_0 as i64
}

/// The heap, the class area and the system property values of one
/// machine. `properties` holds one value for each key of
/// [`property_keys`], in that order.
pub struct Vm {
    pub heap: Heap,
    pub classes: ClassArea,
    pub properties: Vec<Vec<u8>>,
}

/// The mathematical value of a machine.
pub struct VmView {
    pub heap: Seq<OopView>,
    pub classes: Seq<ClassView>,
    pub properties: Seq<Seq<u8>>,
}

impl View for Vm {
    type V = VmView;

    open spec fn view(&self) -> VmView {
        VmView {
            heap: self.heap@,
            classes: self.classes@,
            properties: Seq::new(self.properties@.len(), |i: int| self.properties@[i]@),
        }
    }
}

impl Vm {
    /// The machine's invariant.
    pub open spec fn wf(&self) -> bool {
        &&& self.heap.wf()
        &&& self.classes.wf()
        &&& heap_fits(self.heap@, self.classes@)
        &&& self.properties@.len() == PROPERTY_COUNT
    }

    /// A machine whose heap holds the initial cells alone, whose class
    /// area is empty, and whose system properties all have the empty value.
    pub fn new() -> (vm: Vm)
        ensures
            vm.wf(),
            vm@.heap == initial_cells(),
            vm@.classes == Seq::<ClassView>::empty(),
            vm@.properties == Seq::new(PROPERTY_COUNT as nat, |i: int| Seq::<u8>::empty()),
    {
        let mut properties: Vec<Vec<u8>> = Vec::new();
        let mut i: usize = 0;
        while i < PROPERTY_COUNT
            invariant
                i <= PROPERTY_COUNT,
                properties@.len() == i,
                forall|k: int| 0 <= k < i ==> (#[trigger] properties@[k])@ == Seq::<u8>::empty(),
            decreases PROPERTY_COUNT - i,
        {
            properties.push(Vec::new());
            i = i + 1;
        }
        let vm = Vm { heap: Heap::new(), classes: ClassArea::new(), properties };
        assert(vm@.properties =~= Seq::new(PROPERTY_COUNT as nat, |i: int| Seq::<u8>::empty()));
        vm
    }

    /// Gives the system property `key` the value `value`, if `key` is one
    /// of the fixed keys, and says whether it is.
    pub fn set_property(&mut self, key: &[u8], value: Vec<u8>) -> (known: bool)
        requires
            old(self).wf(),
        ensures
            final(self).wf(),
            match key_position(property_keys(), key@, 0) {
                Some(i) => known && final(self)@ == (VmView {
                    properties: old(self)@.properties.update(i, value@),
                    ..old(self)@
                }),
                None => !known && final(self)@ == old(self)@,
            },
    {
        match property_index(key) {
            Some(i) => {
                self.properties[i] = value;
                assert(self@.properties =~= old(self)@.properties.update(i as int, value@));
                true
            },
            None => false,
        }
    }
}

impl Vm {
    /// Links a class that implements no interfaces and adds it to the
    /// class area. The heap and the classes that were there stay as they
    /// are.
    pub fn define_class(
        &mut self,
        name: Vec<u8>,
        super_class: Option<ClassId>,
        decls: Vec<FieldDecl>,
        methods: Vec<Method>,
    ) -> (id: ClassId)
        requires
            old(self).wf(),
            super_class matches Some(s) ==> old(self).classes.contains(s),
        ensures
            final(self).wf(),
            final(self)@ == (VmView {
                classes: old(self)@.classes.push(
                    linked_class(
                        old(self)@.classes,
                        name@,
                        super_class,
                        Seq::empty(),
                        decl_views(decls@),
                        method_views(methods@),
                    ),
                ),
                ..old(self)@
            }),
            id.index == old(self)@.classes.len(),
    {
        self.define_class_implementing(name, super_class, Vec::new(), decls, methods)
    }

    /// Links a class that implements `interfaces` and adds it to the class
    /// area. The heap and the classes that were there stay as they are.
    pub fn define_class_implementing(
        &mut self,
        name: Vec<u8>,
        super_class: Option<ClassId>,
        interfaces: Vec<ClassId>,
        decls: Vec<FieldDecl>,
        methods: Vec<Method>,
    ) -> (id: ClassId)
        requires
            old(self).wf(),
            super_class matches Some(s) ==> old(self).classes.contains(s),
            forall|k: int|
                0 <= k < interfaces@.len() ==> old(self).classes.contains(
                    #[trigger] interfaces@[k],
                ),
        ensures
            final(self).wf(),
            final(self)@ == (VmView {
                classes: old(self)@.classes.push(
                    linked_class(
                        old(self)@.classes,
                        name@,
                        super_class,
                        interfaces@,
                        decl_views(decls@),
                        method_views(methods@),
                    ),
                ),
                ..old(self)@
            }),
            id.index == old(self)@.classes.len(),
    {
        let ghost before = self.classes@;
        let id = self.classes.define_class_implementing(
            name,
            super_class,
            interfaces,
            decls,
            methods,
        );
        proof {
            lemma_cells_fit_classes(self.heap@, before, self.classes@);
        }
        id
    }

    /// A new instance of class `class`. Each field holds the default of
    /// its descriptor: the null cell for a reference, the zero of its kind
    /// for a primitive.
    pub fn new_inst(&mut self, class: ClassId) -> (r: OopRef)
        requires
            old(self).wf(),
            old(self).classes.contains(class),
        ensures
            final(self).wf(),
            final(self)@ == (VmView {
                heap: old(self)@.heap.push(
                    OopView::Inst {
                        class,
                        field_values: old(self)@.classes[class.index as int].layout.map_values(
                            |d: Seq<u8>| default_ref(d),
                        ),
                    },
                ),
                ..old(self)@
            }),
            r.cell == old(self)@.heap.len(),
    {
        let ghost layout = self.classes@[class.index as int].layout;
        let n = self.classes.instance_slot_count(class);
        let mut field_values: Vec<OopRef> = Vec::new();
        let mut s: usize = 0;
        while s < n
            invariant
                self.classes.contains(class),
                layout == self.classes@[class.index as int].layout,
                n == layout.len(),
                s <= n,
                field_values@ == layout.subrange(0, s as int).map_values(|d: Seq<u8>| default_ref(d)),
            decreases n - s,
        {
            let desc = self.classes.slot_descriptor(class, s);
            field_values.push(default_handle(desc.as_slice()));
            assert(field_values@ =~= layout.subrange(0, s + 1).map_values(
                |d: Seq<u8>| default_ref(d),
            ));
            s = s + 1;
        }
        assert(layout.subrange(0, n as int) =~= layout);
        self.heap.new_cell(Oop::Inst { class, field_values })
    }

    /// A new mirror of class `target`, which holds a copy of the class's
    /// static field values as they are now.
    pub fn new_mirror(&mut self, target: ClassId) -> (r: OopRef)
        requires
            old(self).wf(),
            old(self).classes.contains(target),
        ensures
            final(self).wf(),
            final(self)@ == (VmView {
                heap: old(self)@.heap.push(
                    OopView::Mirror {
                        target,
                        field_values: old(self)@.classes[target.index as int].static_field_values,
                    },
                ),
                ..old(self)@
            }),
            r.cell == old(self)@.heap.len(),
    {
        let ghost statics = self.classes@[target.index as int].static_field_values;
        let n = self.classes.static_slot_count(target);
        let mut field_values: Vec<OopRef> = Vec::new();
        let mut s: usize = 0;
        while s < n
            invariant
                self.classes.contains(target),
                statics == self.classes@[target.index as int].static_field_values,
                n == statics.len(),
                s <= n,
                field_values@ == statics.subrange(0, s as int),
            decreases n - s,
        {
            field_values.push(
                self.classes.get_static_field_value(FieldId { class: target, slot: s }),
            );
            assert(field_values@ =~= statics.subrange(0, s + 1));
            s = s + 1;
        }
        assert(statics.subrange(0, n as int) =~= statics);
        self.heap.new_cell(Oop::Mirror { target, field_values })
    }

    /// A new `java.lang.reflect.Field` object for the field `id`, whose
    /// field `slot` holds the slot of `id` in a new `Int` cell.
    pub fn reflect_field(&mut self, id: FieldId) -> (r: OopRef)
        requires
            old(self).wf(),
            id.slot <= i32::MAX,
            slot_field(old(self)@.classes) is Some,
        ensures
            final(self).wf(),
            final(self)@ == (VmView {
                heap: old(self)@.heap.push(OopView::Int(id.slot as i32)).push(
                    OopView::Inst {
                        class: field_class(old(self)@.classes)->Some_0,
                        field_values: old(self)@.classes[field_class(
                            old(self)@.classes,
                        )->Some_0.index as int].layout.map_values(
                            |d: Seq<u8>| default_ref(d),
                        ).update(
                            slot_field(old(self)@.classes)->Some_0.slot as int,
                            OopRef { cell: old(self)@.heap.len() as usize },
                        ),
                    },
                ),
                ..old(self)@
            }),
            r.cell == old(self)@.heap.len() + 1,
            reflects_field(final(self)@, r),
            field_offset(final(self)@, r) == id.slot,
    {
        let ghost before = self@;
        let (class, slot_id) = match self.classes.find_class("java/lang/reflect/Field".as_bytes()) {
            Some(class) => match self.classes.get_field_id(
                class,
                "slot".as_bytes(),
                "I".as_bytes(),
                false,
            ) {
                Some(slot_id) => {
                    proof {
                        lemma_subclass_layout(
                            self.classes@,
                            class.index as int,
                            slot_id.class.index as int,
                        );
                    }
                    (class, slot_id)
                },
                None => (class, id),
            },
            None => (id.class, id),
        };
        let value = self.heap.new_int(id.slot as i32);
        proof {
            lemma_cells_fit_with_cell(before.heap, OopView::Int(id.slot as i32), self.classes@);
        }
        let r = self.new_inst(class);
        let ghost mid = self.heap@;
        self.heap.set_slot(r, slot_id.slot, value);
        proof {
            let defaults = before.classes[class.index as int].layout.map_values(
                |d: Seq<u8>| default_ref(d),
            );
            assert(self.heap@ =~= before.heap.push(OopView::Int(id.slot as i32)).push(
                OopView::Inst {
                    class,
                    field_values: defaults.update(slot_id.slot as int, value),
                },
            ));
            lemma_cells_fit_with_slot(
                mid,
                r.cell as int,
                slot_id.slot as int,
                value,
                self.classes@,
            );
        }
        r
    }

    /// The thread `thread` asks for class `c` initialized; see
    /// [`ClassArea::request_initialization`].
    pub fn request_initialization(&mut self, c: ClassId, thread: u64) -> (action: InitAction)
        requires
            old(self).wf(),
            old(self).classes.contains(c),
        ensures
            final(self).wf(),
            final(self)@ == (VmView {
                classes: old(self)@.classes.update(
                    c.index as int,
                    with_state(
                        old(self)@.classes[c.index as int],
                        init_request(old(self)@.classes[c.index as int].state, thread).0,
                    ),
                ),
                ..old(self)@
            }),
            action == init_request(old(self)@.classes[c.index as int].state, thread).1,
    {
        let ghost before = self.classes@;
        let action = self.classes.request_initialization(c, thread);
        proof {
            lemma_cells_fit_classes(self.heap@, before, self.classes@);
        }
        action
    }

    /// The thread `thread` reports that the initializer of class `c` has
    /// ended; see [`ClassArea::finish_initialization`].
    pub fn finish_initialization(&mut self, c: ClassId, thread: u64, ok: bool)
        requires
            old(self).wf(),
            old(self).classes.contains(c),
        ensures
            final(self).wf(),
            final(self)@ == (VmView {
                classes: old(self)@.classes.update(
                    c.index as int,
                    with_state(
                        old(self)@.classes[c.index as int],
                        init_finish(old(self)@.classes[c.index as int].state, thread, ok),
                    ),
                ),
                ..old(self)@
            }),
    {
        let ghost before = self.classes@;
        self.classes.finish_initialization(c, thread, ok);
        proof {
            lemma_cells_fit_classes(self.heap@, before, self.classes@);
        }
    }

    /// The value of the instance field `id` of the instance `inst`.
    pub fn get_field_value(&self, inst: OopRef, id: FieldId) -> (value: OopRef)
        requires
            self.wf(),
            self.heap.contains(inst),
            self.heap@[inst.cell as int] matches OopView::Inst { field_values, .. }
                && id.slot < field_values.len(),
        ensures
            value == self.heap@[inst.cell as int]->Inst_field_values[id.slot as int],
            self.heap.contains(value),
    {
        self.heap.get_slot(inst, id.slot)
    }

    /// Stores `value` in the static field `id`. Nothing else changes.
    pub fn put_static_field_value(&mut self, id: FieldId, value: OopRef)
        requires
            old(self).wf(),
            old(self).heap.contains(value),
            static_slot_exists(old(self).classes@, id),
        ensures
            final(self).wf(),
            final(self)@ == (VmView {
                classes: old(self)@.classes.update(
                    id.class.index as int,
                    with_static(old(self)@.classes[id.class.index as int], id.slot as int, value),
                ),
                ..old(self)@
            }),
    {
        let ghost before = self.classes@;
        self.classes.put_static_field_value(id, value);
        proof {
            lemma_cells_fit_classes(self.heap@, before, self.classes@);
        }
    }
}

} // verus!
