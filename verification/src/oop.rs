//! The object model: one arena of cells, and handles into it.
//!
//! Every runtime value is a cell of a [`Heap`]. A cell is reached through an
//! [`OopRef`], a handle that can be copied freely; several slots may hold the
//! same handle and so share one cell. Two handles denote the same cell
//! exactly when they are equal, whatever the cells hold.

use vstd::prelude::*;
use crate::util::bytes_to_vec;

verus! {

/// A handle to one cell of a [`Heap`].
#[derive(Clone, Copy, PartialEq, Eq, Structural, Debug)]
pub struct OopRef {
    pub cell: usize,
}

/// A handle to one loaded class of a class area.
#[derive(Clone, Copy, PartialEq, Eq, Structural, Debug)]
pub struct ClassId {
    pub index: usize,
}

/// What the elements of an array are declared to hold.
#[derive(Clone, Copy, PartialEq, Eq, Structural, Debug)]
pub enum ComponentType {
    Boolean,
    Byte,
    Char,
    Short,
    Int,
    Long,
    Float,
    Double,
    Reference(ClassId),
}

/// What one cell holds.
///
/// `Float` and `Double` carry the IEEE-754 bit pattern of their value.
#[derive(Clone, PartialEq, Eq, Debug)]
pub enum Oop {
    Null,
    Int(i32),
    Long(i64),
    Float(u32),
    Double(u64),
    Str(Vec<u8>),
    Inst { class: ClassId, field_values: Vec<OopRef> },
    Array { component: ComponentType, elements: Vec<OopRef> },
    Mirror { target: ClassId, field_values: Vec<OopRef> },
}

/// The mathematical value of a cell.
pub enum OopView {
    Null,
    Int(i32),
    Long(i64),
    Float(u32),
    Double(u64),
    Str(Seq<u8>),
    Inst { class: ClassId, field_values: Seq<OopRef> },
    Array { component: ComponentType, elements: Seq<OopRef> },
    Mirror { target: ClassId, field_values: Seq<OopRef> },
}

impl View for Oop {
    type V = OopView;

    open spec fn view(&self) -> OopView {
        match *self {
            Oop::Null => OopView::Null,
            Oop::Int(v) => OopView::Int(v),
            Oop::Long(v) => OopView::Long(v),
            Oop::Float(v) => OopView::Float(v),
            Oop::Double(v) => OopView::Double(v),
            Oop::Str(bytes) => OopView::Str(bytes@),
            Oop::Inst { class, field_values } => OopView::Inst { class, field_values: field_values@ },
            Oop::Array { component, elements } => OopView::Array { component, elements: elements@ },
            Oop::Mirror { target, field_values } => OopView::Mirror { target, field_values: field_values@ },
        }
    }
}

/// The slots of a cell: the fields of an instance or a mirror, the elements
/// of an array, and nothing for any other cell.
pub open spec fn slots(v: OopView) -> Seq<OopRef> {
    match v {
        OopView::Inst { field_values, .. } => field_values,
        OopView::Array { elements, .. } => elements,
        OopView::Mirror { field_values, .. } => field_values,
        _ => Seq::empty(),
    }
}

/// The cell `v` with slot `index` replaced by `value`.
pub open spec fn with_slot(v: OopView, index: int, value: OopRef) -> OopView {
    match v {
        OopView::Inst { class, field_values } => OopView::Inst {
            class,
            field_values: field_values.update(index, value),
        },
        OopView::Array { component, elements } => OopView::Array {
            component,
            elements: elements.update(index, value),
        },
        OopView::Mirror { target, field_values } => OopView::Mirror {
            target,
            field_values: field_values.update(index, value),
        },
        other => other,
    }
}

/// The cells that every heap starts with: the null cell and one zero of
/// each primitive kind. Fresh fields and array elements hold these.
pub open spec fn initial_cells() -> Seq<OopView> {
    seq![
        OopView::Null,
        OopView::Int(0),
        OopView::Long(0),
        OopView::Float(0),
        OopView::Double(0),
    ]
}

/// The handle of the null cell of every heap.
pub open spec fn null_ref() -> OopRef {
    OopRef { cell: 0 }
}

/// The handle of the zero that a fresh element of an array of `component`
/// holds: the null cell for references, the zero of its kind else.
pub open spec fn zero_ref(component: ComponentType) -> OopRef {
    match component {
        ComponentType::Long => OopRef { cell: 2 },
        ComponentType::Float => OopRef { cell: 3 },
        ComponentType::Double => OopRef { cell: 4 },
        ComponentType::Reference(_) => OopRef { cell: 0 },
        _ => OopRef { cell: 1 },
    }
}

/// What a field descriptor declares: the first byte decides.
pub open spec fn component_of_descriptor(desc: Seq<u8>) -> ComponentType {
    if desc.len() == 0 {
        ComponentType::Reference(ClassId { index: 0 })
    } else if desc[0] == 0x5a {
        ComponentType::Boolean
    } else if desc[0] == 0x42 {
        ComponentType::Byte
    } else if desc[0] == 0x43 {
        ComponentType::Char
    } else if desc[0] == 0x53 {
        ComponentType::Short
    } else if desc[0] == 0x49 {
        ComponentType::Int
    } else if desc[0] == 0x4a {
        ComponentType::Long
    } else if desc[0] == 0x46 {
        ComponentType::Float
    } else if desc[0] == 0x44 {
        ComponentType::Double
    } else {
        ComponentType::Reference(ClassId { index: 0 })
    }
}

/// The handle that a fresh field of descriptor `desc` holds.
pub open spec fn default_ref(desc: Seq<u8>) -> OopRef {
    zero_ref(component_of_descriptor(desc))
}

/// The heap's invariant: the first cells are the initial ones, and every
/// handle stored in a slot denotes a cell of the heap.
pub open spec fn closed_under_slots(cells: Seq<OopView>) -> bool {
    &&& cells.len() >= 5
    &&& cells.subrange(0, 5) == initial_cells()
    &&& forall|i: int, j: int|
        0 <= i < cells.len() && 0 <= j < slots(cells[i]).len() ==> (#[trigger] slots(
            cells[i],
        )[j]).cell < cells.len()
}

/// A projection met a cell of another variant than the one it asks for.
#[derive(Clone, Copy, PartialEq, Eq, Structural, Debug)]
pub struct TypeMismatch;

/// The arena of cells.
pub struct Heap {
    cells: Vec<Oop>,
}

impl View for Heap {
    type V = Seq<OopView>;

    closed spec fn view(&self) -> Seq<OopView> {
        Seq::new(self.cells@.len(), |i: int| self.cells@[i]@)
    }
}

impl Heap {
    /// The heap's invariant.
    pub open spec fn wf(&self) -> bool {
        closed_under_slots(self@)
    }

    /// Whether `r` denotes a cell of this heap.
    pub open spec fn contains(&self, r: OopRef) -> bool {
        r.cell < self@.len()
    }

    /// A heap that holds the initial cells and nothing else.
    pub fn new() -> (heap: Heap)
        ensures
            heap@ == initial_cells(),
            heap.wf(),
    {
        let mut cells: Vec<Oop> = Vec::new();
        cells.push(Oop::Null);
        cells.push(Oop::Int(0));
        cells.push(Oop::Long(0));
        cells.push(Oop::Float(0));
        cells.push(Oop::Double(0));
        let heap = Heap { cells };
        assert(heap@ =~= initial_cells());
        assert(heap@.subrange(0, 5) =~= initial_cells());
        heap
    }

    /// The number of cells.
    pub fn len(&self) -> (n: usize)
        ensures
            n == self@.len(),
    {
        self.cells.len()
    }

    /// The handle of the null cell.
    pub fn null(&self) -> (r: OopRef)
        ensures
            r == null_ref(),
    {
        OopRef { cell: 0 }
    }

    /// Adds a cell that holds `value` and returns its handle. The other
    /// cells stay as they are.
    pub fn new_cell(&mut self, value: Oop) -> (r: OopRef)
        requires
            old(self).wf(),
            forall|j: int| 0 <= j < slots(value@).len() ==> old(self).contains(#[trigger] slots(value@)[j]),
        ensures
            final(self)@ == old(self)@.push(value@),
            r.cell == old(self)@.len(),
            final(self).wf(),
    {
        let cell = self.cells.len();
        self.cells.push(value);
        assert(self@ =~= old(self)@.push(value@));
        assert(self@.subrange(0, 5) =~= old(self)@.subrange(0, 5));
        OopRef { cell }
    }

    /// The cell that `r` denotes.
    pub fn get(&self, r: OopRef) -> (cell: &Oop)
        requires
            self.contains(r),
        ensures
            cell@ == self@[r.cell as int],
    {
        &self.cells[r.cell]
    }

    /// A new cell that holds the 32-bit integer `v`.
    pub fn new_int(&mut self, v: i32) -> (r: OopRef)
        requires
            old(self).wf(),
        ensures
            final(self)@ == old(self)@.push(OopView::Int(v)),
            r.cell == old(self)@.len(),
            final(self).wf(),
    {
        self.new_cell(Oop::Int(v))
    }

    /// A new cell that holds the 64-bit integer `v`.
    pub fn new_long(&mut self, v: i64) -> (r: OopRef)
        requires
            old(self).wf(),
        ensures
            final(self)@ == old(self)@.push(OopView::Long(v)),
            r.cell == old(self)@.len(),
            final(self).wf(),
    {
        self.new_cell(Oop::Long(v))
    }

    /// A new cell that holds the single-precision number whose bit pattern
    /// is `bits`.
    pub fn new_float(&mut self, bits: u32) -> (r: OopRef)
        requires
            old(self).wf(),
        ensures
            final(self)@ == old(self)@.push(OopView::Float(bits)),
            r.cell == old(self)@.len(),
            final(self).wf(),
    {
        self.new_cell(Oop::Float(bits))
    }

    /// A new cell that holds the double-precision number whose bit pattern
    /// is `bits`.
    pub fn new_double(&mut self, bits: u64) -> (r: OopRef)
        requires
            old(self).wf(),
        ensures
            final(self)@ == old(self)@.push(OopView::Double(bits)),
            r.cell == old(self)@.len(),
            final(self).wf(),
    {
        self.new_cell(Oop::Double(bits))
    }

    /// A new string carrier that holds `bytes`.
    pub fn new_str(&mut self, bytes: Vec<u8>) -> (r: OopRef)
        requires
            old(self).wf(),
        ensures
            final(self)@ == old(self)@.push(OopView::Str(bytes@)),
            r.cell == old(self)@.len(),
            final(self).wf(),
    {
        self.new_cell(Oop::Str(bytes))
    }

    /// A new array of `length` elements, each the zero of `component`.
    pub fn new_array(&mut self, component: ComponentType, length: usize) -> (r: OopRef)
        requires
            old(self).wf(),
        ensures
            final(self)@ == old(self)@.push(
                OopView::Array {
                    component,
                    elements: Seq::new(length as nat, |i: int| zero_ref(component)),
                },
            ),
            r.cell == old(self)@.len(),
            final(self).wf(),
    {
        let zero = match component {
            ComponentType::Long => OopRef { cell: 2 },
            ComponentType::Float => OopRef { cell: 3 },
            ComponentType::Double => OopRef { cell: 4 },
            ComponentType::Reference(_) => OopRef { cell: 0 },
            _ => OopRef { cell: 1 },
        };
        let mut elements: Vec<OopRef> = Vec::new();
        let mut i: usize = 0;
        while i < length
            invariant
                i <= length,
                zero == zero_ref(component),
                elements@ == Seq::new(i as nat, |k: int| zero_ref(component)),
            decreases length - i,
        {
            elements.push(zero);
            assert(elements@ =~= Seq::new((i + 1) as nat, |k: int| zero_ref(component)));
            i = i + 1;
        }
        self.new_cell(Oop::Array { component, elements })
    }

    /// The 32-bit integer that the cell `r` holds.
    pub fn extract_int(&self, r: OopRef) -> (v: Result<i32, TypeMismatch>)
        requires
            self.contains(r),
        ensures
            v == match self@[r.cell as int] {
                OopView::Int(x) => Ok::<i32, TypeMismatch>(x),
                _ => Err(TypeMismatch),
            },
    {
        match &self.cells[r.cell] {
            Oop::Int(x) => Ok(*x),
            _ => Err(TypeMismatch),
        }
    }

    /// The 64-bit integer that the cell `r` holds.
    pub fn extract_long(&self, r: OopRef) -> (v: Result<i64, TypeMismatch>)
        requires
            self.contains(r),
        ensures
            v == match self@[r.cell as int] {
                OopView::Long(x) => Ok::<i64, TypeMismatch>(x),
                _ => Err(TypeMismatch),
            },
    {
        match &self.cells[r.cell] {
            Oop::Long(x) => Ok(*x),
            _ => Err(TypeMismatch),
        }
    }

    /// The bit pattern of the single-precision number that the cell `r`
    /// holds.
    pub fn extract_float(&self, r: OopRef) -> (v: Result<u32, TypeMismatch>)
        requires
            self.contains(r),
        ensures
            v == match self@[r.cell as int] {
                OopView::Float(x) => Ok::<u32, TypeMismatch>(x),
                _ => Err(TypeMismatch),
            },
    {
        match &self.cells[r.cell] {
            Oop::Float(x) => Ok(*x),
            _ => Err(TypeMismatch),
        }
    }

    /// The bit pattern of the double-precision number that the cell `r`
    /// holds.
    pub fn extract_double(&self, r: OopRef) -> (v: Result<u64, TypeMismatch>)
        requires
            self.contains(r),
        ensures
            v == match self@[r.cell as int] {
                OopView::Double(x) => Ok::<u64, TypeMismatch>(x),
                _ => Err(TypeMismatch),
            },
    {
        match &self.cells[r.cell] {
            Oop::Double(x) => Ok(*x),
            _ => Err(TypeMismatch),
        }
    }

    /// A copy of the bytes that the string carrier `r` holds.
    pub fn extract_str(&self, r: OopRef) -> (v: Result<Vec<u8>, TypeMismatch>)
        requires
            self.contains(r),
        ensures
            match self@[r.cell as int] {
                OopView::Str(bytes) => v matches Ok(got) && got@ == bytes,
                _ => v is Err,
            },
    {
        match &self.cells[r.cell] {
            Oop::Str(bytes) => Ok(bytes_to_vec(bytes.as_slice())),
            _ => Err(TypeMismatch),
        }
    }

    /// A cell has no more slots than a machine word can count.
    pub proof fn lemma_slots_bounded(&self, owner: OopRef)
        requires
            self.contains(owner),
        ensures
            slots(self@[owner.cell as int]).len() <= usize::MAX,
    {
        match self.cells@[owner.cell as int] {
            Oop::Inst { field_values, .. } => {
                assert(field_values@.len() == field_values.len());
            },
            Oop::Array { elements, .. } => {
                assert(elements@.len() == elements.len());
            },
            Oop::Mirror { field_values, .. } => {
                assert(field_values@.len() == field_values.len());
            },
            _ => {},
        }
    }

    /// The number of slots of the cell that `owner` denotes.
    pub fn slot_count(&self, owner: OopRef) -> (n: usize)
        requires
            self.contains(owner),
        ensures
            n == slots(self@[owner.cell as int]).len(),
    {
        match &self.cells[owner.cell] {
            Oop::Inst { field_values, .. } => field_values.len(),
            Oop::Array { elements, .. } => elements.len(),
            Oop::Mirror { field_values, .. } => field_values.len(),
            _ => 0,
        }
    }

    /// The handle in slot `index` of the cell that `owner` denotes.
    pub fn get_slot(&self, owner: OopRef, index: usize) -> (value: OopRef)
        requires
            self.wf(),
            self.contains(owner),
            index < slots(self@[owner.cell as int]).len(),
        ensures
            value == slots(self@[owner.cell as int])[index as int],
            self.contains(value),
    {
        match &self.cells[owner.cell] {
            Oop::Inst { field_values, .. } => field_values[index],
            Oop::Array { elements, .. } => elements[index],
            Oop::Mirror { field_values, .. } => field_values[index],
            _ => OopRef { cell: 0 },
        }
    }

    /// Replaces slot `index` of the cell `owner` by `value`. Nothing else
    /// changes.
    pub fn set_slot(&mut self, owner: OopRef, index: usize, value: OopRef)
        requires
            old(self).wf(),
            old(self).contains(owner),
            old(self).contains(value),
            index < slots(old(self)@[owner.cell as int]).len(),
        ensures
            final(self)@ == old(self)@.update(
                owner.cell as int,
                with_slot(old(self)@[owner.cell as int], index as int, value),
            ),
            final(self).wf(),
    {
        match &mut self.cells[owner.cell] {
            Oop::Inst { field_values, .. } => {
                field_values[index] = value;
            },
            Oop::Array { elements, .. } => {
                elements[index] = value;
            },
            Oop::Mirror { field_values, .. } => {
                field_values[index] = value;
            },
            _ => {},
        }
        assert(self@ =~= old(self)@.update(
            owner.cell as int,
            with_slot(old(self)@[owner.cell as int], index as int, value),
        ));
        assert(forall|i: int| 0 <= i < 5 ==> old(self)@.subrange(0, 5)[i] == initial_cells()[i]);
        assert(self@.subrange(0, 5) =~= initial_cells());
    }
}

/// The handle that a fresh field of descriptor `desc` holds.
pub fn default_handle(desc: &[u8]) -> (r: OopRef)
    ensures
        r == default_ref(desc@),
        r.cell < 5,
{
    if desc.len() == 0 {
        return OopRef { cell: 0 };
    }
    let b = desc[0];
    if b == 0x5a || b == 0x42 || b == 0x43 || b == 0x53 || b == 0x49 {
        OopRef { cell: 1 }
    } else if b == 0x4a {
        OopRef { cell: 2 }
    } else if b == 0x46 {
        OopRef { cell: 3 }
    } else if b == 0x44 {
        OopRef { cell: 4 }
    } else {
        OopRef { cell: 0 }
    }
}

/// Whether two handles denote the same cell. What the cells hold plays no
/// part: two cells of equal content are two cells.
pub fn if_acmpeq(a: OopRef, b: OopRef) -> (same: bool)
    ensures
        same == (a == b),
{
    a.cell == b.cell
}

} // verus!
