//! The class area: loaded classes, their fields and methods, and the slot
//! that each field is given when its class is linked.
//!
//! A class is linked when it is defined. Its instance fields get the slots
//! that follow those of its superclass, in declaration order; its static
//! fields get slots of their own, counted from zero. A slot never changes.

use vstd::prelude::*;
use crate::oop::{default_handle, default_ref, ClassId, OopRef};
use crate::util::{bytes_eq, bytes_to_vec};

verus! {

/// A field as a class file declares it.
#[derive(Clone, PartialEq, Eq, Debug)]
pub struct FieldDecl {
    pub name: Vec<u8>,
    pub desc: Vec<u8>,
    pub is_static: bool,
}

pub struct FieldDeclView {
    pub name: Seq<u8>,
    pub desc: Seq<u8>,
    pub is_static: bool,
}

impl View for FieldDecl {
    type V = FieldDeclView;

    open spec fn view(&self) -> FieldDeclView {
        FieldDeclView { name: self.name@, desc: self.desc@, is_static: self.is_static }
    }
}

/// A field of a linked class.
#[derive(Clone, PartialEq, Eq, Debug)]
pub struct Field {
    pub name: Vec<u8>,
    pub desc: Vec<u8>,
    pub is_static: bool,
    pub slot: usize,
}

pub struct FieldView {
    pub name: Seq<u8>,
    pub desc: Seq<u8>,
    pub is_static: bool,
    pub slot: nat,
}

impl View for Field {
    type V = FieldView;

    open spec fn view(&self) -> FieldView {
        FieldView {
            name: self.name@,
            desc: self.desc@,
            is_static: self.is_static,
            slot: self.slot as nat,
        }
    }
}

/// One entry of a method's exception table, its class resolved: the
/// handler at `handler_pc` catches what is raised from `start_pc` up to,
/// and not including, `end_pc`, if it may stand where the class
/// `catch_type` is asked for, and whatever is raised there if `catch_type`
/// is `None`.
#[derive(Clone, Copy, PartialEq, Eq, Structural, Debug)]
pub struct Handler {
    pub start_pc: u16,
    pub end_pc: u16,
    pub handler_pc: u16,
    pub catch_type: Option<ClassId>,
}

/// A method of a class.
#[derive(Clone, PartialEq, Eq, Debug)]
pub struct Method {
    pub name: Vec<u8>,
    pub desc: Vec<u8>,
    pub acc_flags: u16,
    pub max_stack: u16,
    pub max_locals: u16,
    pub handlers: Vec<Handler>,
}

pub struct MethodView {
    pub name: Seq<u8>,
    pub desc: Seq<u8>,
    pub acc_flags: u16,
    pub max_stack: u16,
    pub max_locals: u16,
    pub handlers: Seq<Handler>,
}

impl View for Method {
    type V = MethodView;

    open spec fn view(&self) -> MethodView {
        MethodView {
            name: self.name@,
            desc: self.desc@,
            acc_flags: self.acc_flags,
            max_stack: self.max_stack,
            max_locals: self.max_locals,
            handlers: self.handlers@,
        }
    }
}

/// What a method is looked up by: its name and its descriptor.
#[derive(Clone, PartialEq, Eq, Debug)]
pub struct MethodId {
    pub name: Vec<u8>,
    pub desc: Vec<u8>,
}

pub struct MethodIdView {
    pub name: Seq<u8>,
    pub desc: Seq<u8>,
}

impl View for MethodId {
    type V = MethodIdView;

    open spec fn view(&self) -> MethodIdView {
        MethodIdView { name: self.name@, desc: self.desc@ }
    }
}

/// The method id of a name and a descriptor.
pub fn new_method_id(name: &[u8], desc: &[u8]) -> (id: MethodId)
    ensures
        id@ == (MethodIdView { name: name@, desc: desc@ }),
{
    MethodId { name: bytes_to_vec(name), desc: bytes_to_vec(desc) }
}

/// A resolved field: the class that declares it and its slot there.
#[derive(Clone, Copy, PartialEq, Eq, Structural, Debug)]
pub struct FieldId {
    pub class: ClassId,
    pub slot: usize,
}

/// A resolved method: the class that declares it and its place among that
/// class's methods.
#[derive(Clone, Copy, PartialEq, Eq, Structural, Debug)]
pub struct MethodRef {
    pub class: ClassId,
    pub index: usize,
}

/// How far the initialization of a class has come.
#[derive(Clone, Copy, PartialEq, Eq, Structural, Debug)]
pub enum InitState {
    Loaded,
    BeingInitialized(u64),
    Initialized,
    Errored,
}

/// What a thread that asks for an initialized class is told to do.
#[derive(Clone, Copy, PartialEq, Eq, Structural, Debug)]
pub enum InitAction {
    /// Run the class initializer, then report how it ended.
    Run,
    /// Go on: the class is initialized, or the thread is the one that is
    /// initializing it.
    Proceed,
    /// Wait: another thread is initializing the class.
    Wait,
    /// Raise `NoClassDefFoundError`: the initializer has failed.
    Fail,
}

/// What happens to the initialization of one class.
#[derive(Clone, Copy, PartialEq, Eq, Structural, Debug)]
pub enum InitEvent {
    /// The thread of this id asks for the class.
    Request(u64),
    /// The thread of this id reports that the initializer has ended, well
    /// or not.
    Finish(u64, bool),
}

/// The state after the thread `thread` has asked for a class in state
/// `state`, and what the thread is told.
pub open spec fn init_request(state: InitState, thread: u64) -> (InitState, InitAction) {
    match state {
        InitState::Loaded => (InitState::BeingInitialized(thread), InitAction::Run),
        InitState::BeingInitialized(t) => if t == thread {
            (state, InitAction::Proceed)
        } else {
            (state, InitAction::Wait)
        },
        InitState::Initialized => (state, InitAction::Proceed),
        InitState::Errored => (state, InitAction::Fail),
    }
}

/// The state after the thread `thread` has reported the end of the
/// initializer. A report from a thread that is not initializing the class
/// changes nothing.
pub open spec fn init_finish(state: InitState, thread: u64, ok: bool) -> InitState {
    if state == InitState::BeingInitialized(thread) {
        if ok {
            InitState::Initialized
        } else {
            InitState::Errored
        }
    } else {
        state
    }
}

/// The state after one event.
pub open spec fn init_step(state: InitState, event: InitEvent) -> InitState {
    match event {
        InitEvent::Request(thread) => init_request(state, thread).0,
        InitEvent::Finish(thread, ok) => init_finish(state, thread, ok),
    }
}

/// The number of times that a thread is told to run the initializer while
/// `events` happen to a class that starts in `state`.
pub open spec fn initializer_runs(state: InitState, events: Seq<InitEvent>) -> nat
    decreases events.len(),
{
    if events.len() == 0 {
        0
    } else {
        let first = match events[0] {
            InitEvent::Request(thread) => if init_request(state, thread).1 == InitAction::Run {
                1nat
            } else {
                0nat
            },
            InitEvent::Finish(_, _) => 0nat,
        };
        first + initializer_runs(init_step(state, events[0]), events.drop_first())
    }
}

/// The initializer of a class runs at most once, whatever threads ask for
/// the class and in whatever order: once a class has left the state
/// `Loaded` no thread is told to run its initializer again.
pub proof fn lemma_initializer_runs_at_most_once(state: InitState, events: Seq<InitEvent>)
    ensures
        initializer_runs(state, events) <= 1,
        state != InitState::Loaded ==> initializer_runs(state, events) == 0,
    decreases events.len(),
{
    if events.len() > 0 {
        lemma_initializer_runs_at_most_once(init_step(state, events[0]), events.drop_first());
    }
}

/// Once any thread asks for a class that is loaded and not initialized,
/// the initializer runs exactly once, whatever else happens before and
/// after: the first thread that asks is told to run it, and no thread is
/// told so again.
pub proof fn lemma_initializer_runs_exactly_once(events: Seq<InitEvent>)
    requires
        exists|i: int| 0 <= i < events.len() && (#[trigger] events[i]) is Request,
    ensures
        initializer_runs(InitState::Loaded, events) == 1,
    decreases events.len(),
{
    let i = choose|i: int| 0 <= i < events.len() && (#[trigger] events[i]) is Request;
    match events[0] {
        InitEvent::Request(thread) => {
            lemma_initializer_runs_at_most_once(
                InitState::BeingInitialized(thread),
                events.drop_first(),
            );
        },
        InitEvent::Finish(_, _) => {
            assert(i > 0);
            assert(events.drop_first()[i - 1] == events[i]);
            lemma_initializer_runs_exactly_once(events.drop_first());
        },
    }
}

/// A thread is told to go on only when the initializer has ended well, or
/// when the thread itself is running it.
pub proof fn lemma_proceed_means_initialized(state: InitState, thread: u64)
    ensures
        init_request(state, thread).1 == InitAction::Proceed ==> state == InitState::Initialized
            || state == InitState::BeingInitialized(thread),
        state == InitState::Errored ==> init_request(state, thread).1 == InitAction::Fail,
{
}

/// The class `class` in the initialization state `state`.
pub open spec fn with_state(class: ClassView, state: InitState) -> ClassView {
    ClassView { state, ..class }
}

/// A loaded and linked class.
pub struct Class {
    name: Vec<u8>,
    super_class: Option<ClassId>,
    interfaces: Vec<ClassId>,
    fields: Vec<Field>,
    methods: Vec<Method>,
    layout: Vec<Vec<u8>>,
    static_field_values: Vec<OopRef>,
    state: InitState,
}

/// The mathematical value of a class. `layout` holds the descriptor of each
/// instance slot, those of the superclass first.
pub struct ClassView {
    pub name: Seq<u8>,
    pub super_class: Option<ClassId>,
    pub interfaces: Seq<ClassId>,
    pub fields: Seq<FieldView>,
    pub methods: Seq<MethodView>,
    pub layout: Seq<Seq<u8>>,
    pub static_field_values: Seq<OopRef>,
    pub state: InitState,
}

impl View for Class {
    type V = ClassView;

    closed spec fn view(&self) -> ClassView {
        ClassView {
            name: self.name@,
            super_class: self.super_class,
            interfaces: self.interfaces@,
            fields: Seq::new(self.fields@.len(), |i: int| self.fields@[i]@),
            methods: Seq::new(self.methods@.len(), |i: int| self.methods@[i]@),
            layout: Seq::new(self.layout@.len(), |i: int| self.layout@[i]@),
            static_field_values: self.static_field_values@,
            state: self.state,
        }
    }
}

/// The number of fields among the first `n` of `fields` that are static, or
/// that are not, as `is_static` says.
pub open spec fn count_kind(fields: Seq<FieldDeclView>, n: int, is_static: bool) -> nat
    decreases n,
{
    if n <= 0 {
        0
    } else {
        count_kind(fields, n - 1, is_static) + if fields[n - 1].is_static == is_static {
            1nat
        } else {
            0nat
        }
    }
}

/// The descriptors of the fields among the first `n` of `fields` that are
/// static, or that are not, as `is_static` says, in declaration order.
pub open spec fn kind_descs(fields: Seq<FieldDeclView>, n: int, is_static: bool) -> Seq<Seq<u8>>
    decreases n,
{
    if n <= 0 {
        Seq::empty()
    } else if fields[n - 1].is_static == is_static {
        kind_descs(fields, n - 1, is_static).push(fields[n - 1].desc)
    } else {
        kind_descs(fields, n - 1, is_static)
    }
}

/// `kind_descs` has one entry for each field that `count_kind` counts, and
/// the entry of a field stands at the field's rank.
pub proof fn lemma_kind_descs(fields: Seq<FieldDeclView>, n: int, is_static: bool)
    requires
        0 <= n <= fields.len(),
    ensures
        kind_descs(fields, n, is_static).len() == count_kind(fields, n, is_static),
        forall|i: int|
            0 <= i < n && fields[i].is_static == is_static ==> count_kind(fields, i, is_static)
                < count_kind(fields, n, is_static) && kind_descs(fields, n, is_static)[count_kind(
                fields,
                i,
                is_static,
            ) as int] == (#[trigger] fields[i]).desc,
    decreases n,
{
    if n > 0 {
        lemma_kind_descs(fields, n - 1, is_static);
        assert forall|i: int|
            0 <= i < n && fields[i].is_static == is_static implies count_kind(fields, i, is_static)
            < count_kind(fields, n, is_static) && kind_descs(fields, n, is_static)[count_kind(
            fields,
            i,
            is_static,
        ) as int] == (#[trigger] fields[i]).desc by {
            if i < n - 1 {
                assert(fields[i].desc == kind_descs(fields, n - 1, is_static)[count_kind(
                    fields,
                    i,
                    is_static,
                ) as int]);
            }
        }
    }
}

/// The declaration that a linked field came from.
pub open spec fn decl_of(f: FieldView) -> FieldDeclView {
    FieldDeclView { name: f.name, desc: f.desc, is_static: f.is_static }
}

/// The declarations that the fields of a linked class came from.
pub open spec fn decls_of(fields: Seq<FieldView>) -> Seq<FieldDeclView> {
    fields.map_values(|f: FieldView| decl_of(f))
}

/// The slot that linking gives to the field declared at position `i`:
/// among the static fields its rank in declaration order, among the others
/// that rank after the `inherited` slots of the superclass.
pub open spec fn assigned_slot(decls: Seq<FieldDeclView>, inherited: nat, i: int) -> nat {
    if decls[i].is_static {
        count_kind(decls, i, true)
    } else {
        inherited + count_kind(decls, i, false)
    }
}

/// The instance layout of the superclass of a class, empty where it has none.
pub open spec fn inherited_layout(classes: Seq<ClassView>, super_class: Option<ClassId>) -> Seq<
    Seq<u8>,
> {
    match super_class {
        Some(s) => classes[s.index as int].layout,
        None => Seq::empty(),
    }
}

/// Whether class `c` of `classes` is linked as its declaration asks.
pub open spec fn class_linked(classes: Seq<ClassView>, c: int) -> bool {
    let class = classes[c];
    let decls = decls_of(class.fields);
    let inherited = inherited_layout(classes, class.super_class);
    &&& class.super_class matches Some(s) ==> s.index < c
    &&& forall|k: int| 0 <= k < class.interfaces.len() ==> (#[trigger] class.interfaces[k]).index < c
    &&& class.layout.len() == inherited.len() + count_kind(decls, decls.len() as int, false)
    &&& class.layout.subrange(0, inherited.len() as int) == inherited
    &&& class.static_field_values.len() == count_kind(decls, decls.len() as int, true)
    &&& forall|i: int|
        0 <= i < class.fields.len() ==> (#[trigger] class.fields[i]).slot == assigned_slot(
            decls,
            inherited.len(),
            i,
        )
    &&& forall|i: int|
        0 <= i < class.fields.len() && !class.fields[i].is_static ==> class.layout[(
        #[trigger] class.fields[i]).slot as int] == class.fields[i].desc
}

/// The fields that linking makes of the declarations `decls`, after
/// `inherited` slots of the superclass.
pub open spec fn linked_fields(decls: Seq<FieldDeclView>, inherited: nat) -> Seq<FieldView> {
    Seq::new(
        decls.len(),
        |i: int|
            FieldView {
                name: decls[i].name,
                desc: decls[i].desc,
                is_static: decls[i].is_static,
                slot: assigned_slot(decls, inherited, i),
            },
    )
}

/// The class that linking makes of a declaration: each field has its
/// assigned slot, the layout continues that of the superclass, each static
/// field holds the default of its descriptor, and initialization has not
/// begun.
pub open spec fn linked_class(
    classes: Seq<ClassView>,
    name: Seq<u8>,
    super_class: Option<ClassId>,
    interfaces: Seq<ClassId>,
    decls: Seq<FieldDeclView>,
    methods: Seq<MethodView>,
) -> ClassView {
    let inherited = inherited_layout(classes, super_class);
    ClassView {
        name,
        super_class,
        interfaces,
        fields: linked_fields(decls, inherited.len()),
        methods,
        layout: inherited + kind_descs(decls, decls.len() as int, false),
        static_field_values: kind_descs(decls, decls.len() as int, true).map_values(
            |d: Seq<u8>| default_ref(d),
        ),
        state: InitState::Loaded,
    }
}

/// The views of a vector of declarations.
pub open spec fn decl_views(decls: Seq<FieldDecl>) -> Seq<FieldDeclView> {
    decls.map_values(|d: FieldDecl| d@)
}

/// The views of a vector of methods.
pub open spec fn method_views(methods: Seq<Method>) -> Seq<MethodView> {
    methods.map_values(|m: Method| m@)
}

/// The first position from `from` on at which `fields` holds a field of
/// this name, descriptor and kind.
pub open spec fn first_field(
    fields: Seq<FieldView>,
    name: Seq<u8>,
    desc: Seq<u8>,
    is_static: bool,
    from: int,
) -> Option<int>
    decreases fields.len() - from,
{
    if from < 0 || from >= fields.len() {
        None
    } else if fields[from].name == name && fields[from].desc == desc && fields[from].is_static
        == is_static {
        Some(from)
    } else {
        first_field(fields, name, desc, is_static, from + 1)
    }
}

/// The field that a name, a descriptor and a kind resolve to, seen from
/// class `c`: the first such field that `c` declares, else what they
/// resolve to seen from its superclass.
pub open spec fn resolve_field(
    classes: Seq<ClassView>,
    c: int,
    name: Seq<u8>,
    desc: Seq<u8>,
    is_static: bool,
) -> Option<FieldId>
    decreases c,
{
    match first_field(classes[c].fields, name, desc, is_static, 0) {
        Some(i) => Some(
            FieldId {
                class: ClassId { index: c as usize },
                slot: classes[c].fields[i].slot as usize,
            },
        ),
        None => match classes[c].super_class {
            Some(s) => if 0 <= s.index < c {
                resolve_field(classes, s.index as int, name, desc, is_static)
            } else {
                None
            },
            None => None,
        },
    }
}

/// The first position from `from` on at which `methods` holds a method of
/// this id.
pub open spec fn first_method(methods: Seq<MethodView>, id: MethodIdView, from: int) -> Option<int>
    decreases methods.len() - from,
{
    if from < 0 || from >= methods.len() {
        None
    } else if methods[from].name == id.name && methods[from].desc == id.desc {
        Some(from)
    } else {
        first_method(methods, id, from + 1)
    }
}

/// The method of this id that class `c` itself declares.
pub open spec fn class_method(classes: Seq<ClassView>, c: int, id: MethodIdView) -> Option<
    MethodRef,
> {
    match first_method(classes[c].methods, id, 0) {
        Some(i) => Some(MethodRef { class: ClassId { index: c as usize }, index: i as usize }),
        None => None,
    }
}

/// The method that a call of this id on an object of class `c` runs: the
/// one that `c` declares, else the one that its superclass would run.
pub open spec fn virtual_method(classes: Seq<ClassView>, c: int, id: MethodIdView) -> Option<
    MethodRef,
>
    decreases c,
{
    match class_method(classes, c, id) {
        Some(m) => Some(m),
        None => match classes[c].super_class {
            Some(s) => if 0 <= s.index < c {
                virtual_method(classes, s.index as int, id)
            } else {
                None
            },
            None => None,
        },
    }
}

/// The first class from `from` on that has this name.
pub open spec fn first_class(classes: Seq<ClassView>, name: Seq<u8>, from: int) -> Option<ClassId>
    decreases classes.len() - from,
{
    if from < 0 || from >= classes.len() {
        None
    } else if classes[from].name == name {
        Some(ClassId { index: from as usize })
    } else {
        first_class(classes, name, from + 1)
    }
}

/// Whether `m` names a method of a class of `classes`.
pub open spec fn method_exists(classes: Seq<ClassView>, m: MethodRef) -> bool {
    m.class.index < classes.len() && m.index < classes[m.class.index as int].methods.len()
}

/// Whether `id` names a static slot of a class of `classes`.
pub open spec fn static_slot_exists(classes: Seq<ClassView>, id: FieldId) -> bool {
    id.class.index < classes.len() && id.slot < classes[id.class.index as int].static_field_values.len()
}

/// The class `class` with static slot `slot` holding `value`.
pub open spec fn with_static(class: ClassView, slot: int, value: OopRef) -> ClassView {
    ClassView { static_field_values: class.static_field_values.update(slot, value), ..class }
}

/// Whether class `c` is class `d` or has it among its superclasses.
pub open spec fn subclass_of(classes: Seq<ClassView>, c: int, d: int) -> bool
    decreases c,
{
    if c == d {
        true
    } else {
        match classes[c].super_class {
            Some(s) => if 0 <= s.index < c {
                subclass_of(classes, s.index as int, d)
            } else {
                false
            },
            None => false,
        }
    }
}

/// A class has its superclass's layout at the start of its own.
pub proof fn lemma_subclass_layout(classes: Seq<ClassView>, c: int, d: int)
    requires
        0 <= c < classes.len(),
        forall|k: int| 0 <= k < classes.len() ==> class_linked(classes, k),
        subclass_of(classes, c, d),
    ensures
        0 <= d <= c,
        classes[d].layout.len() <= classes[c].layout.len(),
        classes[c].layout.subrange(0, classes[d].layout.len() as int) == classes[d].layout,
    decreases c,
{
    if c == d {
        assert(classes[c].layout.subrange(0, classes[c].layout.len() as int) =~= classes[c].layout);
    } else {
        assert(class_linked(classes, c));
        let s = classes[c].super_class->Some_0;
        lemma_subclass_layout(classes, s.index as int, d);
        assert(classes[c].layout.subrange(0, classes[d].layout.len() as int)
            =~= classes[c].layout.subrange(0, classes[s.index as int].layout.len() as int).subrange(
            0,
            classes[d].layout.len() as int,
        ));
    }
}

/// If `c` inherits from `d`, it inherits from the superclass of `d` too.
pub proof fn lemma_subclass_step(classes: Seq<ClassView>, c: int, d: int)
    requires
        0 <= c < classes.len(),
        0 <= d,
        forall|k: int| 0 <= k < classes.len() ==> class_linked(classes, k),
        subclass_of(classes, c, d),
        classes[d].super_class is Some,
    ensures
        subclass_of(classes, c, classes[d].super_class->Some_0.index as int),
    decreases c,
{
    assert(class_linked(classes, c));
    if c == d {
        let s = classes[d].super_class->Some_0;
        assert(subclass_of(classes, s.index as int, s.index as int));
    } else {
        let s = classes[c].super_class->Some_0;
        lemma_subclass_step(classes, s.index as int, d);
    }
}

/// Whether a value of class `c` may stand where a value of class `d` is
/// asked for: `c` is `d`, or the superclass of `c` or one of the
/// interfaces that `c` implements may stand there.
pub open spec fn assignable(classes: Seq<ClassView>, c: int, d: int) -> bool
    decreases c,
{
    c == d || (match classes[c].super_class {
        Some(s) => 0 <= s.index < c && assignable(classes, s.index as int, d),
        None => false,
    }) || exists|k: int|
        0 <= k < classes[c].interfaces.len() && 0 <= (#[trigger] classes[c].interfaces[k]).index
            < c && assignable(classes, classes[c].interfaces[k].index as int, d)
}

/// A class may stand where any class that it inherits from is asked for.
pub proof fn lemma_subclass_is_assignable(classes: Seq<ClassView>, c: int, d: int)
    requires
        subclass_of(classes, c, d),
    ensures
        assignable(classes, c, d),
    decreases c,
{
    if c != d {
        let s = classes[c].super_class->Some_0;
        lemma_subclass_is_assignable(classes, s.index as int, d);
    }
}

/// The loaded classes.
pub struct ClassArea {
    classes: Vec<Class>,
}

impl View for ClassArea {
    type V = Seq<ClassView>;

    closed spec fn view(&self) -> Seq<ClassView> {
        Seq::new(self.classes@.len(), |i: int| self.classes@[i]@)
    }
}

impl ClassArea {
    /// The class area's invariant: every class is linked.
    pub open spec fn wf(&self) -> bool {
        forall|c: int| 0 <= c < self@.len() ==> class_linked(self@, c)
    }

    /// Whether `id` denotes a class of this area.
    pub open spec fn contains(&self, id: ClassId) -> bool {
        id.index < self@.len()
    }

    /// A class area without classes.
    pub fn new() -> (area: ClassArea)
        ensures
            area@ == Seq::<ClassView>::empty(),
            area.wf(),
    {
        let area = ClassArea { classes: Vec::new() };
        assert(area@ =~= Seq::<ClassView>::empty());
        area
    }

    /// The number of classes.
    pub fn len(&self) -> (n: usize)
        ensures
            n == self@.len(),
    {
        self.classes.len()
    }

    /// Links a class that implements no interfaces and adds it to the
    /// area. The classes that were there stay as they are, so no slot of
    /// theirs changes.
    pub fn define_class(
        &mut self,
        name: Vec<u8>,
        super_class: Option<ClassId>,
        decls: Vec<FieldDecl>,
        methods: Vec<Method>,
    ) -> (id: ClassId)
        requires
            old(self).wf(),
            super_class matches Some(s) ==> old(self).contains(s),
        ensures
            final(self)@ == old(self)@.push(
                linked_class(
                    old(self)@,
                    name@,
                    super_class,
                    Seq::empty(),
                    decl_views(decls@),
                    method_views(methods@),
                ),
            ),
            id.index == old(self)@.len(),
            final(self).wf(),
    {
        self.define_class_implementing(name, super_class, Vec::new(), decls, methods)
    }

    /// Links a class that implements `interfaces` and adds it to the area.
    /// The classes that were there stay as they are, so no slot of theirs
    /// changes.
    pub fn define_class_implementing(
        &mut self,
        name: Vec<u8>,
        super_class: Option<ClassId>,
        interfaces: Vec<ClassId>,
        decls: Vec<FieldDecl>,
        methods: Vec<Method>,
    ) -> (id: ClassId)
        requires
            old(self).wf(),
            super_class matches Some(s) ==> old(self).contains(s),
            forall|k: int| 0 <= k < interfaces@.len() ==> old(self).contains(#[trigger] interfaces@[k]),
        ensures
            final(self)@ == old(self)@.push(
                linked_class(
                    old(self)@,
                    name@,
                    super_class,
                    interfaces@,
                    decl_views(decls@),
                    method_views(methods@),
                ),
            ),
            id.index == old(self)@.len(),
            final(self).wf(),
    {
        let ghost before = self@;
        let ghost dv = decl_views(decls@);
        let ghost inherited = inherited_layout(before, super_class);
        let mut layout: Vec<Vec<u8>> = Vec::new();
        match super_class {
            Some(s) => {
                let parent = &self.classes[s.index];
                let mut k: usize = 0;
                while k < parent.layout.len()
                    invariant
                        k <= parent.layout@.len(),
                        layout@.len() == k,
                        forall|j: int| 0 <= j < k ==> (#[trigger] layout@[j])@ == parent.layout@[j]@,
                    decreases parent.layout@.len() - k,
                {
                    layout.push(bytes_to_vec(parent.layout[k].as_slice()));
                    k = k + 1;
                }
                assert(Seq::new(layout@.len(), |j: int| layout@[j]@) =~= inherited);
            },
            None => {
                assert(Seq::new(layout@.len(), |j: int| layout@[j]@) =~= inherited);
            },
        }
        let mut fields: Vec<Field> = Vec::new();
        let mut statics: Vec<OopRef> = Vec::new();
        let n_inherited = layout.len();
        let mut i: usize = 0;
        while i < decls.len()
            invariant
                i <= decls@.len(),
                dv == decl_views(decls@),
                n_inherited == inherited.len(),
                fields@.len() == i,
                forall|j: int|
                    0 <= j < i ==> (#[trigger] fields@[j])@ == linked_fields(dv, inherited.len())[j],
                Seq::new(layout@.len(), |j: int| layout@[j]@) == inherited + kind_descs(
                    dv,
                    i as int,
                    false,
                ),
                statics@ == kind_descs(dv, i as int, true).map_values(|d: Seq<u8>| default_ref(d)),
            decreases decls@.len() - i,
        {
            let d = &decls[i];
            proof {
                lemma_kind_descs(dv, i as int, false);
                lemma_kind_descs(dv, i as int, true);
                assert(dv[i as int] == d@);
            }
            let ghost old_layout = Seq::new(layout@.len(), |j: int| layout@[j]@);
            let slot = if d.is_static {
                let s = statics.len();
                statics.push(default_handle(d.desc.as_slice()));
                assert(statics@ =~= kind_descs(dv, i + 1, true).map_values(
                    |d: Seq<u8>| default_ref(d),
                ));
                assert(Seq::new(layout@.len(), |j: int| layout@[j]@) =~= inherited + kind_descs(
                    dv,
                    i + 1,
                    false,
                ));
                s
            } else {
                let s = layout.len();
                layout.push(bytes_to_vec(d.desc.as_slice()));
                assert(Seq::new(layout@.len(), |j: int| layout@[j]@) =~= old_layout.push(d.desc@));
                assert(Seq::new(layout@.len(), |j: int| layout@[j]@) =~= inherited + kind_descs(
                    dv,
                    i + 1,
                    false,
                ));
                s
            };
            fields.push(
                Field {
                    name: bytes_to_vec(d.name.as_slice()),
                    desc: bytes_to_vec(d.desc.as_slice()),
                    is_static: d.is_static,
                    slot,
                },
            );
            i = i + 1;
        }
        let index = self.classes.len();
        let class = Class {
            name,
            super_class,
            interfaces,
            fields,
            methods,
            layout,
            static_field_values: statics,
            state: InitState::Loaded,
        };
        let ghost linked = linked_class(
            before,
            name@,
            super_class,
            interfaces@,
            dv,
            method_views(methods@),
        );
        proof {
            assert(class@.fields =~= linked.fields);
            assert(class@.methods =~= linked.methods);
            assert(class@.layout =~= linked.layout);
            assert(class@ == linked);
        }
        self.classes.push(class);
        proof {
            let after = self@;
            assert(after =~= before.push(linked));
            lemma_kind_descs(dv, dv.len() as int, false);
            lemma_kind_descs(dv, dv.len() as int, true);
            assert(decls_of(linked.fields) =~= dv);
            assert(linked.layout.subrange(0, inherited.len() as int) =~= inherited);
            assert(inherited_layout(after, super_class) == inherited);
            assert(class_linked(after, index as int));
            assert forall|c: int| 0 <= c < after.len() implies class_linked(after, c) by {
                if c < index {
                    assert(class_linked(before, c));
                    assert(after[c] == before[c]);
                    assert(inherited_layout(after, after[c].super_class) == inherited_layout(
                        before,
                        before[c].super_class,
                    ));
                }
            }
        }
        ClassId { index }
    }

    /// The loaded class of this name, if there is one.
    pub fn find_class(&self, name: &[u8]) -> (r: Option<ClassId>)
        ensures
            r == first_class(self@, name@, 0),
            r matches Some(id) ==> self.contains(id) && self@[id.index as int].name == name@,
    {
        let mut i: usize = 0;
        while i < self.classes.len()
            invariant
                i <= self@.len(),
                first_class(self@, name@, 0) == first_class(self@, name@, i as int),
            decreases self@.len() - i,
        {
            if bytes_eq(self.classes[i].name.as_slice(), name) {
                return Some(ClassId { index: i });
            }
            i = i + 1;
        }
        None
    }

    /// The name of class `c`.
    pub fn class_name(&self, c: ClassId) -> (name: &Vec<u8>)
        requires
            self.contains(c),
        ensures
            name@ == self@[c.index as int].name,
    {
        &self.classes[c.index].name
    }

    /// The descriptor of instance slot `slot` of class `c`.
    pub fn slot_descriptor(&self, c: ClassId, slot: usize) -> (desc: &Vec<u8>)
        requires
            self.contains(c),
            slot < self@[c.index as int].layout.len(),
        ensures
            desc@ == self@[c.index as int].layout[slot as int],
    {
        &self.classes[c.index].layout[slot]
    }

    /// The number of static slots of class `c`.
    pub fn static_slot_count(&self, c: ClassId) -> (n: usize)
        requires
            self.contains(c),
        ensures
            n == self@[c.index as int].static_field_values.len(),
    {
        self.classes[c.index].static_field_values.len()
    }

    /// The number of instance slots of class `c`, inherited ones included.
    pub fn instance_slot_count(&self, c: ClassId) -> (n: usize)
        requires
            self.contains(c),
        ensures
            n == self@[c.index as int].layout.len(),
    {
        self.classes[c.index].layout.len()
    }

    /// The field that a name, a descriptor and a kind resolve to, seen from
    /// class `c`, its superclasses searched after it.
    pub fn get_field_id(&self, c: ClassId, name: &[u8], desc: &[u8], is_static: bool) -> (r: Option<
        FieldId,
    >)
        requires
            self.wf(),
            self.contains(c),
        ensures
            r == resolve_field(self@, c.index as int, name@, desc@, is_static),
            r matches Some(id) ==> self.contains(id.class) && if is_static {
                id.slot < self@[id.class.index as int].static_field_values.len()
            } else {
                id.slot < self@[id.class.index as int].layout.len() && self@[id.class.index as int].layout[id.slot as int]
                    == desc@ && subclass_of(self@, c.index as int, id.class.index as int)
            },
    {
        let mut cur = c;
        loop
            invariant
                self.wf(),
                self.contains(c),
                self.contains(cur),
                resolve_field(self@, cur.index as int, name@, desc@, is_static) == resolve_field(
                    self@,
                    c.index as int,
                    name@,
                    desc@,
                    is_static,
                ),
                subclass_of(self@, c.index as int, cur.index as int),
            decreases cur.index,
        {
            let ghost fields = self@[cur.index as int].fields;
            let mut i: usize = 0;
            while i < self.classes[cur.index].fields.len()
                invariant
                    self.wf(),
                    self.contains(c),
                    self.contains(cur),
                    subclass_of(self@, c.index as int, cur.index as int),
                    resolve_field(self@, cur.index as int, name@, desc@, is_static)
                        == resolve_field(self@, c.index as int, name@, desc@, is_static),
                    fields == self@[cur.index as int].fields,
                    i <= fields.len(),
                    first_field(fields, name@, desc@, is_static, 0) == first_field(
                        fields,
                        name@,
                        desc@,
                        is_static,
                        i as int,
                    ),
                decreases fields.len() - i,
            {
                let f = &self.classes[cur.index].fields[i];
                assert(f@ == fields[i as int]);
                if f.is_static == is_static && bytes_eq(f.name.as_slice(), name) && bytes_eq(
                    f.desc.as_slice(),
                    desc,
                ) {
                    proof {
                        assert(first_field(fields, name@, desc@, is_static, i as int) == Some(
                            i as int,
                        ));
                        assert(cur == ClassId { index: cur.index as int as usize });
                        assert(class_linked(self@, cur.index as int));
                        let decls = decls_of(fields);
                        lemma_kind_descs(decls, decls.len() as int, is_static);
                        assert(decls[i as int].is_static == is_static);
                        lemma_subclass_layout(self@, c.index as int, cur.index as int);
                    }
                    return Some(FieldId { class: cur, slot: f.slot });
                }
                i = i + 1;
            }
            assert(class_linked(self@, cur.index as int));
            match self.classes[cur.index].super_class {
                Some(s) => {
                    proof {
                        lemma_subclass_step(self@, c.index as int, cur.index as int);
                    }
                    cur = s;
                },
                None => {
                    return None;
                },
            }
        }
    }

    /// The value of the static field `id`.
    pub fn get_static_field_value(&self, id: FieldId) -> (value: OopRef)
        requires
            static_slot_exists(self@, id),
        ensures
            value == self@[id.class.index as int].static_field_values[id.slot as int],
    {
        self.classes[id.class.index].static_field_values[id.slot]
    }

    /// Stores `value` in the static field `id`. Nothing else changes.
    pub fn put_static_field_value(&mut self, id: FieldId, value: OopRef)
        requires
            old(self).wf(),
            static_slot_exists(old(self)@, id),
        ensures
            final(self)@ == old(self)@.update(
                id.class.index as int,
                with_static(old(self)@[id.class.index as int], id.slot as int, value),
            ),
            final(self).wf(),
    {
        let ghost before = self@;
        self.classes[id.class.index].static_field_values[id.slot] = value;
        proof {
            let after = before.update(
                id.class.index as int,
                with_static(before[id.class.index as int], id.slot as int, value),
            );
            assert(self@ =~= after);
            assert forall|c: int| 0 <= c < after.len() implies class_linked(after, c) by {
                assert(class_linked(before, c));
                assert(inherited_layout(after, after[c].super_class) == inherited_layout(
                    before,
                    before[c].super_class,
                ));
            }
        }
    }

    /// How far the initialization of class `c` has come.
    pub fn init_state(&self, c: ClassId) -> (state: InitState)
        requires
            self.contains(c),
        ensures
            state == self@[c.index as int].state,
    {
        self.classes[c.index].state
    }

    /// The thread `thread` asks for class `c` initialized. The answer says
    /// what the thread is to do; the first thread that asks is told to run
    /// the initializer, and the class remembers that thread.
    pub fn request_initialization(&mut self, c: ClassId, thread: u64) -> (action: InitAction)
        requires
            old(self).wf(),
            old(self).contains(c),
        ensures
            final(self).wf(),
            final(self)@ == old(self)@.update(
                c.index as int,
                with_state(
                    old(self)@[c.index as int],
                    init_request(old(self)@[c.index as int].state, thread).0,
                ),
            ),
            action == init_request(old(self)@[c.index as int].state, thread).1,
    {
        let state = self.classes[c.index].state;
        let (next, action) = match state {
            InitState::Loaded => (InitState::BeingInitialized(thread), InitAction::Run),
            InitState::BeingInitialized(t) => if t == thread {
                (state, InitAction::Proceed)
            } else {
                (state, InitAction::Wait)
            },
            InitState::Initialized => (state, InitAction::Proceed),
            InitState::Errored => (state, InitAction::Fail),
        };
        self.set_state(c, next);
        action
    }

    /// The thread `thread` reports that the initializer of class `c` has
    /// ended, well if `ok` is set. The class becomes initialized or
    /// errored if that thread was initializing it, and stays as it is else.
    pub fn finish_initialization(&mut self, c: ClassId, thread: u64, ok: bool)
        requires
            old(self).wf(),
            old(self).contains(c),
        ensures
            final(self).wf(),
            final(self)@ == old(self)@.update(
                c.index as int,
                with_state(
                    old(self)@[c.index as int],
                    init_finish(old(self)@[c.index as int].state, thread, ok),
                ),
            ),
    {
        let state = self.classes[c.index].state;
        let next = match state {
            InitState::BeingInitialized(t) => if t == thread {
                if ok {
                    InitState::Initialized
                } else {
                    InitState::Errored
                }
            } else {
                state
            },
            _ => state,
        };
        self.set_state(c, next);
    }

    /// Puts class `c` into the initialization state `state`.
    fn set_state(&mut self, c: ClassId, state: InitState)
        requires
            old(self).wf(),
            old(self).contains(c),
        ensures
            final(self).wf(),
            final(self)@ == old(self)@.update(
                c.index as int,
                with_state(old(self)@[c.index as int], state),
            ),
    {
        let ghost before = self@;
        self.classes[c.index].state = state;
        proof {
            let after = before.update(c.index as int, with_state(before[c.index as int], state));
            assert(self@ =~= after);
            assert forall|k: int| 0 <= k < after.len() implies class_linked(after, k) by {
                assert(class_linked(before, k));
                assert(inherited_layout(after, after[k].super_class) == inherited_layout(
                    before,
                    before[k].super_class,
                ));
            }
        }
    }

    /// The method that `m` names.
    pub fn method(&self, m: MethodRef) -> (method: &Method)
        requires
            method_exists(self@, m),
        ensures
            method@ == self@[m.class.index as int].methods[m.index as int],
    {
        &self.classes[m.class.index].methods[m.index]
    }

    /// The method of this id that class `c` itself declares.
    pub fn get_class_method(&self, c: ClassId, id: &MethodId) -> (r: Option<MethodRef>)
        requires
            self.contains(c),
        ensures
            r == class_method(self@, c.index as int, id@),
            r matches Some(m) ==> m.class == c && m.index < self@[c.index as int].methods.len(),
    {
        let ghost methods = self@[c.index as int].methods;
        let mut i: usize = 0;
        while i < self.classes[c.index].methods.len()
            invariant
                self.contains(c),
                methods == self@[c.index as int].methods,
                i <= methods.len(),
                first_method(methods, id@, 0) == first_method(methods, id@, i as int),
            decreases methods.len() - i,
        {
            let m = &self.classes[c.index].methods[i];
            assert(m@ == methods[i as int]);
            if bytes_eq(m.name.as_slice(), id.name.as_slice()) && bytes_eq(
                m.desc.as_slice(),
                id.desc.as_slice(),
            ) {
                return Some(MethodRef { class: c, index: i });
            }
            i = i + 1;
        }
        None
    }

    /// The method that a call of this id on an object of class `c` runs,
    /// the superclasses of `c` searched after it.
    pub fn get_virtual_method(&self, c: ClassId, id: &MethodId) -> (r: Option<MethodRef>)
        requires
            self.wf(),
            self.contains(c),
        ensures
            r == virtual_method(self@, c.index as int, id@),
            r matches Some(m) ==> self.contains(m.class) && m.index < self@[m.class.index as int].methods.len(),
    {
        let mut cur = c;
        loop
            invariant
                self.wf(),
                self.contains(cur),
                virtual_method(self@, cur.index as int, id@) == virtual_method(
                    self@,
                    c.index as int,
                    id@,
                ),
            decreases cur.index,
        {
            match self.get_class_method(cur, id) {
                Some(m) => {
                    return Some(m);
                },
                None => {},
            }
            assert(class_linked(self@, cur.index as int));
            match self.classes[cur.index].super_class {
                Some(s) => {
                    cur = s;
                },
                None => {
                    return None;
                },
            }
        }
    }

    /// Whether a value of class `c` may stand where a value of class `d`
    /// is asked for.
    pub fn is_assignable(&self, c: ClassId, d: ClassId) -> (r: bool)
        requires
            self.wf(),
            self.contains(c),
        ensures
            r == assignable(self@, c.index as int, d.index as int),
        decreases c.index,
    {
        if c.index == d.index {
            return true;
        }
        assert(class_linked(self@, c.index as int));
        match self.classes[c.index].super_class {
            Some(s) => {
                if self.is_assignable(s, d) {
                    return true;
                }
            },
            None => {},
        }
        let ghost interfaces = self@[c.index as int].interfaces;
        let mut k: usize = 0;
        while k < self.classes[c.index].interfaces.len()
            invariant
                self.wf(),
                self.contains(c),
                interfaces == self@[c.index as int].interfaces,
                k <= interfaces.len(),
                forall|j: int|
                    0 <= j < k ==> !assignable(
                        self@,
                        (#[trigger] interfaces[j]).index as int,
                        d.index as int,
                    ),
            decreases interfaces.len() - k,
        {
            let i = self.classes[c.index].interfaces[k];
            assert(class_linked(self@, c.index as int));
            assert(interfaces[k as int] == i);
            if self.is_assignable(i, d) {
                return true;
            }
            k = k + 1;
        }
        false
    }

    /// Whether class `c` has a superclass.
    pub fn has_super(&self, c: ClassId) -> (r: bool)
        requires
            self.contains(c),
        ensures
            r == self@[c.index as int].super_class is Some,
    {
        self.classes[c.index].super_class.is_some()
    }

    /// Whether class `c` is class `d` or inherits from it.
    pub fn is_subclass_of(&self, c: ClassId, d: ClassId) -> (r: bool)
        requires
            self.wf(),
            self.contains(c),
        ensures
            r == subclass_of(self@, c.index as int, d.index as int),
    {
        let mut cur = c;
        loop
            invariant
                self.wf(),
                self.contains(cur),
                subclass_of(self@, cur.index as int, d.index as int) == subclass_of(
                    self@,
                    c.index as int,
                    d.index as int,
                ),
            decreases cur.index,
        {
            if cur.index == d.index {
                return true;
            }
            assert(class_linked(self@, cur.index as int));
            match self.classes[cur.index].super_class {
                Some(s) => {
                    cur = s;
                },
                None => {
                    return false;
                },
            }
        }
    }
}

} // verus!
