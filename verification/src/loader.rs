//! Loading: from the bytes of a class file to a linked class.
//!
//! A class is linked against the classes that are loaded already. Its
//! superclass and the classes that its handlers catch must be among them;
//! where one is missing, the error names the constant that asks for it, so
//! that it can be loaded first.
//!
//! Reading class files is left to the caller. The steps of this module
//! say what the caller does next: which class file to read, which
//! initializer to run, when to wait and when to give up.

use vstd::prelude::*;
use crate::class::{
    decl_views, first_class, init_request, linked_class, method_views, with_state, ClassView,
    FieldDecl, FieldDeclView, Handler, InitAction, Method, MethodView,
};
use crate::classfile::attributes::CodeException;
use crate::classfile::codec::class::{parse_class, parsed_class};
use crate::classfile::constant_pool::{
    class_name_at, get_class_name, get_utf8, utf8_at, ConstantPool, Type,
};
use crate::classfile::{code_of, ClassFile, FieldInfo, MethodInfo};
use crate::native::Exception;
use crate::oop::ClassId;
use crate::runtime::{Vm, VmView};
use crate::trans::access_flag::{has_flag, is_static, ACC_STATIC};
use crate::util::{bytes_eq, bytes_to_vec};

verus! {

/// Why a class file cannot be linked.
#[derive(Clone, Copy, PartialEq, Eq, Structural, Debug)]
pub enum LinkError {
    /// An index into the constant pool does not name an entry of the kind
    /// that is asked for.
    BadConstant,
    /// The class that the `Class` entry at this index of the constant pool
    /// names is not loaded.
    MissingClass(u16),
}

/// The class that the `Class` entry at `index` names, among the loaded
/// classes.
pub open spec fn named_class(classes: Seq<ClassView>, cp: Seq<Type>, index: u16) -> Result<
    ClassId,
    LinkError,
> {
    match class_name_at(cp, index as int) {
        None => Err(LinkError::BadConstant),
        Some(name) => match first_class(classes, name, 0) {
            Some(id) => Ok(id),
            None => Err(LinkError::MissingClass(index)),
        },
    }
}

/// The superclass of a class file: none where the index of the superclass
/// is 0, and else the loaded class that the index names.
pub open spec fn super_of(classes: Seq<ClassView>, cf: &ClassFile) -> Result<
    Option<ClassId>,
    LinkError,
> {
    if cf.super_class == 0 {
        Ok(None)
    } else {
        match named_class(classes, cf.cp@, cf.super_class) {
            Ok(id) => Ok(Some(id)),
            Err(e) => Err(e),
        }
    }
}

/// The loaded classes that the first `n` of the `Class` entries at
/// `indices` name. The first that cannot be had decides the error.
pub open spec fn named_classes(
    classes: Seq<ClassView>,
    cp: Seq<Type>,
    indices: Seq<u16>,
    n: int,
) -> Result<Seq<ClassId>, LinkError>
    decreases n,
{
    if n <= 0 {
        Ok(Seq::empty())
    } else {
        match named_classes(classes, cp, indices, n - 1) {
            Err(e) => Err(e),
            Ok(ids) => match named_class(classes, cp, indices[n - 1]) {
                Err(e) => Err(e),
                Ok(id) => Ok(ids.push(id)),
            },
        }
    }
}

/// The declaration of a field: its name, its descriptor, and whether it is
/// static.
pub open spec fn declared_field(cp: Seq<Type>, f: FieldInfo) -> Option<FieldDeclView> {
    match (utf8_at(cp, f.name_index as int), utf8_at(cp, f.desc_index as int)) {
        (Some(name), Some(desc)) => Some(
            FieldDeclView { name, desc, is_static: has_flag(f.acc_flags, ACC_STATIC) },
        ),
        _ => None,
    }
}

/// The declarations of the fields of a class file, if each field names its
/// name and its descriptor.
pub open spec fn declared_fields(cp: Seq<Type>, fields: Seq<FieldInfo>) -> Option<
    Seq<FieldDeclView>,
> {
    if forall|i: int| 0 <= i < fields.len() ==> (#[trigger] declared_field(cp, fields[i])) is Some {
        Some(Seq::new(fields.len(), |i: int| declared_field(cp, fields[i])->Some_0))
    } else {
        None
    }
}

/// One entry of an exception table with its class resolved. The index 0
/// stands for a handler that catches everything.
pub open spec fn resolved_handler(classes: Seq<ClassView>, cp: Seq<Type>, e: CodeException) -> Result<
    Handler,
    LinkError,
> {
    if e.catch_type == 0 {
        Ok(
            Handler {
                start_pc: e.start_pc,
                end_pc: e.end_pc,
                handler_pc: e.handler_pc,
                catch_type: None,
            },
        )
    } else {
        match named_class(classes, cp, e.catch_type) {
            Ok(id) => Ok(
                Handler {
                    start_pc: e.start_pc,
                    end_pc: e.end_pc,
                    handler_pc: e.handler_pc,
                    catch_type: Some(id),
                },
            ),
            Err(e) => Err(e),
        }
    }
}

/// The first `n` entries of an exception table with their classes
/// resolved. The first entry that cannot be resolved decides the error.
pub open spec fn resolved_handlers(
    classes: Seq<ClassView>,
    cp: Seq<Type>,
    table: Seq<CodeException>,
    n: int,
) -> Result<Seq<Handler>, LinkError>
    decreases n,
{
    if n <= 0 {
        Ok(Seq::empty())
    } else {
        match resolved_handlers(classes, cp, table, n - 1) {
            Err(e) => Err(e),
            Ok(handlers) => match resolved_handler(classes, cp, table[n - 1]) {
                Err(e) => Err(e),
                Ok(h) => Ok(handlers.push(h)),
            },
        }
    }
}

/// A method as the class area holds it: its name, its descriptor and its
/// flags, and from its code the limits and the exception table. A method
/// without code has the limits 0 and no handlers.
pub open spec fn linked_method(classes: Seq<ClassView>, cp: Seq<Type>, m: &MethodInfo) -> Result<
    MethodView,
    LinkError,
> {
    match (utf8_at(cp, m.name_index as int), utf8_at(cp, m.desc_index as int)) {
        (Some(name), Some(desc)) => match code_of(m) {
            None => Ok(
                MethodView {
                    name,
                    desc,
                    acc_flags: m.acc_flags,
                    max_stack: 0,
                    max_locals: 0,
                    handlers: Seq::empty(),
                },
            ),
            Some(code) => match resolved_handlers(
                classes,
                cp,
                code.exceptions@,
                code.exceptions@.len() as int,
            ) {
                Err(e) => Err(e),
                Ok(handlers) => Ok(
                    MethodView {
                        name,
                        desc,
                        acc_flags: m.acc_flags,
                        max_stack: code.max_stack,
                        max_locals: code.max_locals,
                        handlers,
                    },
                ),
            },
        },
        _ => Err(LinkError::BadConstant),
    }
}

/// The first `n` methods of a class file as the class area holds them. The
/// first method that cannot be linked decides the error.
pub open spec fn linked_methods(
    classes: Seq<ClassView>,
    cp: Seq<Type>,
    methods: Seq<MethodInfo>,
    n: int,
) -> Result<Seq<MethodView>, LinkError>
    decreases n,
{
    if n <= 0 {
        Ok(Seq::empty())
    } else {
        match linked_methods(classes, cp, methods, n - 1) {
            Err(e) => Err(e),
            Ok(linked) => match linked_method(classes, cp, &methods[n - 1]) {
                Err(e) => Err(e),
                Ok(m) => Ok(linked.push(m)),
            },
        }
    }
}

/// The class that linking makes of a class file. The name, the
/// superclass, the interfaces, the fields and the methods are looked at in
/// this order, and the first that cannot be had decides the error.
pub open spec fn linked_class_file(classes: Seq<ClassView>, cf: &ClassFile) -> Result<
    ClassView,
    LinkError,
> {
    let cp = cf.cp@;
    match class_name_at(cp, cf.this_class as int) {
        None => Err(LinkError::BadConstant),
        Some(name) => match super_of(classes, cf) {
            Err(e) => Err(e),
            Ok(super_class) => match named_classes(
                classes,
                cp,
                cf.interfaces@,
                cf.interfaces@.len() as int,
            ) {
                Err(e) => Err(e),
                Ok(interfaces) => match declared_fields(cp, cf.fields@) {
                    None => Err(LinkError::BadConstant),
                    Some(decls) => match linked_methods(
                        classes,
                        cp,
                        cf.methods@,
                        cf.methods@.len() as int,
                    ) {
                        Err(e) => Err(e),
                        Ok(methods) => Ok(
                            linked_class(classes, name, super_class, interfaces, decls, methods),
                        ),
                    },
                },
            },
        },
    }
}

/// The loaded class that the `Class` entry at `index` names.
fn class_named(vm: &Vm, cp: &ConstantPool, index: u16) -> (r: Result<ClassId, LinkError>)
    ensures
        r == named_class(vm@.classes, cp@, index),
        r matches Ok(id) ==> vm.classes.contains(id),
{
    match get_class_name(cp, index as usize) {
        None => Err(LinkError::BadConstant),
        Some(name) => match vm.classes.find_class(name.as_slice()) {
            Some(id) => Ok(id),
            None => Err(LinkError::MissingClass(index)),
        },
    }
}

/// The loaded classes that the `Class` entries at `indices` name.
fn classes_named(vm: &Vm, cp: &ConstantPool, indices: &Vec<u16>) -> (r: Result<
    Vec<ClassId>,
    LinkError,
>)
    ensures
        match named_classes(vm@.classes, cp@, indices@, indices@.len() as int) {
            Ok(ids) => r matches Ok(v) && v@ == ids && forall|k: int|
                0 <= k < v@.len() ==> vm.classes.contains(#[trigger] v@[k]),
            Err(e) => r matches Err(got) && got == e,
        },
{
    let mut ids: Vec<ClassId> = Vec::new();
    let mut i: usize = 0;
    while i < indices.len()
        invariant
            i <= indices@.len(),
            named_classes(vm@.classes, cp@, indices@, i as int) == Ok::<Seq<ClassId>, LinkError>(
                ids@,
            ),
            forall|k: int| 0 <= k < ids@.len() ==> vm.classes.contains(#[trigger] ids@[k]),
        decreases indices@.len() - i,
    {
        match class_named(vm, cp, indices[i]) {
            Ok(id) => {
                ids.push(id);
            },
            Err(e) => {
                assert(named_classes(vm@.classes, cp@, indices@, i + 1) == Err::<
                    Seq<ClassId>,
                    LinkError,
                >(e));
                proof {
                    lemma_named_classes_fail(vm@.classes, cp@, indices@, i + 1, indices@.len() as int);
                }
                return Err(e);
            },
        }
        i = i + 1;
    }
    Ok(ids)
}

/// Once the naming of a prefix of the classes has failed, the naming of
/// every longer prefix fails in the same way.
proof fn lemma_named_classes_fail(
    classes: Seq<ClassView>,
    cp: Seq<Type>,
    indices: Seq<u16>,
    n: int,
    m: int,
)
    requires
        0 <= n <= m,
        named_classes(classes, cp, indices, n) is Err,
    ensures
        named_classes(classes, cp, indices, m) == named_classes(classes, cp, indices, n),
    decreases m - n,
{
    if n < m {
        lemma_named_classes_fail(classes, cp, indices, n, m - 1);
    }
}

/// The declarations of the fields of a class file.
fn fields_declared(cp: &ConstantPool, fields: &Vec<FieldInfo>) -> (r: Option<Vec<FieldDecl>>)
    ensures
        match declared_fields(cp@, fields@) {
            Some(decls) => r matches Some(v) && decl_views(v@) == decls,
            None => r is None,
        },
{
    let mut decls: Vec<FieldDecl> = Vec::new();
    assert(decl_views(decls@) =~= Seq::new(0, |i: int| declared_field(cp@, fields@[i])->Some_0));
    let mut i: usize = 0;
    while i < fields.len()
        invariant
            i <= fields@.len(),
            forall|k: int| 0 <= k < i ==> (#[trigger] declared_field(cp@, fields@[k])) is Some,
            decl_views(decls@) == Seq::new(
                i as nat,
                |k: int| declared_field(cp@, fields@[k])->Some_0,
            ),
        decreases fields@.len() - i,
    {
        let f = &fields[i];
        let name = match get_utf8(cp, f.name_index as usize) {
            Some(name) => name,
            None => {
                assert(declared_field(cp@, fields@[i as int]) is None);
                return None;
            },
        };
        let desc = match get_utf8(cp, f.desc_index as usize) {
            Some(desc) => desc,
            None => {
                assert(declared_field(cp@, fields@[i as int]) is None);
                return None;
            },
        };
        let decl = FieldDecl {
            name: bytes_to_vec(name.as_slice()),
            desc: bytes_to_vec(desc.as_slice()),
            is_static: is_static(f.acc_flags),
        };
        assert(declared_field(cp@, fields@[i as int]) == Some(decl@));
        let ghost before = decl_views(decls@);
        decls.push(decl);
        assert(decl_views(decls@) =~= before.push(decl@));
        assert(decl_views(decls@) =~= Seq::new(
            (i + 1) as nat,
            |k: int| declared_field(cp@, fields@[k])->Some_0,
        ));
        i = i + 1;
    }
    Some(decls)
}

/// The entries of an exception table with their classes resolved.
fn handlers_resolved(vm: &Vm, cp: &ConstantPool, table: &Vec<CodeException>) -> (r: Result<
    Vec<Handler>,
    LinkError,
>)
    ensures
        match resolved_handlers(vm@.classes, cp@, table@, table@.len() as int) {
            Ok(handlers) => r matches Ok(v) && v@ == handlers,
            Err(e) => r matches Err(got) && got == e,
        },
{
    let mut handlers: Vec<Handler> = Vec::new();
    let mut i: usize = 0;
    while i < table.len()
        invariant
            i <= table@.len(),
            resolved_handlers(vm@.classes, cp@, table@, i as int) == Ok::<
                Seq<Handler>,
                LinkError,
            >(handlers@),
        decreases table@.len() - i,
    {
        let e = table[i];
        let catch_type = if e.catch_type == 0 {
            None
        } else {
            match class_named(vm, cp, e.catch_type) {
                Ok(id) => Some(id),
                Err(err) => {
                    assert(resolved_handlers(vm@.classes, cp@, table@, i + 1) == Err::<
                        Seq<Handler>,
                        LinkError,
                    >(err));
                    proof {
                        lemma_resolved_handlers_fail(
                            vm@.classes,
                            cp@,
                            table@,
                            i + 1,
                            table@.len() as int,
                        );
                    }
                    return Err(err);
                },
            }
        };
        handlers.push(
            Handler { start_pc: e.start_pc, end_pc: e.end_pc, handler_pc: e.handler_pc, catch_type },
        );
        i = i + 1;
    }
    Ok(handlers)
}

/// Once the resolving of a prefix of an exception table has failed, the
/// resolving of every longer prefix fails in the same way.
proof fn lemma_resolved_handlers_fail(
    classes: Seq<ClassView>,
    cp: Seq<Type>,
    table: Seq<CodeException>,
    n: int,
    m: int,
)
    requires
        0 <= n <= m,
        resolved_handlers(classes, cp, table, n) is Err,
    ensures
        resolved_handlers(classes, cp, table, m) == resolved_handlers(classes, cp, table, n),
    decreases m - n,
{
    if n < m {
        lemma_resolved_handlers_fail(classes, cp, table, n, m - 1);
    }
}

/// Once the linking of a prefix of the methods has failed, the linking of
/// every longer prefix fails in the same way.
proof fn lemma_linked_methods_fail(
    classes: Seq<ClassView>,
    cp: Seq<Type>,
    methods: Seq<MethodInfo>,
    n: int,
    m: int,
)
    requires
        0 <= n <= m,
        linked_methods(classes, cp, methods, n) is Err,
    ensures
        linked_methods(classes, cp, methods, m) == linked_methods(classes, cp, methods, n),
    decreases m - n,
{
    if n < m {
        lemma_linked_methods_fail(classes, cp, methods, n, m - 1);
    }
}

/// A method as the class area holds it.
fn method_linked(vm: &Vm, cp: &ConstantPool, m: &MethodInfo) -> (r: Result<Method, LinkError>)
    ensures
        match linked_method(vm@.classes, cp@, m) {
            Ok(method) => r matches Ok(got) && got@ == method,
            Err(e) => r matches Err(got) && got == e,
        },
{
    let name = match get_utf8(cp, m.name_index as usize) {
        Some(name) => name,
        None => {
            return Err(LinkError::BadConstant);
        },
    };
    let desc = match get_utf8(cp, m.desc_index as usize) {
        Some(desc) => desc,
        None => {
            return Err(LinkError::BadConstant);
        },
    };
    let (max_stack, max_locals, handlers) = match m.get_code() {
        None => (0, 0, Vec::new()),
        Some(code) => match handlers_resolved(vm, cp, &code.exceptions) {
            Ok(handlers) => (code.max_stack, code.max_locals, handlers),
            Err(e) => {
                return Err(e);
            },
        },
    };
    Ok(
        Method {
            name: bytes_to_vec(name.as_slice()),
            desc: bytes_to_vec(desc.as_slice()),
            acc_flags: m.acc_flags,
            max_stack,
            max_locals,
            handlers,
        },
    )
}

/// The methods of a class file as the class area holds them.
fn methods_linked(vm: &Vm, cp: &ConstantPool, methods: &Vec<MethodInfo>) -> (r: Result<
    Vec<Method>,
    LinkError,
>)
    ensures
        match linked_methods(vm@.classes, cp@, methods@, methods@.len() as int) {
            Ok(linked) => r matches Ok(v) && method_views(v@) == linked,
            Err(e) => r matches Err(got) && got == e,
        },
{
    let mut linked: Vec<Method> = Vec::new();
    assert(method_views(linked@) =~= Seq::<MethodView>::empty());
    let mut i: usize = 0;
    while i < methods.len()
        invariant
            i <= methods@.len(),
            linked_methods(vm@.classes, cp@, methods@, i as int) == Ok::<
                Seq<MethodView>,
                LinkError,
            >(method_views(linked@)),
        decreases methods@.len() - i,
    {
        match method_linked(vm, cp, &methods[i]) {
            Ok(m) => {
                let ghost before = method_views(linked@);
                let ghost view = m@;
                linked.push(m);
                assert(method_views(linked@) =~= before.push(view));
            },
            Err(e) => {
                assert(linked_methods(vm@.classes, cp@, methods@, i + 1) == Err::<
                    Seq<MethodView>,
                    LinkError,
                >(e));
                proof {
                    lemma_linked_methods_fail(
                        vm@.classes,
                        cp@,
                        methods@,
                        i + 1,
                        methods@.len() as int,
                    );
                }
                return Err(e);
            },
        }
        i = i + 1;
    }
    Ok(linked)
}

/// Links the class of a class file and adds it to the class area. Where
/// the class cannot be linked, the machine stays as it is.
pub fn link_class(vm: &mut Vm, cf: &ClassFile) -> (r: Result<ClassId, LinkError>)
    requires
        old(vm).wf(),
    ensures
        final(vm).wf(),
        match linked_class_file(old(vm)@.classes, cf) {
            Ok(class) => r matches Ok(id) && id.index == old(vm)@.classes.len() && final(vm)@ == (
            VmView { classes: old(vm)@.classes.push(class), ..old(vm)@ }),
            Err(e) => r == Err::<ClassId, LinkError>(e) && final(vm)@ == old(vm)@,
        },
{
    let name = match get_class_name(&cf.cp, cf.this_class as usize) {
        Some(name) => bytes_to_vec(name.as_slice()),
        None => {
            return Err(LinkError::BadConstant);
        },
    };
    let super_class = if cf.super_class == 0 {
        None
    } else {
        match class_named(vm, &cf.cp, cf.super_class) {
            Ok(id) => Some(id),
            Err(e) => {
                return Err(e);
            },
        }
    };
    let interfaces = match classes_named(vm, &cf.cp, &cf.interfaces) {
        Ok(interfaces) => interfaces,
        Err(e) => {
            return Err(e);
        },
    };
    let decls = match fields_declared(&cf.cp, &cf.fields) {
        Some(decls) => decls,
        None => {
            return Err(LinkError::BadConstant);
        },
    };
    let methods = match methods_linked(vm, &cf.cp, &cf.methods) {
        Ok(methods) => methods,
        Err(e) => {
            return Err(e);
        },
    };
    Ok(vm.define_class_implementing(name, super_class, interfaces, decls, methods))
}

/// Why the bytes of a class file cannot be loaded.
#[derive(Clone, Copy, PartialEq, Eq, Structural, Debug)]
pub enum LoadError {
    /// The bytes are no class file.
    Malformed,
    /// The class file cannot be linked.
    Link(LinkError),
}

/// What loading the bytes `s` gives: the class of that name that is loaded
/// already, if there is one, and else the class that linking makes of the
/// class file, as a new class of the class area.
pub open spec fn loaded(classes: Seq<ClassView>, cf: &ClassFile) -> Result<
    (ClassId, Seq<ClassView>),
    LoadError,
> {
    match class_name_at(cf.cp@, cf.this_class as int) {
        None => Err(LoadError::Link(LinkError::BadConstant)),
        Some(name) => match first_class(classes, name, 0) {
            Some(id) => Ok((id, classes)),
            None => match linked_class_file(classes, cf) {
                Ok(class) => Ok((ClassId { index: classes.len() as usize }, classes.push(class))),
                Err(e) => Err(LoadError::Link(e)),
            },
        },
    }
}

/// Loads the class of the class file `cf`: links it unless a class of its
/// name is loaded already.
pub fn load_class_file(vm: &mut Vm, cf: &ClassFile) -> (r: Result<ClassId, LoadError>)
    requires
        old(vm).wf(),
    ensures
        final(vm).wf(),
        r matches Ok(id) ==> final(vm).classes.contains(id),
        match loaded(old(vm)@.classes, cf) {
            Ok((id, classes)) => r == Ok::<ClassId, LoadError>(id) && final(vm)@ == (VmView {
                classes,
                ..old(vm)@
            }),
            Err(e) => r == Err::<ClassId, LoadError>(e) && final(vm)@ == old(vm)@,
        },
{
    let known = match get_class_name(&cf.cp, cf.this_class as usize) {
        Some(name) => vm.classes.find_class(name.as_slice()),
        None => {
            return Err(LoadError::Link(LinkError::BadConstant));
        },
    };
    match known {
        Some(id) => Ok(id),
        None => match link_class(vm, cf) {
            Ok(id) => Ok(id),
            Err(e) => Err(LoadError::Link(e)),
        },
    }
}

/// Loads the class whose class file the bytes `s` are: parses them, and
/// links the class unless a class of its name is loaded already.
pub fn load_class(vm: &mut Vm, s: &[u8]) -> (r: Result<ClassId, LoadError>)
    requires
        old(vm).wf(),
    ensures
        final(vm).wf(),
        r matches Ok(id) ==> final(vm).classes.contains(id),
        parsed_class(s@) is None ==> r == Err::<ClassId, LoadError>(LoadError::Malformed)
            && final(vm)@ == old(vm)@,
        parsed_class(s@) is Some ==> exists|cf: ClassFile|
            #![trigger cf@]
            parsed_class(s@) == Some(cf@) && match loaded(old(vm)@.classes, &cf) {
                Ok((id, classes)) => r == Ok::<ClassId, LoadError>(id) && final(vm)@ == (VmView {
                    classes,
                    ..old(vm)@
                }),
                Err(e) => r == Err::<ClassId, LoadError>(e) && final(vm)@ == old(vm)@,
            },
{
    match parse_class(s) {
        Some(cf) => {
            let r = load_class_file(vm, &cf);
            assert(parsed_class(s@) == Some(cf@));
            r
        },
        None => Err(LoadError::Malformed),
    }
}

/// What the one who reads class files does next to have a class loaded.
#[derive(Clone, PartialEq, Eq, Debug)]
pub enum LoadStep {
    /// The class is loaded.
    Loaded(ClassId),
    /// A class of this name is needed first: read its class file, have it
    /// loaded, and try again.
    Needs(Vec<u8>),
    /// The class that is needed first is the class itself, or one of those
    /// that wait for it: none of them can be loaded.
    Circular,
    /// The class file is that of a class of another name than the one
    /// that was asked for.
    Misnamed,
    /// The class cannot be loaded.
    Failed(LoadError),
}

pub enum LoadStepView {
    Loaded(ClassId),
    Needs(Seq<u8>),
    Circular,
    Misnamed,
    Failed(LoadError),
}

impl View for LoadStep {
    type V = LoadStepView;

    open spec fn view(&self) -> LoadStepView {
        match *self {
            LoadStep::Loaded(id) => LoadStepView::Loaded(id),
            LoadStep::Needs(name) => LoadStepView::Needs(name@),
            LoadStep::Circular => LoadStepView::Circular,
            LoadStep::Misnamed => LoadStepView::Misnamed,
            LoadStep::Failed(e) => LoadStepView::Failed(e),
        }
    }
}

/// Whether `name` is among the names `pending`.
pub open spec fn is_pending(pending: Seq<Vec<u8>>, name: Seq<u8>) -> bool {
    exists|i: int| 0 <= i < pending.len() && (#[trigger] pending[i])@ == name
}

/// What a class file that lacks the class of the `Class` entry at `index`
/// asks for, where the classes named `pending` wait for it to be loaded:
/// that class by its name, unless it is the class itself or waits for it.
pub open spec fn needed_class(cf: &ClassFile, index: u16, pending: Seq<Vec<u8>>) -> LoadStepView {
    match class_name_at(cf.cp@, index as int) {
        None => LoadStepView::Failed(LoadError::Link(LinkError::BadConstant)),
        Some(name) => if class_name_at(cf.cp@, cf.this_class as int) == Some(name) || is_pending(
            pending,
            name,
        ) {
            LoadStepView::Circular
        } else {
            LoadStepView::Needs(name)
        },
    }
}

/// One step of loading the class of the class file `cf`, where the classes
/// named `pending` wait for it, and the classes after the step. It is what
/// [`loaded`] says, but for a class that is missing: that one is asked for
/// by name, and the classes stay as they are.
pub open spec fn load_step(classes: Seq<ClassView>, cf: &ClassFile, pending: Seq<Vec<u8>>) -> (
    LoadStepView,
    Seq<ClassView>,
) {
    match loaded(classes, cf) {
        Ok((id, after)) => (LoadStepView::Loaded(id), after),
        Err(LoadError::Link(LinkError::MissingClass(index))) => (
            needed_class(cf, index, pending),
            classes,
        ),
        Err(e) => (LoadStepView::Failed(e), classes),
    }
}

/// Whether the error, where it says that a class is missing, speaks of a
/// `Class` entry that names a class, and of a class that is not loaded.
pub open spec fn names_missing_class(classes: Seq<ClassView>, cp: Seq<Type>, e: LinkError) -> bool {
    e matches LinkError::MissingClass(index) ==> (class_name_at(cp, index as int) matches Some(
        name,
    ) && first_class(classes, name, 0) is None)
}

proof fn lemma_named_classes_missing(
    classes: Seq<ClassView>,
    cp: Seq<Type>,
    indices: Seq<u16>,
    n: int,
)
    ensures
        named_classes(classes, cp, indices, n) matches Err(e) ==> names_missing_class(
            classes,
            cp,
            e,
        ),
    decreases n,
{
    if n > 0 {
        lemma_named_classes_missing(classes, cp, indices, n - 1);
    }
}

proof fn lemma_resolved_handlers_missing(
    classes: Seq<ClassView>,
    cp: Seq<Type>,
    table: Seq<CodeException>,
    n: int,
)
    ensures
        resolved_handlers(classes, cp, table, n) matches Err(e) ==> names_missing_class(
            classes,
            cp,
            e,
        ),
    decreases n,
{
    if n > 0 {
        lemma_resolved_handlers_missing(classes, cp, table, n - 1);
    }
}

proof fn lemma_linked_methods_missing(
    classes: Seq<ClassView>,
    cp: Seq<Type>,
    methods: Seq<MethodInfo>,
    n: int,
)
    ensures
        linked_methods(classes, cp, methods, n) matches Err(e) ==> names_missing_class(
            classes,
            cp,
            e,
        ),
    decreases n,
{
    if n > 0 {
        lemma_linked_methods_missing(classes, cp, methods, n - 1);
        match code_of(&methods[n - 1]) {
            Some(code) => {
                lemma_resolved_handlers_missing(
                    classes,
                    cp,
                    code.exceptions@,
                    code.exceptions@.len() as int,
                );
            },
            None => {},
        }
    }
}

/// A class file that cannot be linked for want of a class lacks a class
/// that its constant pool names and that is not loaded.
pub proof fn lemma_missing_class_is_not_loaded(classes: Seq<ClassView>, cf: &ClassFile)
    ensures
        linked_class_file(classes, cf) matches Err(e) ==> names_missing_class(classes, cf.cp@, e),
{
    lemma_named_classes_missing(classes, cf.cp@, cf.interfaces@, cf.interfaces@.len() as int);
    lemma_linked_methods_missing(classes, cf.cp@, cf.methods@, cf.methods@.len() as int);
}

/// A step of loading asks only for a class that is not loaded, that is
/// not the class itself and that does not wait for it; and it fails only
/// where loading has another reason to fail than a class that is missing.
pub proof fn lemma_load_step_asks_for_a_missing_class(
    classes: Seq<ClassView>,
    cf: &ClassFile,
    pending: Seq<Vec<u8>>,
)
    ensures
        match load_step(classes, cf, pending).0 {
            LoadStepView::Needs(name) => {
                &&& first_class(classes, name, 0) is None
                &&& !is_pending(pending, name)
                &&& class_name_at(cf.cp@, cf.this_class as int) != Some(name)
                &&& load_step(classes, cf, pending).1 == classes
            },
            LoadStepView::Failed(e) => {
                &&& e != LoadError::Malformed
                &&& !(e matches LoadError::Link(LinkError::MissingClass(_)))
                &&& load_step(classes, cf, pending).1 == classes
            },
            LoadStepView::Circular => load_step(classes, cf, pending).1 == classes,
            LoadStepView::Misnamed => false,
            LoadStepView::Loaded(id) => class_name_at(cf.cp@, cf.this_class as int) matches Some(
                name,
            ) && first_class(load_step(classes, cf, pending).1, name, 0) == Some(id),
        },
{
    lemma_missing_class_is_not_loaded(classes, cf);
    match class_name_at(cf.cp@, cf.this_class as int) {
        Some(name) => {
            if first_class(classes, name, 0) is None {
                match linked_class_file(classes, cf) {
                    Ok(class) => {
                        lemma_first_class_of_new(classes, class, name, 0);
                    },
                    Err(_) => {},
                }
            }
        },
        None => {},
    }
}

/// A class that is added under a name that no loaded class bears is then
/// the first class of that name.
proof fn lemma_first_class_of_new(
    classes: Seq<ClassView>,
    class: ClassView,
    name: Seq<u8>,
    from: int,
)
    requires
        0 <= from <= classes.len(),
        first_class(classes, name, from) is None,
        class.name == name,
    ensures
        first_class(classes.push(class), name, from) == Some(
            ClassId { index: classes.len() as usize },
        ),
    decreases classes.len() - from,
{
    if from < classes.len() {
        lemma_first_class_of_new(classes, class, name, from + 1);
    }
}

/// Whether `name` is among the names `pending`.
fn find_pending(pending: &Vec<Vec<u8>>, name: &[u8]) -> (r: bool)
    ensures
        r == is_pending(pending@, name@),
{
    let mut i: usize = 0;
    while i < pending.len()
        invariant
            i <= pending.len(),
            forall|k: int| 0 <= k < i ==> (#[trigger] pending@[k])@ != name@,
        decreases pending.len() - i,
    {
        if bytes_eq(pending[i].as_slice(), name) {
            return true;
        }
        i = i + 1;
    }
    false
}

/// One step of loading the class of the class file `cf`; see
/// [`load_step`].
pub fn load_class_file_step(vm: &mut Vm, cf: &ClassFile, pending: &Vec<Vec<u8>>) -> (step:
    LoadStep)
    requires
        old(vm).wf(),
    ensures
        final(vm).wf(),
        step matches LoadStep::Loaded(id) ==> final(vm).classes.contains(id),
        step@ == load_step(old(vm)@.classes, cf, pending@).0,
        final(vm)@ == (VmView {
            classes: load_step(old(vm)@.classes, cf, pending@).1,
            ..old(vm)@
        }),
{
    match load_class_file(vm, cf) {
        Ok(id) => LoadStep::Loaded(id),
        Err(LoadError::Link(LinkError::MissingClass(index))) => {
            match get_class_name(&cf.cp, index as usize) {
                None => LoadStep::Failed(LoadError::Link(LinkError::BadConstant)),
                Some(name) => {
                    let own = match get_class_name(&cf.cp, cf.this_class as usize) {
                        Some(own) => bytes_eq(own.as_slice(), name.as_slice()),
                        None => false,
                    };
                    if own || find_pending(pending, name.as_slice()) {
                        LoadStep::Circular
                    } else {
                        LoadStep::Needs(bytes_to_vec(name.as_slice()))
                    }
                },
            }
        },
        Err(e) => LoadStep::Failed(e),
    }
}

/// One step of loading the class `name` from the class file `cf`, where
/// the classes named `pending` wait for it, and the classes after the
/// step. A class file of a class of another name is refused; any other is
/// taken one step on, as [`load_step`] says.
pub open spec fn named_load_step(
    classes: Seq<ClassView>,
    name: Seq<u8>,
    cf: &ClassFile,
    pending: Seq<Vec<u8>>,
) -> (LoadStepView, Seq<ClassView>) {
    match class_name_at(cf.cp@, cf.this_class as int) {
        Some(own) => if own == name {
            load_step(classes, cf, pending)
        } else {
            (LoadStepView::Misnamed, classes)
        },
        None => load_step(classes, cf, pending),
    }
}

/// One step of loading the class `name` from the bytes `s` of its class
/// file, where the classes named `pending` wait for it: the bytes are
/// parsed, and the class file is taken one step on; see
/// [`named_load_step`].
pub fn load_class_step(vm: &mut Vm, name: &[u8], s: &[u8], pending: &Vec<Vec<u8>>) -> (step:
    LoadStep)
    requires
        old(vm).wf(),
    ensures
        final(vm).wf(),
        step matches LoadStep::Loaded(id) ==> final(vm).classes.contains(id) && first_class(
            final(vm)@.classes,
            name@,
            0,
        ) == Some(id),
        parsed_class(s@) is None ==> step@ == LoadStepView::Failed(LoadError::Malformed)
            && final(vm)@ == old(vm)@,
        parsed_class(s@) is Some ==> exists|cf: ClassFile|
            #![trigger cf@]
            parsed_class(s@) == Some(cf@) && step@ == named_load_step(
                old(vm)@.classes,
                name@,
                &cf,
                pending@,
            ).0 && final(vm)@ == (VmView {
                classes: named_load_step(old(vm)@.classes, name@, &cf, pending@).1,
                ..old(vm)@
            }),
{
    match parse_class(s) {
        Some(cf) => {
            let named = match get_class_name(&cf.cp, cf.this_class as usize) {
                Some(own) => bytes_eq(own.as_slice(), name),
                None => true,
            };
            let step = if named {
                proof {
                    lemma_load_step_asks_for_a_missing_class(old(vm)@.classes, &cf, pending@);
                }
                load_class_file_step(vm, &cf, pending)
            } else {
                LoadStep::Misnamed
            };
            assert(parsed_class(s@) == Some(cf@));
            step
        },
        None => LoadStep::Failed(LoadError::Malformed),
    }
}

/// What a thread that requires a class by its name does next.
#[derive(Clone, Copy, PartialEq, Eq, Debug)]
pub enum RequireStep {
    /// The class is loaded, and initialized for the thread: go on with it.
    Ready(ClassId),
    /// No class of the name is loaded: read its class file, have it
    /// loaded, and ask again.
    Load,
    /// Run the initializer of the class, report how it ended, and ask
    /// again.
    Initialize(ClassId),
    /// Wait until another thread has initialized the class, and ask again.
    Wait(ClassId),
    /// Raise this exception: the class has failed to initialize.
    Fail(Exception),
}

/// One step of requiring the class `name` for the thread `thread`, and
/// the machine after it. A class that is not loaded is to be loaded. A
/// class that is loaded is asked for initialized: the first thread that
/// asks is told to run the initializer, and the class remembers it; a
/// thread that asks while another runs the initializer is told to wait;
/// after an initializer that has failed every thread is told to raise
/// `NoClassDefFoundError`.
pub open spec fn require_step(vm: VmView, name: Seq<u8>, thread: u64) -> (VmView, RequireStep) {
    match first_class(vm.classes, name, 0) {
        None => (vm, RequireStep::Load),
        Some(c) => {
            let request = init_request(vm.classes[c.index as int].state, thread);
            match request.1 {
                InitAction::Run => (
                    VmView {
                        classes: vm.classes.update(
                            c.index as int,
                            with_state(vm.classes[c.index as int], request.0),
                        ),
                        ..vm
                    },
                    RequireStep::Initialize(c),
                ),
                InitAction::Wait => (vm, RequireStep::Wait(c)),
                InitAction::Fail => (vm, RequireStep::Fail(Exception::NoClassDefFoundError)),
                InitAction::Proceed => (vm, RequireStep::Ready(c)),
            }
        },
    }
}

/// One step of requiring the class `name` for the thread `thread`; see
/// [`require_step`].
pub fn require_class_step(vm: &mut Vm, name: &[u8], thread: u64) -> (step: RequireStep)
    requires
        old(vm).wf(),
    ensures
        final(vm).wf(),
        (final(vm)@, step) == require_step(old(vm)@, name@, thread),
        match step {
            RequireStep::Ready(c) | RequireStep::Initialize(c) | RequireStep::Wait(c) => c.index
                < old(vm)@.classes.len(),
            _ => true,
        },
{
    let c = match vm.classes.find_class(name) {
        Some(c) => c,
        None => {
            return RequireStep::Load;
        },
    };
    let action = vm.request_initialization(c, thread);
    proof {
        let before = old(vm)@.classes;
        let state = before[c.index as int].state;
        if init_request(state, thread).1 != InitAction::Run {
            assert(before.update(c.index as int, with_state(before[c.index as int], state))
                =~= before);
        }
    }
    match action {
        InitAction::Run => RequireStep::Initialize(c),
        InitAction::Wait => RequireStep::Wait(c),
        InitAction::Fail => RequireStep::Fail(Exception::NoClassDefFoundError),
        InitAction::Proceed => RequireStep::Ready(c),
    }
}

} // verus!
