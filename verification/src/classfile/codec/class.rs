//! The class file as bytes.
//!
//! A class file is the magic number, the version, the constant pool, the
//! flags, the class and its superclass, the interfaces, the fields, the
//! methods and the attributes of the class, and nothing after them.

use vstd::prelude::*;
use crate::classfile::codec::bytes::{
    be16, be32, holds_at, lemma_holds_at_concat, lemma_holds_itself, lemma_parsed_bytes,
    lemma_parsed_u16, lemma_parsed_u32, parsed_u16, parsed_u32, read_bytes, read_u16, read_u32,
    write_bytes, write_u16, write_u32,
};
use crate::classfile::codec::constant_pool::{
    lemma_parsed_pool_fits, lemma_pool_round_trip, parse_pool, parsed_pool, pool_bytes,
    pool_fits, pool_is_sound, serialize_pool,
};
use crate::classfile::codec::framed::{
    framed, lemma_parsed_head, parsed_head, read_head, write_framed,
};
use crate::classfile::codec::list::{
    counted_bytes, counted_fits, each_fits, lemma_counted_round_trip, lemma_parsed_counted_fits,
    parsed_counted, read_counted, values, write_counted, Checked, Element,
};
use crate::classfile::codec::method::{lemma_values_of_indices, MethodInfoView};
use crate::classfile::constant_pool::{pool_view, ConstantPool, TypeView};
use crate::classfile::{ClassFile, FieldInfo, MethodInfo, RawAttribute};

verus! {

/// The number that every class file begins with.
pub const MAGIC: u32 = 0xCAFE_BABE;

/// The mathematical value of an attribute that is kept as bytes.
pub struct RawAttributeView {
    pub name_index: u16,
    pub info: Seq<u8>,
}

impl View for RawAttribute {
    type V = RawAttributeView;

    open spec fn view(&self) -> RawAttributeView {
        RawAttributeView { name_index: self.name_index, info: self.info@ }
    }
}

impl Element for RawAttribute {
    type V = RawAttributeView;

    open spec fn value(&self) -> RawAttributeView {
        self@
    }

    open spec fn fits(cp: Seq<TypeView>, v: RawAttributeView) -> bool {
        v.info.len() <= 0xffff_ffff
    }

    open spec fn bytes(v: RawAttributeView) -> Seq<u8> {
        framed(v.name_index, v.info)
    }

    open spec fn parsed(cp: Seq<TypeView>, s: Seq<u8>, at: int) -> Option<(RawAttributeView, int)> {
        match parsed_head(s, at) {
            Some((name_index, start, end)) => Some(
                (RawAttributeView { name_index, info: s.subrange(start, end) }, end),
            ),
            None => None,
        }
    }

    proof fn lemma_parsed_fits(cp: Seq<TypeView>, s: Seq<u8>, at: int) {
    }

    proof fn lemma_round_trip(cp: Seq<TypeView>, s: Seq<u8>, at: int, v: RawAttributeView) {
        lemma_parsed_head(s, at, v.name_index, v.info);
        lemma_parsed_bytes(s, at + 6, v.info);
    }

    fn read(cp: &ConstantPool, s: &[u8], at: usize) -> (r: Option<(RawAttribute, usize)>) {
        let (name_index, start, end) = match read_head(s, at) {
            Some(r) => r,
            None => {
                return None;
            },
        };
        match read_bytes(s, start, end - start) {
            Some((info, next)) => Some((RawAttribute { name_index, info }, end)),
            None => None,
        }
    }

    fn write(&self, out: &mut Vec<u8>) {
        write_framed(out, self.name_index, &self.info);
    }
}

impl Checked for RawAttribute {
    fn is_sound(&self, cp: &ConstantPool) -> (r: bool) {
        self.info.len() <= 0xffff_ffff
    }
}

/// The mathematical value of a field.
pub struct FieldInfoView {
    pub acc_flags: u16,
    pub name_index: u16,
    pub desc_index: u16,
    pub attrs: Seq<RawAttributeView>,
}

impl View for FieldInfo {
    type V = FieldInfoView;

    open spec fn view(&self) -> FieldInfoView {
        FieldInfoView {
            acc_flags: self.acc_flags,
            name_index: self.name_index,
            desc_index: self.desc_index,
            attrs: values::<RawAttribute>(self.attrs@),
        }
    }
}

impl Element for FieldInfo {
    type V = FieldInfoView;

    open spec fn value(&self) -> FieldInfoView {
        self@
    }

    open spec fn fits(cp: Seq<TypeView>, v: FieldInfoView) -> bool {
        counted_fits::<RawAttribute>(cp, v.attrs)
    }

    open spec fn bytes(v: FieldInfoView) -> Seq<u8> {
        be16(v.acc_flags) + be16(v.name_index) + be16(v.desc_index) + counted_bytes::<
            RawAttribute,
        >(v.attrs)
    }

    open spec fn parsed(cp: Seq<TypeView>, s: Seq<u8>, at: int) -> Option<(FieldInfoView, int)> {
        let acc_flags = parsed_u16(s, at);
        let name_index = parsed_u16(s, at + 2);
        let desc_index = parsed_u16(s, at + 4);
        if acc_flags is None || name_index is None || desc_index is None {
            None
        } else {
            let attrs = parsed_counted::<RawAttribute>(cp, s, at + 6);
            if attrs is None {
                None
            } else {
                Some(
                    (
                        FieldInfoView {
                            acc_flags: acc_flags->Some_0.0,
                            name_index: name_index->Some_0.0,
                            desc_index: desc_index->Some_0.0,
                            attrs: attrs->Some_0.0,
                        },
                        attrs->Some_0.1,
                    ),
                )
            }
        }
    }

    proof fn lemma_parsed_fits(cp: Seq<TypeView>, s: Seq<u8>, at: int) {
        lemma_parsed_counted_fits::<RawAttribute>(cp, s, at + 6);
    }

    proof fn lemma_round_trip(cp: Seq<TypeView>, s: Seq<u8>, at: int, v: FieldInfoView) {
        let a = be16(v.acc_flags);
        let b = be16(v.name_index);
        let c = be16(v.desc_index);
        let t = counted_bytes::<RawAttribute>(v.attrs);
        lemma_holds_at_concat(s, at, a + b + c, t);
        lemma_holds_at_concat(s, at, a + b, c);
        lemma_holds_at_concat(s, at, a, b);
        lemma_parsed_u16(s, at, v.acc_flags);
        lemma_parsed_u16(s, at + 2, v.name_index);
        lemma_parsed_u16(s, at + 4, v.desc_index);
        lemma_counted_round_trip::<RawAttribute>(cp, s, at + 6, v.attrs);
    }

    fn read(cp: &ConstantPool, s: &[u8], at: usize) -> (r: Option<(FieldInfo, usize)>) {
        let (acc_flags, p) = match read_u16(s, at) {
            Some(r) => r,
            None => {
                return None;
            },
        };
        let (name_index, p) = match read_u16(s, p) {
            Some(r) => r,
            None => {
                return None;
            },
        };
        let (desc_index, p) = match read_u16(s, p) {
            Some(r) => r,
            None => {
                return None;
            },
        };
        match read_counted::<RawAttribute>(cp, s, p) {
            Some((attrs, next)) => Some(
                (FieldInfo { acc_flags, name_index, desc_index, attrs }, next),
            ),
            None => None,
        }
    }

    fn write(&self, out: &mut Vec<u8>) {
        write_u16(out, self.acc_flags);
        write_u16(out, self.name_index);
        write_u16(out, self.desc_index);
        write_counted::<RawAttribute>(out, &self.attrs);
        assert(out@ =~= old(out)@ + Self::bytes(self@));
    }
}

impl Checked for FieldInfo {
    fn is_sound(&self, cp: &ConstantPool) -> (r: bool) {
        self.attrs.len() <= 0xffff && each_fits::<RawAttribute>(cp, &self.attrs)
    }
}

/// The mathematical value of a class file.
pub struct ClassFileView {
    pub minor_version: u16,
    pub major_version: u16,
    pub cp: Seq<TypeView>,
    pub acc_flags: u16,
    pub this_class: u16,
    pub super_class: u16,
    pub interfaces: Seq<u16>,
    pub fields: Seq<FieldInfoView>,
    pub methods: Seq<MethodInfoView>,
    pub attrs: Seq<RawAttributeView>,
}

impl View for ClassFile {
    type V = ClassFileView;

    open spec fn view(&self) -> ClassFileView {
        ClassFileView {
            minor_version: self.minor_version,
            major_version: self.major_version,
            cp: pool_view(self.cp@),
            acc_flags: self.acc_flags,
            this_class: self.this_class,
            super_class: self.super_class,
            interfaces: self.interfaces@,
            fields: values::<FieldInfo>(self.fields@),
            methods: values::<MethodInfo>(self.methods@),
            attrs: values::<RawAttribute>(self.attrs@),
        }
    }
}

/// Whether a class file can be written as bytes: its constant pool, its
/// interfaces, its fields, its methods and its attributes can stand in a
/// class file.
pub open spec fn class_fits(c: ClassFileView) -> bool {
    &&& pool_fits(c.cp)
    &&& counted_fits::<u16>(c.cp, c.interfaces)
    &&& counted_fits::<FieldInfo>(c.cp, c.fields)
    &&& counted_fits::<MethodInfo>(c.cp, c.methods)
    &&& counted_fits::<RawAttribute>(c.cp, c.attrs)
}

/// The bytes of the interfaces, the fields, the methods and the
/// attributes of a class file, each list with its length.
pub open spec fn members_bytes(c: ClassFileView) -> Seq<u8> {
    counted_bytes::<u16>(c.interfaces) + counted_bytes::<FieldInfo>(c.fields) + counted_bytes::<
        MethodInfo,
    >(c.methods) + counted_bytes::<RawAttribute>(c.attrs)
}

/// The bytes of the flags, the class and the superclass of a class file.
pub open spec fn names_bytes(c: ClassFileView) -> Seq<u8> {
    be16(c.acc_flags) + be16(c.this_class) + be16(c.super_class)
}

/// The bytes of the magic number, the version and the constant pool of a
/// class file.
pub open spec fn head_bytes(c: ClassFileView) -> Seq<u8> {
    be32(MAGIC) + be16(c.minor_version) + be16(c.major_version) + pool_bytes(c.cp)
}

/// The bytes of a class file.
pub open spec fn class_bytes(c: ClassFileView) -> Seq<u8> {
    head_bytes(c) + names_bytes(c) + members_bytes(c)
}

/// The interfaces, the fields, the methods and the attributes that stand
/// in `s` from `at` on, and the place after them.
pub open spec fn parsed_members(cp: Seq<TypeView>, s: Seq<u8>, at: int) -> Option<
    (Seq<u16>, Seq<FieldInfoView>, Seq<MethodInfoView>, Seq<RawAttributeView>, int),
> {
    let interfaces = parsed_counted::<u16>(cp, s, at);
    if interfaces is None {
        None
    } else {
        let fields = parsed_counted::<FieldInfo>(cp, s, interfaces->Some_0.1);
        if fields is None {
            None
        } else {
            let methods = parsed_counted::<MethodInfo>(cp, s, fields->Some_0.1);
            if methods is None {
                None
            } else {
                let attrs = parsed_counted::<RawAttribute>(cp, s, methods->Some_0.1);
                if attrs is None {
                    None
                } else {
                    Some(
                        (
                            interfaces->Some_0.0,
                            fields->Some_0.0,
                            methods->Some_0.0,
                            attrs->Some_0.0,
                            attrs->Some_0.1,
                        ),
                    )
                }
            }
        }
    }
}

/// The class file that the bytes `s` are, if they are one.
pub open spec fn parsed_class(s: Seq<u8>) -> Option<ClassFileView> {
    let magic = parsed_u32(s, 0);
    let minor = parsed_u16(s, 4);
    let major = parsed_u16(s, 6);
    let pool = parsed_pool(s, 8);
    if magic is None || magic->Some_0.0 != MAGIC || minor is None || major is None || pool
        is None {
        None
    } else {
        let cp = pool->Some_0.0;
        let p = pool->Some_0.1;
        let acc_flags = parsed_u16(s, p);
        let this_class = parsed_u16(s, p + 2);
        let super_class = parsed_u16(s, p + 4);
        let members = parsed_members(cp, s, p + 6);
        if acc_flags is None || this_class is None || super_class is None || members is None
            || members->Some_0.4 != s.len() {
            None
        } else {
            Some(
                ClassFileView {
                    minor_version: minor->Some_0.0,
                    major_version: major->Some_0.0,
                    cp,
                    acc_flags: acc_flags->Some_0.0,
                    this_class: this_class->Some_0.0,
                    super_class: super_class->Some_0.0,
                    interfaces: members->Some_0.0,
                    fields: members->Some_0.1,
                    methods: members->Some_0.2,
                    attrs: members->Some_0.3,
                },
            )
        }
    }
}

/// A class file that is parsed can be written as bytes.
pub proof fn lemma_parsed_class_fits(s: Seq<u8>)
    requires
        parsed_class(s) is Some,
    ensures
        class_fits(parsed_class(s)->Some_0),
{
    lemma_parsed_pool_fits(s, 8);
    let pool = parsed_pool(s, 8)->Some_0;
    let cp = pool.0;
    let p = pool.1;
    lemma_pool_ends_after(s, 8);
    lemma_parsed_counted_fits::<u16>(cp, s, p + 6);
    let interfaces = parsed_counted::<u16>(cp, s, p + 6)->Some_0;
    lemma_parsed_counted_fits::<FieldInfo>(cp, s, interfaces.1);
    let fields = parsed_counted::<FieldInfo>(cp, s, interfaces.1)->Some_0;
    lemma_parsed_counted_fits::<MethodInfo>(cp, s, fields.1);
    let methods = parsed_counted::<MethodInfo>(cp, s, fields.1)->Some_0;
    lemma_parsed_counted_fits::<RawAttribute>(cp, s, methods.1);
}

/// A pool that is parsed ends after where it begins.
proof fn lemma_pool_ends_after(s: Seq<u8>, at: int)
    requires
        0 <= at,
        parsed_pool(s, at) is Some,
    ensures
        at <= parsed_pool(s, at)->Some_0.1,
{
    let count = parsed_u16(s, at)->Some_0.0 as int;
    lemma_entries_end_after(s, at + 2, 1, count);
}

/// Entries that are parsed end after where they begin.
proof fn lemma_entries_end_after(s: Seq<u8>, at: int, i: int, count: int)
    requires
        0 <= at,
        crate::classfile::codec::constant_pool::parsed_entries(s, at, i, count) is Some,
    ensures
        at <= crate::classfile::codec::constant_pool::parsed_entries(s, at, i, count)->Some_0.1,
    decreases count - i,
{
    if i < count {
        crate::classfile::codec::constant_pool::lemma_parsed_entry_fits(s, at);
        let first = crate::classfile::codec::constant_pool::parsed_entry(s, at)->Some_0;
        if crate::classfile::codec::constant_pool::is_double_width(first.0) {
            lemma_entries_end_after(s, first.1, i + 2, count);
        } else {
            lemma_entries_end_after(s, first.1, i + 1, count);
        }
    }
}

/// Where a sequence holds the bytes of the members of a class file that
/// can be written as bytes, those members are parsed from it.
proof fn lemma_members_round_trip(s: Seq<u8>, at: int, c: ClassFileView)
    requires
        class_fits(c),
        holds_at(s, at, members_bytes(c)),
    ensures
        parsed_members(c.cp, s, at) == Some(
            (c.interfaces, c.fields, c.methods, c.attrs, at + members_bytes(c).len()),
        ),
{
    let b7 = counted_bytes::<u16>(c.interfaces);
    let b8 = counted_bytes::<FieldInfo>(c.fields);
    let b9 = counted_bytes::<MethodInfo>(c.methods);
    let b10 = counted_bytes::<RawAttribute>(c.attrs);
    lemma_holds_at_concat(s, at, b7 + b8 + b9, b10);
    lemma_holds_at_concat(s, at, b7 + b8, b9);
    lemma_holds_at_concat(s, at, b7, b8);
    lemma_counted_round_trip::<u16>(c.cp, s, at, c.interfaces);
    lemma_counted_round_trip::<FieldInfo>(c.cp, s, at + b7.len(), c.fields);
    lemma_counted_round_trip::<MethodInfo>(c.cp, s, at + b7.len() + b8.len(), c.methods);
    lemma_counted_round_trip::<RawAttribute>(
        c.cp,
        s,
        at + b7.len() + b8.len() + b9.len(),
        c.attrs,
    );
}

/// Where a sequence holds the bytes of the head of a class file whose
/// constant pool can stand in a class file, the magic number, the version
/// and the pool are parsed from it.
proof fn lemma_head_round_trip(s: Seq<u8>, c: ClassFileView)
    requires
        pool_fits(c.cp),
        holds_at(s, 0, head_bytes(c)),
    ensures
        parsed_u32(s, 0) == Some((MAGIC, 4int)),
        parsed_u16(s, 4) == Some((c.minor_version, 6int)),
        parsed_u16(s, 6) == Some((c.major_version, 8int)),
        parsed_pool(s, 8) == Some((c.cp, head_bytes(c).len() as int)),
{
    let b0 = be32(MAGIC);
    let b1 = be16(c.minor_version);
    let b2 = be16(c.major_version);
    let b3 = pool_bytes(c.cp);
    lemma_holds_at_concat(s, 0, b0 + b1 + b2, b3);
    lemma_holds_at_concat(s, 0, b0 + b1, b2);
    lemma_holds_at_concat(s, 0, b0, b1);
    lemma_parsed_u32(s, 0, MAGIC);
    lemma_parsed_u16(s, 4, c.minor_version);
    lemma_parsed_u16(s, 6, c.major_version);
    lemma_pool_round_trip(s, 8, c.cp);
}

/// Where a sequence holds the bytes of the flags, the class and the
/// superclass of a class file, they are parsed from it.
proof fn lemma_names_round_trip(s: Seq<u8>, at: int, c: ClassFileView)
    requires
        holds_at(s, at, names_bytes(c)),
    ensures
        parsed_u16(s, at) == Some((c.acc_flags, at + 2)),
        parsed_u16(s, at + 2) == Some((c.this_class, at + 4)),
        parsed_u16(s, at + 4) == Some((c.super_class, at + 6)),
        names_bytes(c).len() == 6,
{
    lemma_holds_at_concat(s, at, be16(c.acc_flags) + be16(c.this_class), be16(c.super_class));
    lemma_holds_at_concat(s, at, be16(c.acc_flags), be16(c.this_class));
    lemma_parsed_u16(s, at, c.acc_flags);
    lemma_parsed_u16(s, at + 2, c.this_class);
    lemma_parsed_u16(s, at + 4, c.super_class);
}

/// The bytes of a class file that can be written as bytes are parsed as
/// that class file.
pub proof fn lemma_class_round_trip(c: ClassFileView)
    requires
        class_fits(c),
    ensures
        parsed_class(class_bytes(c)) == Some(c),
{
    let s = class_bytes(c);
    lemma_holds_itself(s);
    lemma_holds_at_concat(s, 0, head_bytes(c) + names_bytes(c), members_bytes(c));
    lemma_holds_at_concat(s, 0, head_bytes(c), names_bytes(c));
    lemma_head_round_trip(s, c);
    let p: int = head_bytes(c).len() as int;
    lemma_names_round_trip(s, p, c);
    lemma_members_round_trip(s, p + 6, c);
}

/// A class file that is parsed from bytes, written as bytes and parsed
/// again is the same class file: its constant pool, its methods with their
/// attributes, and everything else in it.
pub proof fn lemma_class_parse_serialize_parse(s: Seq<u8>)
    requires
        parsed_class(s) is Some,
    ensures
        parsed_class(class_bytes(parsed_class(s)->Some_0)) == parsed_class(s),
{
    lemma_parsed_class_fits(s);
    lemma_class_round_trip(parsed_class(s)->Some_0);
}

/// The class file that the bytes `s` are, if they are one.
pub fn parse_class(s: &[u8]) -> (r: Option<ClassFile>)
    ensures
        match r {
            Some(c) => parsed_class(s@) == Some(c@),
            None => parsed_class(s@) is None,
        },
{
    let (magic, p) = match read_u32(s, 0) {
        Some(r) => r,
        None => {
            return None;
        },
    };
    if magic != MAGIC {
        return None;
    }
    let (minor_version, p) = match read_u16(s, p) {
        Some(r) => r,
        None => {
            return None;
        },
    };
    let (major_version, p) = match read_u16(s, p) {
        Some(r) => r,
        None => {
            return None;
        },
    };
    let (cp, p) = match parse_pool(s, p) {
        Some(r) => r,
        None => {
            return None;
        },
    };
    let (acc_flags, p) = match read_u16(s, p) {
        Some(r) => r,
        None => {
            return None;
        },
    };
    let (this_class, p) = match read_u16(s, p) {
        Some(r) => r,
        None => {
            return None;
        },
    };
    let (super_class, p) = match read_u16(s, p) {
        Some(r) => r,
        None => {
            return None;
        },
    };
    let (interfaces, p) = match read_counted::<u16>(&cp, s, p) {
        Some(r) => r,
        None => {
            return None;
        },
    };
    let (fields, p) = match read_counted::<FieldInfo>(&cp, s, p) {
        Some(r) => r,
        None => {
            return None;
        },
    };
    let (methods, p) = match read_counted::<MethodInfo>(&cp, s, p) {
        Some(r) => r,
        None => {
            return None;
        },
    };
    let (attrs, p) = match read_counted::<RawAttribute>(&cp, s, p) {
        Some(r) => r,
        None => {
            return None;
        },
    };
    if p != s.len() {
        return None;
    }
    proof {
        lemma_values_of_indices(interfaces@);
    }
    Some(
        ClassFile {
            minor_version,
            major_version,
            cp,
            acc_flags,
            this_class,
            super_class,
            interfaces,
            fields,
            methods,
            attrs,
        },
    )
}

/// Whether a class file can be written as bytes.
pub fn class_is_sound(c: &ClassFile) -> (r: bool)
    ensures
        r == class_fits(c@),
{
    proof {
        lemma_values_of_indices(c.interfaces@);
    }
    pool_is_sound(&c.cp) && c.interfaces.len() <= 0xffff && each_fits::<u16>(
        &c.cp,
        &c.interfaces,
    ) && c.fields.len() <= 0xffff && each_fits::<FieldInfo>(&c.cp, &c.fields) && c.methods.len()
        <= 0xffff && each_fits::<MethodInfo>(&c.cp, &c.methods) && c.attrs.len() <= 0xffff
        && each_fits::<RawAttribute>(&c.cp, &c.attrs)
}

/// The bytes of a class file, if it can be written as bytes.
pub fn serialize_class(c: &ClassFile) -> (r: Option<Vec<u8>>)
    ensures
        match r {
            Some(bytes) => class_fits(c@) && bytes@ == class_bytes(c@),
            None => !class_fits(c@),
        },
{
    if !class_is_sound(c) {
        return None;
    }
    let pool = match serialize_pool(&c.cp) {
        Some(pool) => pool,
        None => {
            return None;
        },
    };
    let mut out: Vec<u8> = Vec::new();
    write_u32(&mut out, MAGIC);
    write_u16(&mut out, c.minor_version);
    write_u16(&mut out, c.major_version);
    write_bytes(&mut out, pool.as_slice());
    write_u16(&mut out, c.acc_flags);
    write_u16(&mut out, c.this_class);
    write_u16(&mut out, c.super_class);
    write_counted::<u16>(&mut out, &c.interfaces);
    write_counted::<FieldInfo>(&mut out, &c.fields);
    write_counted::<MethodInfo>(&mut out, &c.methods);
    write_counted::<RawAttribute>(&mut out, &c.attrs);
    proof {
        lemma_values_of_indices(c.interfaces@);
    }
    assert(out@ =~= class_bytes(c@));
    Some(out)
}

} // verus!
