//! The attributes of a method as bytes.

use vstd::prelude::*;
use crate::classfile::attributes::{CodeException, LineNumber, LocalVariable, VerificationTypeInfo};
use crate::classfile::codec::bytes::{
    be16, holds_at, lemma_holds_at_concat, lemma_parsed_u16, lemma_parsed_u8, parsed_u16,
    parsed_u8, read_u16, read_u8, write_u16,
};
use crate::classfile::codec::list::{Checked, Element};
use crate::classfile::constant_pool::{pool_view, ConstantPool, TypeView};

verus! {

impl Element for u16 {
    type V = u16;

    open spec fn value(&self) -> u16 {
        *self
    }

    open spec fn fits(cp: Seq<TypeView>, v: u16) -> bool {
        true
    }

    open spec fn bytes(v: u16) -> Seq<u8> {
        be16(v)
    }

    open spec fn parsed(cp: Seq<TypeView>, s: Seq<u8>, at: int) -> Option<(u16, int)> {
        parsed_u16(s, at)
    }

    proof fn lemma_parsed_fits(cp: Seq<TypeView>, s: Seq<u8>, at: int) {
    }

    proof fn lemma_round_trip(cp: Seq<TypeView>, s: Seq<u8>, at: int, v: u16) {
        lemma_parsed_u16(s, at, v);
    }

    fn read(cp: &ConstantPool, s: &[u8], at: usize) -> (r: Option<(u16, usize)>) {
        read_u16(s, at)
    }

    fn write(&self, out: &mut Vec<u8>) {
        write_u16(out, *self);
    }
}

impl Checked for u16 {
    fn is_sound(&self, cp: &ConstantPool) -> (r: bool) {
        true
    }
}

impl Element for LineNumber {
    type V = LineNumber;

    open spec fn value(&self) -> LineNumber {
        *self
    }

    open spec fn fits(cp: Seq<TypeView>, v: LineNumber) -> bool {
        true
    }

    open spec fn bytes(v: LineNumber) -> Seq<u8> {
        be16(v.start_pc) + be16(v.number)
    }

    open spec fn parsed(cp: Seq<TypeView>, s: Seq<u8>, at: int) -> Option<(LineNumber, int)> {
        let a = parsed_u16(s, at);
        let b = parsed_u16(s, at + 2);
        if a is None || b is None {
            None
        } else {
            Some((LineNumber { start_pc: a->Some_0.0, number: b->Some_0.0 }, at + 4))
        }
    }

    proof fn lemma_parsed_fits(cp: Seq<TypeView>, s: Seq<u8>, at: int) {
    }

    proof fn lemma_round_trip(cp: Seq<TypeView>, s: Seq<u8>, at: int, v: LineNumber) {
        lemma_holds_at_concat(s, at, be16(v.start_pc), be16(v.number));
        lemma_parsed_u16(s, at, v.start_pc);
        lemma_parsed_u16(s, at + 2, v.number);
    }

    fn read(cp: &ConstantPool, s: &[u8], at: usize) -> (r: Option<(LineNumber, usize)>) {
        let (start_pc, p) = match read_u16(s, at) {
            Some(r) => r,
            None => {
                return None;
            },
        };
        match read_u16(s, p) {
            Some((number, next)) => Some((LineNumber { start_pc, number }, next)),
            None => None,
        }
    }

    fn write(&self, out: &mut Vec<u8>) {
        write_u16(out, self.start_pc);
        write_u16(out, self.number);
        assert(out@ =~= old(out)@ + (be16(self.start_pc) + be16(self.number)));
    }
}

impl Checked for LineNumber {
    fn is_sound(&self, cp: &ConstantPool) -> (r: bool) {
        true
    }
}

impl Element for CodeException {
    type V = CodeException;

    open spec fn value(&self) -> CodeException {
        *self
    }

    open spec fn fits(cp: Seq<TypeView>, v: CodeException) -> bool {
        true
    }

    open spec fn bytes(v: CodeException) -> Seq<u8> {
        be16(v.start_pc) + be16(v.end_pc) + be16(v.handler_pc) + be16(v.catch_type)
    }

    open spec fn parsed(cp: Seq<TypeView>, s: Seq<u8>, at: int) -> Option<(CodeException, int)> {
        let a = parsed_u16(s, at);
        let b = parsed_u16(s, at + 2);
        let c = parsed_u16(s, at + 4);
        let d = parsed_u16(s, at + 6);
        if a is None || b is None || c is None || d is None {
            None
        } else {
            Some(
                (
                    CodeException {
                        start_pc: a->Some_0.0,
                        end_pc: b->Some_0.0,
                        handler_pc: c->Some_0.0,
                        catch_type: d->Some_0.0,
                    },
                    at + 8,
                ),
            )
        }
    }

    proof fn lemma_parsed_fits(cp: Seq<TypeView>, s: Seq<u8>, at: int) {
    }

    proof fn lemma_round_trip(cp: Seq<TypeView>, s: Seq<u8>, at: int, v: CodeException) {
        lemma_holds_at_concat(
            s,
            at,
            be16(v.start_pc) + be16(v.end_pc) + be16(v.handler_pc),
            be16(v.catch_type),
        );
        lemma_holds_at_concat(s, at, be16(v.start_pc) + be16(v.end_pc), be16(v.handler_pc));
        lemma_holds_at_concat(s, at, be16(v.start_pc), be16(v.end_pc));
        lemma_parsed_u16(s, at, v.start_pc);
        lemma_parsed_u16(s, at + 2, v.end_pc);
        lemma_parsed_u16(s, at + 4, v.handler_pc);
        lemma_parsed_u16(s, at + 6, v.catch_type);
    }

    fn read(cp: &ConstantPool, s: &[u8], at: usize) -> (r: Option<(CodeException, usize)>) {
        let (start_pc, p) = match read_u16(s, at) {
            Some(r) => r,
            None => {
                return None;
            },
        };
        let (end_pc, p) = match read_u16(s, p) {
            Some(r) => r,
            None => {
                return None;
            },
        };
        let (handler_pc, p) = match read_u16(s, p) {
            Some(r) => r,
            None => {
                return None;
            },
        };
        match read_u16(s, p) {
            Some((catch_type, next)) => Some(
                (CodeException { start_pc, end_pc, handler_pc, catch_type }, next),
            ),
            None => None,
        }
    }

    fn write(&self, out: &mut Vec<u8>) {
        write_u16(out, self.start_pc);
        write_u16(out, self.end_pc);
        write_u16(out, self.handler_pc);
        write_u16(out, self.catch_type);
        assert(out@ =~= old(out)@ + (be16(self.start_pc) + be16(self.end_pc) + be16(
            self.handler_pc,
        ) + be16(self.catch_type)));
    }
}

impl Checked for CodeException {
    fn is_sound(&self, cp: &ConstantPool) -> (r: bool) {
        true
    }
}

impl Element for LocalVariable {
    type V = LocalVariable;

    open spec fn value(&self) -> LocalVariable {
        *self
    }

    open spec fn fits(cp: Seq<TypeView>, v: LocalVariable) -> bool {
        true
    }

    open spec fn bytes(v: LocalVariable) -> Seq<u8> {
        be16(v.start_pc) + be16(v.length) + be16(v.name_index) + be16(v.signature_index) + be16(
            v.index,
        )
    }

    open spec fn parsed(cp: Seq<TypeView>, s: Seq<u8>, at: int) -> Option<(LocalVariable, int)> {
        let a = parsed_u16(s, at);
        let b = parsed_u16(s, at + 2);
        let c = parsed_u16(s, at + 4);
        let d = parsed_u16(s, at + 6);
        let e = parsed_u16(s, at + 8);
        if a is None || b is None || c is None || d is None || e is None {
            None
        } else {
            Some(
                (
                    LocalVariable {
                        start_pc: a->Some_0.0,
                        length: b->Some_0.0,
                        name_index: c->Some_0.0,
                        signature_index: d->Some_0.0,
                        index: e->Some_0.0,
                    },
                    at + 10,
                ),
            )
        }
    }

    proof fn lemma_parsed_fits(cp: Seq<TypeView>, s: Seq<u8>, at: int) {
    }

    proof fn lemma_round_trip(cp: Seq<TypeView>, s: Seq<u8>, at: int, v: LocalVariable) {
        lemma_holds_at_concat(
            s,
            at,
            be16(v.start_pc) + be16(v.length) + be16(v.name_index) + be16(v.signature_index),
            be16(v.index),
        );
        lemma_holds_at_concat(
            s,
            at,
            be16(v.start_pc) + be16(v.length) + be16(v.name_index),
            be16(v.signature_index),
        );
        lemma_holds_at_concat(s, at, be16(v.start_pc) + be16(v.length), be16(v.name_index));
        lemma_holds_at_concat(s, at, be16(v.start_pc), be16(v.length));
        lemma_parsed_u16(s, at, v.start_pc);
        lemma_parsed_u16(s, at + 2, v.length);
        lemma_parsed_u16(s, at + 4, v.name_index);
        lemma_parsed_u16(s, at + 6, v.signature_index);
        lemma_parsed_u16(s, at + 8, v.index);
    }

    fn read(cp: &ConstantPool, s: &[u8], at: usize) -> (r: Option<(LocalVariable, usize)>) {
        let (start_pc, p) = match read_u16(s, at) {
            Some(r) => r,
            None => {
                return None;
            },
        };
        let (length, p) = match read_u16(s, p) {
            Some(r) => r,
            None => {
                return None;
            },
        };
        let (name_index, p) = match read_u16(s, p) {
            Some(r) => r,
            None => {
                return None;
            },
        };
        let (signature_index, p) = match read_u16(s, p) {
            Some(r) => r,
            None => {
                return None;
            },
        };
        match read_u16(s, p) {
            Some((index, next)) => Some(
                (LocalVariable { start_pc, length, name_index, signature_index, index }, next),
            ),
            None => None,
        }
    }

    fn write(&self, out: &mut Vec<u8>) {
        write_u16(out, self.start_pc);
        write_u16(out, self.length);
        write_u16(out, self.name_index);
        write_u16(out, self.signature_index);
        write_u16(out, self.index);
        assert(out@ =~= old(out)@ + (be16(self.start_pc) + be16(self.length) + be16(
            self.name_index,
        ) + be16(self.signature_index) + be16(self.index)));
    }
}

impl Checked for LocalVariable {
    fn is_sound(&self, cp: &ConstantPool) -> (r: bool) {
        true
    }
}

impl Element for VerificationTypeInfo {
    type V = VerificationTypeInfo;

    open spec fn value(&self) -> VerificationTypeInfo {
        *self
    }

    open spec fn fits(cp: Seq<TypeView>, v: VerificationTypeInfo) -> bool {
        true
    }

    open spec fn bytes(v: VerificationTypeInfo) -> Seq<u8> {
        match v {
            VerificationTypeInfo::Top => seq![0u8],
            VerificationTypeInfo::Integer => seq![1u8],
            VerificationTypeInfo::Float => seq![2u8],
            VerificationTypeInfo::Double => seq![3u8],
            VerificationTypeInfo::Long => seq![4u8],
            VerificationTypeInfo::Null => seq![5u8],
            VerificationTypeInfo::UninitializedThis => seq![6u8],
            VerificationTypeInfo::Object { cpool_index } => seq![7u8] + be16(cpool_index),
            VerificationTypeInfo::Uninitialized { offset } => seq![8u8] + be16(offset),
        }
    }

    open spec fn parsed(cp: Seq<TypeView>, s: Seq<u8>, at: int) -> Option<
        (VerificationTypeInfo, int),
    > {
        let tag = parsed_u8(s, at);
        if tag is None {
            None
        } else {
            let t = tag->Some_0.0;
            if t == 0 {
                Some((VerificationTypeInfo::Top, at + 1))
            } else if t == 1 {
                Some((VerificationTypeInfo::Integer, at + 1))
            } else if t == 2 {
                Some((VerificationTypeInfo::Float, at + 1))
            } else if t == 3 {
                Some((VerificationTypeInfo::Double, at + 1))
            } else if t == 4 {
                Some((VerificationTypeInfo::Long, at + 1))
            } else if t == 5 {
                Some((VerificationTypeInfo::Null, at + 1))
            } else if t == 6 {
                Some((VerificationTypeInfo::UninitializedThis, at + 1))
            } else if t == 7 || t == 8 {
                let index = parsed_u16(s, at + 1);
                if index is None {
                    None
                } else if t == 7 {
                    Some((VerificationTypeInfo::Object { cpool_index: index->Some_0.0 }, at + 3))
                } else {
                    Some((VerificationTypeInfo::Uninitialized { offset: index->Some_0.0 }, at + 3))
                }
            } else {
                None
            }
        }
    }

    proof fn lemma_parsed_fits(cp: Seq<TypeView>, s: Seq<u8>, at: int) {
    }

    proof fn lemma_round_trip(cp: Seq<TypeView>, s: Seq<u8>, at: int, v: VerificationTypeInfo) {
        match v {
            VerificationTypeInfo::Object { cpool_index } => {
                lemma_holds_at_concat(s, at, seq![7u8], be16(cpool_index));
                lemma_parsed_u8(s, at, 7);
                lemma_parsed_u16(s, at + 1, cpool_index);
            },
            VerificationTypeInfo::Uninitialized { offset } => {
                lemma_holds_at_concat(s, at, seq![8u8], be16(offset));
                lemma_parsed_u8(s, at, 8);
                lemma_parsed_u16(s, at + 1, offset);
            },
            _ => {
                lemma_parsed_u8(s, at, Self::bytes(v)[0]);
            },
        }
    }

    fn read(cp: &ConstantPool, s: &[u8], at: usize) -> (r: Option<(VerificationTypeInfo, usize)>) {
        let (t, p) = match read_u8(s, at) {
            Some(r) => r,
            None => {
                return None;
            },
        };
        if t == 0 {
            Some((VerificationTypeInfo::Top, p))
        } else if t == 1 {
            Some((VerificationTypeInfo::Integer, p))
        } else if t == 2 {
            Some((VerificationTypeInfo::Float, p))
        } else if t == 3 {
            Some((VerificationTypeInfo::Double, p))
        } else if t == 4 {
            Some((VerificationTypeInfo::Long, p))
        } else if t == 5 {
            Some((VerificationTypeInfo::Null, p))
        } else if t == 6 {
            Some((VerificationTypeInfo::UninitializedThis, p))
        } else if t == 7 || t == 8 {
            match read_u16(s, p) {
                Some((index, next)) => if t == 7 {
                    Some((VerificationTypeInfo::Object { cpool_index: index }, next))
                } else {
                    Some((VerificationTypeInfo::Uninitialized { offset: index }, next))
                },
                None => None,
            }
        } else {
            None
        }
    }

    fn write(&self, out: &mut Vec<u8>) {
        match self {
            VerificationTypeInfo::Top => {
                out.push(0);
            },
            VerificationTypeInfo::Integer => {
                out.push(1);
            },
            VerificationTypeInfo::Float => {
                out.push(2);
            },
            VerificationTypeInfo::Double => {
                out.push(3);
            },
            VerificationTypeInfo::Long => {
                out.push(4);
            },
            VerificationTypeInfo::Null => {
                out.push(5);
            },
            VerificationTypeInfo::UninitializedThis => {
                out.push(6);
            },
            VerificationTypeInfo::Object { cpool_index } => {
                out.push(7);
                write_u16(out, *cpool_index);
            },
            VerificationTypeInfo::Uninitialized { offset } => {
                out.push(8);
                write_u16(out, *offset);
            },
        }
        assert(out@ =~= old(out)@ + Self::bytes(*self));
    }
}

impl Checked for VerificationTypeInfo {
    fn is_sound(&self, cp: &ConstantPool) -> (r: bool) {
        true
    }
}

} // verus!
