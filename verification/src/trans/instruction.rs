//! Decoding one instruction: which opcode stands at a place in the code,
//! and where the next instruction begins.

use vstd::prelude::*;
use crate::classfile::opcode::{
    instruction_width, is_switch, opcode_of_byte, widenable, OpCode,
};
use crate::util::{i32_of, read_i32, read_u16, u16_of};

verus! {

/// What decoding one instruction gives: where it stands, its opcode, the
/// index into the constant pool that it names (0 if it names none), and
/// whether it follows the prefix `wide`.
#[derive(Clone, Copy, PartialEq, Eq, Structural, Debug)]
pub struct InstructionInfo {
    pub pc: usize,
    pub op_code: OpCode,
    pub icp: usize,
    pub wide: bool,
}

/// The decoder of one opcode.
pub trait Instruction {
    /// The opcode that this decoder is for.
    spec fn decodes(&self) -> OpCode;

    /// Whether this decoder takes its instruction to follow the prefix
    /// `wide`.
    spec fn widened(&self) -> bool;

    /// Decodes the instruction at `pc`, and says where the next one begins:
    /// as many bytes further as an instruction of this opcode takes.
    fn run(&self, codes: &[u8], pc: usize) -> (r: (InstructionInfo, usize))
        requires
            pc + instruction_width(self.decodes(), self.widened()) <= usize::MAX,
        ensures
            r.0 == (InstructionInfo {
                pc,
                op_code: self.decodes(),
                icp: 0,
                wide: self.widened(),
            }),
            r.1 == pc + instruction_width(self.decodes(), self.widened()),
    ;

    /// Tells this decoder whether its instruction follows the prefix
    /// `wide`. A decoder of an opcode that the prefix cannot stand before
    /// takes no notice.
    fn set_wide(&mut self, wide: bool)
        ensures
            final(self).decodes() == old(self).decodes(),
            final(self).widened() == (wide && widenable(old(self).decodes())),
    ;
}

/// The decoder of `baload`.
pub struct Baload;

impl Instruction for Baload {
    open spec fn decodes(&self) -> OpCode {
        OpCode::baload
    }

    open spec fn widened(&self) -> bool {
        false
    }

    fn run(&self, codes: &[u8], pc: usize) -> (r: (InstructionInfo, usize)) {
        let info = InstructionInfo { pc, op_code: OpCode::baload, icp: 0, wide: false };
        (info, pc + 1)
    }

    fn set_wide(&mut self, wide: bool) {
    }
}

/// The decoder of `dneg`.
pub struct Dneg;

impl Instruction for Dneg {
    open spec fn decodes(&self) -> OpCode {
        OpCode::dneg
    }

    open spec fn widened(&self) -> bool {
        false
    }

    fn run(&self, codes: &[u8], pc: usize) -> (r: (InstructionInfo, usize)) {
        let info = InstructionInfo { pc, op_code: OpCode::dneg, icp: 0, wide: false };
        (info, pc + 1)
    }

    fn set_wide(&mut self, wide: bool) {
    }
}

/// The decoder of `dup2_x1`.
#[allow(non_camel_case_types)]
pub struct Dup2_X1;

impl Instruction for Dup2_X1 {
    open spec fn decodes(&self) -> OpCode {
        OpCode::dup2_x1
    }

    open spec fn widened(&self) -> bool {
        false
    }

    fn run(&self, codes: &[u8], pc: usize) -> (r: (InstructionInfo, usize)) {
        let info = InstructionInfo { pc, op_code: OpCode::dup2_x1, icp: 0, wide: false };
        (info, pc + 1)
    }

    fn set_wide(&mut self, wide: bool) {
    }
}

/// The decoder of `f2l`.
pub struct F2L;

impl Instruction for F2L {
    open spec fn decodes(&self) -> OpCode {
        OpCode::f2l
    }

    open spec fn widened(&self) -> bool {
        false
    }

    fn run(&self, codes: &[u8], pc: usize) -> (r: (InstructionInfo, usize)) {
        let info = InstructionInfo { pc, op_code: OpCode::f2l, icp: 0, wide: false };
        (info, pc + 1)
    }

    fn set_wide(&mut self, wide: bool) {
    }
}

/// The decoder of `fadd`.
pub struct Fadd;

impl Instruction for Fadd {
    open spec fn decodes(&self) -> OpCode {
        OpCode::fadd
    }

    open spec fn widened(&self) -> bool {
        false
    }

    fn run(&self, codes: &[u8], pc: usize) -> (r: (InstructionInfo, usize)) {
        let info = InstructionInfo { pc, op_code: OpCode::fadd, icp: 0, wide: false };
        (info, pc + 1)
    }

    fn set_wide(&mut self, wide: bool) {
    }
}

/// The decoder of `ifne`.
pub struct Ifne;

impl Instruction for Ifne {
    open spec fn decodes(&self) -> OpCode {
        OpCode::ifne
    }

    open spec fn widened(&self) -> bool {
        false
    }

    fn run(&self, codes: &[u8], pc: usize) -> (r: (InstructionInfo, usize)) {
        let info = InstructionInfo { pc, op_code: OpCode::ifne, icp: 0, wide: false };
        (info, pc + 3)
    }

    fn set_wide(&mut self, wide: bool) {
    }
}

/// The decoder of `istore_1`.
#[allow(non_camel_case_types)]
pub struct Istore_1;

impl Instruction for Istore_1 {
    open spec fn decodes(&self) -> OpCode {
        OpCode::istore_1
    }

    open spec fn widened(&self) -> bool {
        false
    }

    fn run(&self, codes: &[u8], pc: usize) -> (r: (InstructionInfo, usize)) {
        let info = InstructionInfo { pc, op_code: OpCode::istore_1, icp: 0, wide: false };
        (info, pc + 1)
    }

    fn set_wide(&mut self, wide: bool) {
    }
}

/// The decoder of `iushr`.
pub struct Iushr;

impl Instruction for Iushr {
    open spec fn decodes(&self) -> OpCode {
        OpCode::iushr
    }

    open spec fn widened(&self) -> bool {
        false
    }

    fn run(&self, codes: &[u8], pc: usize) -> (r: (InstructionInfo, usize)) {
        let info = InstructionInfo { pc, op_code: OpCode::iushr, icp: 0, wide: false };
        (info, pc + 1)
    }

    fn set_wide(&mut self, wide: bool) {
    }
}

/// The decoder of `jsr`.
pub struct Jsr;

impl Instruction for Jsr {
    open spec fn decodes(&self) -> OpCode {
        OpCode::jsr
    }

    open spec fn widened(&self) -> bool {
        false
    }

    fn run(&self, codes: &[u8], pc: usize) -> (r: (InstructionInfo, usize)) {
        let info = InstructionInfo { pc, op_code: OpCode::jsr, icp: 0, wide: false };
        (info, pc + 3)
    }

    fn set_wide(&mut self, wide: bool) {
    }
}

/// The decoder of `ldiv`.
pub struct Ldiv;

impl Instruction for Ldiv {
    open spec fn decodes(&self) -> OpCode {
        OpCode::ldiv
    }

    open spec fn widened(&self) -> bool {
        false
    }

    fn run(&self, codes: &[u8], pc: usize) -> (r: (InstructionInfo, usize)) {
        let info = InstructionInfo { pc, op_code: OpCode::ldiv, icp: 0, wide: false };
        (info, pc + 1)
    }

    fn set_wide(&mut self, wide: bool) {
    }
}

/// The decoder of `lstore`, which the prefix `wide` may stand before.
pub struct Lstore {
    pub wide: bool,
}

impl Instruction for Lstore {
    open spec fn decodes(&self) -> OpCode {
        OpCode::lstore
    }

    open spec fn widened(&self) -> bool {
        self.wide
    }

    fn run(&self, codes: &[u8], pc: usize) -> (r: (InstructionInfo, usize)) {
        let mut info = InstructionInfo { pc, op_code: OpCode::lstore, icp: 0, wide: false };
        if self.wide {
            info.wide = self.wide;
            (info, pc + 3)
        } else {
            (info, pc + 2)
        }
    }

    fn set_wide(&mut self, wide: bool) {
        self.wide = wide;
    }
}

/// Where the operands of a switch at `pc` begin: at the next place after
/// the opcode that is a multiple of four.
pub open spec fn switch_base(pc: int) -> int {
    pc + 4 - pc % 4
}

/// Where the instruction after the switch at `pc` begins, if the switch is
/// whole and sound. A `tableswitch` holds a default, a low and a high
/// bound, and one offset for each value from low to high; a `lookupswitch`
/// holds a default, a count of pairs that is not negative, and the pairs.
pub open spec fn switch_end(op: OpCode, codes: Seq<u8>, pc: int) -> Option<int> {
    let base = switch_base(pc);
    if op == OpCode::tableswitch {
        if base + 12 > codes.len() {
            None
        } else {
            let low = i32_of(codes[base + 4], codes[base + 5], codes[base + 6], codes[base + 7]);
            let high = i32_of(
                codes[base + 8],
                codes[base + 9],
                codes[base + 10],
                codes[base + 11],
            );
            let end = base + 12 + (high - low + 1) * 4;
            if low > high || end > codes.len() {
                None
            } else {
                Some(end)
            }
        }
    } else {
        if base + 8 > codes.len() {
            None
        } else {
            let pairs = i32_of(codes[base + 4], codes[base + 5], codes[base + 6], codes[base + 7]);
            let end = base + 8 + pairs * 8;
            if pairs < 0 || end > codes.len() {
                None
            } else {
                Some(end)
            }
        }
    }
}

/// Whether an instruction of `op` names an entry of the constant pool by
/// an index of two bytes.
pub open spec fn names_constant(op: OpCode) -> bool {
    match op {
        OpCode::ldc_w
        | OpCode::ldc2_w
        | OpCode::getstatic
        | OpCode::putstatic
        | OpCode::getfield
        | OpCode::putfield
        | OpCode::invokevirtual
        | OpCode::invokespecial
        | OpCode::invokestatic
        | OpCode::invokeinterface
        | OpCode::invokedynamic
        | OpCode::new
        | OpCode::anewarray
        | OpCode::checkcast
        | OpCode::instanceof
        | OpCode::multianewarray => true,
        _ => false,
    }
}

/// The index into the constant pool that the instruction of `op` at `pc`
/// names: one byte for `ldc`, two bytes for the others that name one, and 0
/// for an instruction that names none.
pub open spec fn constant_pool_index(op: OpCode, codes: Seq<u8>, pc: int) -> int {
    if op == OpCode::ldc {
        codes[pc + 1] as int
    } else if names_constant(op) {
        u16_of(codes[pc + 1], codes[pc + 2])
    } else {
        0
    }
}

/// The instruction at `pc` and the place of the next one.
///
/// There is none where `pc` lies outside the code, where the byte at `pc`
/// is no opcode, where `wide` is set and the prefix cannot stand before
/// the opcode, where a switch is not sound, or where the instruction would
/// end after the code. An instruction of any opcode but the switches ends
/// [`instruction_width`] bytes after `pc`.
pub open spec fn decoded(codes: Seq<u8>, pc: int, wide: bool) -> Option<(InstructionInfo, int)> {
    if pc < 0 || pc >= codes.len() {
        None
    } else {
        match opcode_of_byte(codes[pc]) {
            None => None,
            Some(op) => if wide && !widenable(op) {
                None
            } else if is_switch(op) {
                match switch_end(op, codes, pc) {
                    Some(end) => Some(
                        (InstructionInfo { pc: pc as usize, op_code: op, icp: 0, wide }, end),
                    ),
                    None => None,
                }
            } else if pc + instruction_width(op, wide) > codes.len() {
                None
            } else {
                Some(
                    (
                        InstructionInfo {
                            pc: pc as usize,
                            op_code: op,
                            icp: constant_pool_index(op, codes, pc) as usize,
                            wide,
                        },
                        pc + instruction_width(op, wide),
                    ),
                )
            },
        }
    }
}

/// Where the instruction after the switch at `pc` begins.
fn end_of_switch(op: OpCode, codes: &[u8], pc: usize) -> (end: Option<usize>)
    requires
        pc < codes@.len(),
        is_switch(op),
    ensures
        match end {
            Some(e) => switch_end(op, codes@, pc as int) == Some(e as int) && pc < e
                <= codes@.len(),
            None => switch_end(op, codes@, pc as int) is None,
        },
{
    let len = codes.len();
    let pad = 3 - pc % 4;
    if len - pc <= pad + 1 {
        return None;
    }
    let base = pc + 1 + pad;
    let is_table = match op {
        OpCode::tableswitch => true,
        _ => false,
    };
    if is_table {
        if len - base < 12 {
            return None;
        }
        let low = read_i32(codes, base + 4);
        let high = read_i32(codes, base + 8);
        if low > high {
            return None;
        }
        let count: u64 = ((high as i64 - low as i64 + 1) * 4) as u64;
        if count > (len - base - 12) as u64 {
            return None;
        }
        Some(base + 12 + count as usize)
    } else {
        if len - base < 8 {
            return None;
        }
        let pairs = read_i32(codes, base + 4);
        if pairs < 0 {
            return None;
        }
        let count: u64 = (pairs as u64) * 8;
        if count > (len - base - 8) as u64 {
            return None;
        }
        Some(base + 8 + count as usize)
    }
}

/// The index into the constant pool that the instruction of `op` at `pc`
/// names.
fn index_named(op: OpCode, codes: &[u8], pc: usize) -> (icp: usize)
    requires
        pc + instruction_width(op, false) <= codes@.len(),
    ensures
        icp == constant_pool_index(op, codes@, pc as int),
{
    assert(codes@.len() == codes.len());
    match op {
        OpCode::ldc => codes[pc + 1] as usize,
        OpCode::ldc_w
        | OpCode::ldc2_w
        | OpCode::getstatic
        | OpCode::putstatic
        | OpCode::getfield
        | OpCode::putfield
        | OpCode::invokevirtual
        | OpCode::invokespecial
        | OpCode::invokestatic
        | OpCode::invokeinterface
        | OpCode::invokedynamic
        | OpCode::new
        | OpCode::anewarray
        | OpCode::checkcast
        | OpCode::instanceof
        | OpCode::multianewarray => read_u16(codes, pc + 1) as usize,
        _ => 0,
    }
}

/// Decodes the instruction at `pc`, which follows the prefix `wide` if
/// `wide` is set, and says where the next one begins.
pub fn decode(codes: &[u8], pc: usize, wide: bool) -> (r: Option<(InstructionInfo, usize)>)
    ensures
        match r {
            Some((info, next)) => decoded(codes@, pc as int, wide) == Some((info, next as int))
                && pc < next <= codes@.len(),
            None => decoded(codes@, pc as int, wide) is None,
        },
        r matches Some((info, next)) ==> info.pc == pc && info.wide == wide && (!is_switch(
            info.op_code,
        ) ==> next - pc == instruction_width(info.op_code, wide)),
{
    if pc >= codes.len() {
        return None;
    }
    let op = match OpCode::from_byte(codes[pc]) {
        Some(op) => op,
        None => {
            return None;
        },
    };
    let width = op.width(wide);
    if wide && width == op.width(false) {
        return None;
    }
    let switch = match op {
        OpCode::tableswitch => true,
        OpCode::lookupswitch => true,
        _ => false,
    };
    if switch {
        return match end_of_switch(op, codes, pc) {
            Some(end) => Some((InstructionInfo { pc, op_code: op, icp: 0, wide }, end)),
            None => None,
        };
    }
    if codes.len() - pc < width {
        return None;
    }
    let icp = if wide {
        0
    } else {
        index_named(op, codes, pc)
    };
    Some((InstructionInfo { pc, op_code: op, icp, wide }, pc + width))
}

/// A decoder that is run on its own opcode agrees with [`decode`]: where
/// the byte at `pc` is the decoder's opcode and the instruction ends within
/// the code, both give the same instruction and the same next place.
pub proof fn lemma_run_agrees_with_decode<D: Instruction>(d: D, codes: Seq<u8>, pc: int)
    requires
        0 <= pc < codes.len(),
        opcode_of_byte(codes[pc]) == Some(d.decodes()),
        !is_switch(d.decodes()),
        !names_constant(d.decodes()),
        d.decodes() != OpCode::ldc,
        d.widened() ==> widenable(d.decodes()),
        pc + instruction_width(d.decodes(), d.widened()) <= codes.len(),
        codes.len() <= usize::MAX,
    ensures
        decoded(codes, pc, d.widened()) == Some(
            (
                InstructionInfo {
                    pc: pc as usize,
                    op_code: d.decodes(),
                    icp: 0,
                    wide: d.widened(),
                },
                pc + instruction_width(d.decodes(), d.widened()),
            ),
        ),
{
}

} // verus!
