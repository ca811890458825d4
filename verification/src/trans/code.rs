//! The code of a method as a listing, one line for each instruction.

use vstd::prelude::*;
use vstd::string::StringExecFns;
use crate::classfile::attributes::Code;
use crate::classfile::opcode::{opcode_mnemonic, OpCode};
use crate::classfile::ClassFile;
use crate::trans::instruction::{decode, decoded, InstructionInfo};
use crate::trans::text::{
    decimal, lemma_string_views_push, push_decimal, push_decimal_column, right_aligned,
    string_views,
};

verus! {

/// One line of a listing: the place of the instruction at the right of a
/// column of four characters, a colon, the mnemonic, and the index into the
/// constant pool after a `#` if the instruction names one.
pub open spec fn instruction_text(info: InstructionInfo) -> Seq<char> {
    right_aligned(decimal(info.pc as nat), 4) + ": "@ + opcode_mnemonic(info.op_code)@ + if info.icp
        != 0 {
        " #"@ + decimal(info.icp as nat)
    } else {
        Seq::empty()
    }
}

/// The listing of `codes` from `pc` on, where the instruction at `pc`
/// follows the prefix `wide` if `wide` is set. The listing ends where the
/// code ends, and before the first place that holds no whole instruction.
pub open spec fn code_text(codes: Seq<u8>, pc: int, wide: bool) -> Seq<Seq<char>>
    decreases codes.len() - pc,
{
    let d = decoded(codes, pc, wide);
    if d is None {
        Seq::empty()
    } else {
        let info = d->Some_0.0;
        let next = d->Some_0.1;
        if pc < next <= codes.len() {
            seq![instruction_text(info)] + code_text(codes, next, info.op_code == OpCode::wide)
        } else {
            Seq::empty()
        }
    }
}

/// One line of a listing.
fn instruction_line(info: &InstructionInfo) -> (line: String)
    ensures
        line@ == instruction_text(*info),
{
    let mut line = String::new();
    push_decimal_column(&mut line, info.pc as u64, 4);
    line.append(": ");
    line.append(info.op_code.mnemonic());
    if info.icp != 0 {
        line.append(" #");
        push_decimal(&mut line, info.icp as u64);
    }
    assert(line@ =~= instruction_text(*info));
    line
}

/// The code of a method, to be listed.
pub struct CodeTranslator<'a> {
    pub cf: &'a ClassFile,
    pub code: &'a Code,
}

impl<'a> CodeTranslator<'a> {
    /// The listing of the code.
    pub fn get(&self) -> (lines: Vec<String>)
        ensures
            string_views(lines@) == code_text(self.code.code@, 0, false),
    {
        let codes = self.code.code.as_slice();
        let mut lines: Vec<String> = Vec::new();
        let mut pc: usize = 0;
        let mut wide = false;
        assert(string_views(lines@) + code_text(codes@, 0, false) =~= code_text(codes@, 0, false));
        loop
            invariant_except_break
                codes@ == self.code.code@,
                pc <= codes@.len(),
                code_text(codes@, 0, false) == string_views(lines@) + code_text(
                    codes@,
                    pc as int,
                    wide,
                ),
            ensures
                string_views(lines@) == code_text(self.code.code@, 0, false),
            decreases codes@.len() - pc,
        {
            match decode(codes, pc, wide) {
                Some((info, next)) => {
                    let line = instruction_line(&info);
                    proof {
                        lemma_string_views_push(lines@, line);
                        let rest = code_text(codes@, next as int, info.op_code == OpCode::wide);
                        assert(string_views(lines@).push(line@) + rest =~= string_views(lines@) + (
                        seq![line@] + rest));
                    }
                    lines.push(line);
                    wide = match info.op_code {
                        OpCode::wide => true,
                        _ => false,
                    };
                    pc = next;
                },
                None => {
                    assert(string_views(lines@) + Seq::<Seq<char>>::empty() =~= string_views(
                        lines@,
                    ));
                    break;
                },
            }
        }
        lines
    }
}

} // verus!
