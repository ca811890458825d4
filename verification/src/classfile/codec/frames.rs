//! The frames of a stack map table as bytes.
//!
//! The first byte of a frame is its tag. The tag says of what kind the
//! frame is, and for some kinds also what the offset is or how many locals
//! follow.

use vstd::prelude::*;
use crate::classfile::attributes::{StackMapFrame, VerificationTypeInfo};
use crate::classfile::codec::bytes::{
    be16, holds_at, lemma_holds_at_concat, lemma_parsed_u16, lemma_parsed_u8, parsed_u16,
    parsed_u8, read_u16, read_u8, write_u16,
};
use crate::classfile::codec::list::{
    counted_bytes, counted_fits, lemma_counted_round_trip, lemma_list_round_trip,
    lemma_parsed_counted_fits, lemma_parsed_list_fits, list_bytes, parsed_counted, parsed_list,
    read_counted, read_list, values, write_counted, write_list, Checked, Element,
};
use crate::classfile::constant_pool::{pool_view, ConstantPool, TypeView};

verus! {

/// The mathematical value of a frame.
#[allow(inconsistent_fields)]
pub enum StackMapFrameView {
    Same { tag: u8, offset_delta: u16 },
    SameLocals1StackItem { tag: u8, offset_delta: u16, stack: VerificationTypeInfo },
    SameLocals1StackItemExtended { tag: u8, offset_delta: u16, stack: VerificationTypeInfo },
    Chop { tag: u8, offset_delta: u16 },
    SameExtended { tag: u8, offset_delta: u16 },
    Append { tag: u8, offset_delta: u16, locals: Seq<VerificationTypeInfo> },
    Full {
        tag: u8,
        offset_delta: u16,
        locals: Seq<VerificationTypeInfo>,
        stack: Seq<VerificationTypeInfo>,
    },
    Reserved(u8),
}

impl View for StackMapFrame {
    type V = StackMapFrameView;

    open spec fn view(&self) -> StackMapFrameView {
        match *self {
            StackMapFrame::Same { tag, offset_delta } => StackMapFrameView::Same {
                tag,
                offset_delta,
            },
            StackMapFrame::SameLocals1StackItem {
                tag,
                offset_delta,
                stack,
            } => StackMapFrameView::SameLocals1StackItem { tag, offset_delta, stack },
            StackMapFrame::SameLocals1StackItemExtended {
                tag,
                offset_delta,
                stack,
            } => StackMapFrameView::SameLocals1StackItemExtended { tag, offset_delta, stack },
            StackMapFrame::Chop { tag, offset_delta } => StackMapFrameView::Chop {
                tag,
                offset_delta,
            },
            StackMapFrame::SameExtended { tag, offset_delta } => StackMapFrameView::SameExtended {
                tag,
                offset_delta,
            },
            StackMapFrame::Append { tag, offset_delta, locals } => StackMapFrameView::Append {
                tag,
                offset_delta,
                locals: locals@,
            },
            StackMapFrame::Full { tag, offset_delta, locals, stack } => StackMapFrameView::Full {
                tag,
                offset_delta,
                locals: locals@,
                stack: stack@,
            },
            StackMapFrame::Reserved(tag) => StackMapFrameView::Reserved(tag),
        }
    }
}

/// The values of a vector of verification types are its elements.
pub proof fn lemma_values_of_types(items: Seq<VerificationTypeInfo>)
    ensures
        values::<VerificationTypeInfo>(items) == items,
{
    assert(values::<VerificationTypeInfo>(items) =~= items);
}

impl Element for StackMapFrame {
    type V = StackMapFrameView;

    open spec fn value(&self) -> StackMapFrameView {
        self@
    }

    /// The tag of a frame is in the range of its kind, and where the tag
    /// holds the offset or the number of locals, it holds the right one.
    open spec fn fits(cp: Seq<TypeView>, v: StackMapFrameView) -> bool {
        match v {
            StackMapFrameView::Same { tag, offset_delta } => tag <= 63 && offset_delta == tag,
            StackMapFrameView::SameLocals1StackItem { tag, offset_delta, .. } => 64 <= tag <= 127
                && offset_delta == tag - 64,
            StackMapFrameView::SameLocals1StackItemExtended { tag, .. } => tag == 247,
            StackMapFrameView::Chop { tag, .. } => 248 <= tag <= 250,
            StackMapFrameView::SameExtended { tag, .. } => tag == 251,
            StackMapFrameView::Append { tag, locals, .. } => 252 <= tag <= 254 && locals.len()
                == tag - 251,
            StackMapFrameView::Full { tag, locals, stack, .. } => tag == 255 && locals.len()
                <= 0xffff && stack.len() <= 0xffff,
            StackMapFrameView::Reserved(tag) => 128 <= tag <= 246,
        }
    }

    open spec fn bytes(v: StackMapFrameView) -> Seq<u8> {
        match v {
            StackMapFrameView::Same { tag, .. } => seq![tag],
            StackMapFrameView::SameLocals1StackItem { tag, stack, .. } => seq![tag]
                + VerificationTypeInfo::bytes(stack),
            StackMapFrameView::SameLocals1StackItemExtended { tag, offset_delta, stack } => seq![tag]
                + be16(offset_delta) + VerificationTypeInfo::bytes(stack),
            StackMapFrameView::Chop { tag, offset_delta } => seq![tag] + be16(offset_delta),
            StackMapFrameView::SameExtended { tag, offset_delta } => seq![tag] + be16(offset_delta),
            StackMapFrameView::Append { tag, offset_delta, locals } => seq![tag] + be16(
                offset_delta,
            ) + list_bytes::<VerificationTypeInfo>(locals),
            StackMapFrameView::Full { tag, offset_delta, locals, stack } => seq![tag] + be16(
                offset_delta,
            ) + counted_bytes::<VerificationTypeInfo>(locals) + counted_bytes::<
                VerificationTypeInfo,
            >(stack),
            StackMapFrameView::Reserved(tag) => seq![tag],
        }
    }

    open spec fn parsed(cp: Seq<TypeView>, s: Seq<u8>, at: int) -> Option<
        (StackMapFrameView, int),
    > {
        let first = parsed_u8(s, at);
        if first is None {
            None
        } else {
            let tag = first->Some_0.0;
            if tag <= 63 {
                Some((StackMapFrameView::Same { tag, offset_delta: tag as u16 }, at + 1))
            } else if tag <= 127 {
                let stack = VerificationTypeInfo::parsed(cp, s, at + 1);
                if stack is None {
                    None
                } else {
                    Some(
                        (
                            StackMapFrameView::SameLocals1StackItem {
                                tag,
                                offset_delta: (tag - 64) as u16,
                                stack: stack->Some_0.0,
                            },
                            stack->Some_0.1,
                        ),
                    )
                }
            } else if tag <= 246 {
                Some((StackMapFrameView::Reserved(tag), at + 1))
            } else {
                let offset = parsed_u16(s, at + 1);
                if offset is None {
                    None
                } else {
                    let offset_delta = offset->Some_0.0;
                    if tag == 247 {
                        let stack = VerificationTypeInfo::parsed(cp, s, at + 3);
                        if stack is None {
                            None
                        } else {
                            Some(
                                (
                                    StackMapFrameView::SameLocals1StackItemExtended {
                                        tag,
                                        offset_delta,
                                        stack: stack->Some_0.0,
                                    },
                                    stack->Some_0.1,
                                ),
                            )
                        }
                    } else if tag <= 250 {
                        Some((StackMapFrameView::Chop { tag, offset_delta }, at + 3))
                    } else if tag == 251 {
                        Some((StackMapFrameView::SameExtended { tag, offset_delta }, at + 3))
                    } else if tag <= 254 {
                        let locals = parsed_list::<VerificationTypeInfo>(cp, s, at + 3, tag - 251);
                        if locals is None {
                            None
                        } else {
                            Some(
                                (
                                    StackMapFrameView::Append {
                                        tag,
                                        offset_delta,
                                        locals: locals->Some_0.0,
                                    },
                                    locals->Some_0.1,
                                ),
                            )
                        }
                    } else {
                        let locals = parsed_counted::<VerificationTypeInfo>(cp, s, at + 3);
                        if locals is None {
                            None
                        } else {
                            let stack = parsed_counted::<VerificationTypeInfo>(
                                cp,
                                s,
                                locals->Some_0.1,
                            );
                            if stack is None {
                                None
                            } else {
                                Some(
                                    (
                                        StackMapFrameView::Full {
                                            tag,
                                            offset_delta,
                                            locals: locals->Some_0.0,
                                            stack: stack->Some_0.0,
                                        },
                                        stack->Some_0.1,
                                    ),
                                )
                            }
                        }
                    }
                }
            }
        }
    }

    proof fn lemma_parsed_fits(cp: Seq<TypeView>, s: Seq<u8>, at: int) {
        let tag = parsed_u8(s, at)->Some_0.0;
        if 64 <= tag <= 127 {
            VerificationTypeInfo::lemma_parsed_fits(cp, s, at + 1);
        } else if tag == 247 {
            VerificationTypeInfo::lemma_parsed_fits(cp, s, at + 3);
        } else if 252 <= tag <= 254 {
            lemma_parsed_list_fits::<VerificationTypeInfo>(cp, s, at + 3, tag - 251);
        } else if tag == 255 {
            lemma_parsed_counted_fits::<VerificationTypeInfo>(cp, s, at + 3);
            let locals = parsed_counted::<VerificationTypeInfo>(cp, s, at + 3)->Some_0;
            lemma_parsed_counted_fits::<VerificationTypeInfo>(cp, s, locals.1);
        }
    }

    proof fn lemma_round_trip(cp: Seq<TypeView>, s: Seq<u8>, at: int, v: StackMapFrameView) {
        match v {
            StackMapFrameView::Same { tag, .. } => {
                lemma_parsed_u8(s, at, tag);
            },
            StackMapFrameView::Reserved(tag) => {
                lemma_parsed_u8(s, at, tag);
            },
            StackMapFrameView::SameLocals1StackItem { tag, stack, .. } => {
                lemma_holds_at_concat(s, at, seq![tag], VerificationTypeInfo::bytes(stack));
                lemma_parsed_u8(s, at, tag);
                VerificationTypeInfo::lemma_round_trip(cp, s, at + 1, stack);
            },
            StackMapFrameView::SameLocals1StackItemExtended { tag, offset_delta, stack } => {
                lemma_holds_at_concat(
                    s,
                    at,
                    seq![tag] + be16(offset_delta),
                    VerificationTypeInfo::bytes(stack),
                );
                lemma_holds_at_concat(s, at, seq![tag], be16(offset_delta));
                lemma_parsed_u8(s, at, tag);
                lemma_parsed_u16(s, at + 1, offset_delta);
                VerificationTypeInfo::lemma_round_trip(cp, s, at + 3, stack);
            },
            StackMapFrameView::Chop { tag, offset_delta } => {
                lemma_holds_at_concat(s, at, seq![tag], be16(offset_delta));
                lemma_parsed_u8(s, at, tag);
                lemma_parsed_u16(s, at + 1, offset_delta);
            },
            StackMapFrameView::SameExtended { tag, offset_delta } => {
                lemma_holds_at_concat(s, at, seq![tag], be16(offset_delta));
                lemma_parsed_u8(s, at, tag);
                lemma_parsed_u16(s, at + 1, offset_delta);
            },
            StackMapFrameView::Append { tag, offset_delta, locals } => {
                lemma_holds_at_concat(
                    s,
                    at,
                    seq![tag] + be16(offset_delta),
                    list_bytes::<VerificationTypeInfo>(locals),
                );
                lemma_holds_at_concat(s, at, seq![tag], be16(offset_delta));
                lemma_parsed_u8(s, at, tag);
                lemma_parsed_u16(s, at + 1, offset_delta);
                lemma_list_round_trip::<VerificationTypeInfo>(cp, s, at + 3, locals);
            },
            StackMapFrameView::Full { tag, offset_delta, locals, stack } => {
                let head = seq![tag] + be16(offset_delta);
                let first = counted_bytes::<VerificationTypeInfo>(locals);
                let second = counted_bytes::<VerificationTypeInfo>(stack);
                lemma_holds_at_concat(s, at, head + first, second);
                lemma_holds_at_concat(s, at, head, first);
                lemma_holds_at_concat(s, at, seq![tag], be16(offset_delta));
                lemma_parsed_u8(s, at, tag);
                lemma_parsed_u16(s, at + 1, offset_delta);
                lemma_counted_round_trip::<VerificationTypeInfo>(cp, s, at + 3, locals);
                lemma_counted_round_trip::<VerificationTypeInfo>(
                    cp,
                    s,
                    at + 3 + first.len(),
                    stack,
                );
            },
        }
    }

    fn read(cp: &ConstantPool, s: &[u8], at: usize) -> (r: Option<(StackMapFrame, usize)>) {
        let (tag, p) = match read_u8(s, at) {
            Some(r) => r,
            None => {
                return None;
            },
        };
        if tag <= 63 {
            return Some((StackMapFrame::Same { tag, offset_delta: tag as u16 }, p));
        }
        if tag <= 127 {
            return match VerificationTypeInfo::read(cp, s, p) {
                Some((stack, next)) => Some(
                    (
                        StackMapFrame::SameLocals1StackItem {
                            tag,
                            offset_delta: (tag - 64) as u16,
                            stack,
                        },
                        next,
                    ),
                ),
                None => None,
            };
        }
        if tag <= 246 {
            return Some((StackMapFrame::Reserved(tag), p));
        }
        let (offset_delta, q) = match read_u16(s, p) {
            Some(r) => r,
            None => {
                return None;
            },
        };
        if tag == 247 {
            match VerificationTypeInfo::read(cp, s, q) {
                Some((stack, next)) => Some(
                    (StackMapFrame::SameLocals1StackItemExtended { tag, offset_delta, stack }, next),
                ),
                None => None,
            }
        } else if tag <= 250 {
            Some((StackMapFrame::Chop { tag, offset_delta }, q))
        } else if tag == 251 {
            Some((StackMapFrame::SameExtended { tag, offset_delta }, q))
        } else if tag <= 254 {
            match read_list::<VerificationTypeInfo>(cp, s, q, (tag - 251) as usize) {
                Some((locals, next)) => {
                    proof {
                        lemma_values_of_types(locals@);
                    }
                    Some((StackMapFrame::Append { tag, offset_delta, locals }, next))
                },
                None => None,
            }
        } else {
            let (locals, r) = match read_counted::<VerificationTypeInfo>(cp, s, q) {
                Some(r) => r,
                None => {
                    return None;
                },
            };
            match read_counted::<VerificationTypeInfo>(cp, s, r) {
                Some((stack, next)) => {
                    proof {
                        lemma_values_of_types(locals@);
                        lemma_values_of_types(stack@);
                    }
                    Some((StackMapFrame::Full { tag, offset_delta, locals, stack }, next))
                },
                None => None,
            }
        }
    }

    fn write(&self, out: &mut Vec<u8>) {
        match self {
            StackMapFrame::Same { tag, .. } => {
                out.push(*tag);
            },
            StackMapFrame::Reserved(tag) => {
                out.push(*tag);
            },
            StackMapFrame::SameLocals1StackItem { tag, stack, .. } => {
                out.push(*tag);
                stack.write(out);
            },
            StackMapFrame::SameLocals1StackItemExtended { tag, offset_delta, stack } => {
                out.push(*tag);
                write_u16(out, *offset_delta);
                stack.write(out);
            },
            StackMapFrame::Chop { tag, offset_delta } => {
                out.push(*tag);
                write_u16(out, *offset_delta);
            },
            StackMapFrame::SameExtended { tag, offset_delta } => {
                out.push(*tag);
                write_u16(out, *offset_delta);
            },
            StackMapFrame::Append { tag, offset_delta, locals } => {
                out.push(*tag);
                write_u16(out, *offset_delta);
                write_list::<VerificationTypeInfo>(out, locals);
                proof {
                    lemma_values_of_types(locals@);
                }
            },
            StackMapFrame::Full { tag, offset_delta, locals, stack } => {
                out.push(*tag);
                write_u16(out, *offset_delta);
                write_counted::<VerificationTypeInfo>(out, locals);
                write_counted::<VerificationTypeInfo>(out, stack);
                proof {
                    lemma_values_of_types(locals@);
                    lemma_values_of_types(stack@);
                }
            },
        }
        assert(out@ =~= old(out)@ + Self::bytes(self@));
    }
}

impl Checked for StackMapFrame {
    fn is_sound(&self, cp: &ConstantPool) -> (r: bool) {
        match self {
            StackMapFrame::Same { tag, offset_delta } => *tag <= 63 && *offset_delta == *tag as u16,
            StackMapFrame::SameLocals1StackItem { tag, offset_delta, .. } => 64 <= *tag && *tag
                <= 127 && *offset_delta == (*tag - 64) as u16,
            StackMapFrame::SameLocals1StackItemExtended { tag, .. } => *tag == 247,
            StackMapFrame::Chop { tag, .. } => 248 <= *tag && *tag <= 250,
            StackMapFrame::SameExtended { tag, .. } => *tag == 251,
            StackMapFrame::Append { tag, locals, .. } => 252 <= *tag && *tag <= 254
                && locals.len() == (*tag - 251) as usize,
            StackMapFrame::Full { tag, locals, stack, .. } => *tag == 255 && locals.len() <= 0xffff
                && stack.len() <= 0xffff,
            StackMapFrame::Reserved(tag) => 128 <= *tag && *tag <= 246,
        }
    }
}

} // verus!
