//! The instruction set: every opcode, its byte, its mnemonic and the
//! number of bytes that an instruction of it takes.

use vstd::prelude::*;

verus! {

/// The opcodes of the Java virtual machine, the three reserved ones
/// included.
#[allow(non_camel_case_types)]
#[derive(Clone, Copy, PartialEq, Eq, Structural, Debug)]
pub enum OpCode {
    nop,
    aconst_null,
    iconst_m1,
    iconst_0,
    iconst_1,
    iconst_2,
    iconst_3,
    iconst_4,
    iconst_5,
    lconst_0,
    lconst_1,
    fconst_0,
    fconst_1,
    fconst_2,
    dconst_0,
    dconst_1,
    bipush,
    sipush,
    ldc,
    ldc_w,
    ldc2_w,
    iload,
    lload,
    fload,
    dload,
    aload,
    iload_0,
    iload_1,
    iload_2,
    iload_3,
    lload_0,
    lload_1,
    lload_2,
    lload_3,
    fload_0,
    fload_1,
    fload_2,
    fload_3,
    dload_0,
    dload_1,
    dload_2,
    dload_3,
    aload_0,
    aload_1,
    aload_2,
    aload_3,
    iaload,
    laload,
    faload,
    daload,
    aaload,
    baload,
    caload,
    saload,
    istore,
    lstore,
    fstore,
    dstore,
    astore,
    istore_0,
    istore_1,
    istore_2,
    istore_3,
    lstore_0,
    lstore_1,
    lstore_2,
    lstore_3,
    fstore_0,
    fstore_1,
    fstore_2,
    fstore_3,
    dstore_0,
    dstore_1,
    dstore_2,
    dstore_3,
    astore_0,
    astore_1,
    astore_2,
    astore_3,
    iastore,
    lastore,
    fastore,
    dastore,
    aastore,
    bastore,
    castore,
    sastore,
    pop,
    pop2,
    dup,
    dup_x1,
    dup_x2,
    dup2,
    dup2_x1,
    dup2_x2,
    swap,
    iadd,
    ladd,
    fadd,
    dadd,
    isub,
    lsub,
    fsub,
    dsub,
    imul,
    lmul,
    fmul,
    dmul,
    idiv,
    ldiv,
    fdiv,
    ddiv,
    irem,
    lrem,
    frem,
    drem,
    ineg,
    lneg,
    fneg,
    dneg,
    ishl,
    lshl,
    ishr,
    lshr,
    iushr,
    lushr,
    iand,
    land,
    ior,
    lor,
    ixor,
    lxor,
    iinc,
    i2l,
    i2f,
    i2d,
    l2i,
    l2f,
    l2d,
    f2i,
    f2l,
    f2d,
    d2i,
    d2l,
    d2f,
    i2b,
    i2c,
    i2s,
    lcmp,
    fcmpl,
    fcmpg,
    dcmpl,
    dcmpg,
    ifeq,
    ifne,
    iflt,
    ifge,
    ifgt,
    ifle,
    if_icmpeq,
    if_icmpne,
    if_icmplt,
    if_icmpge,
    if_icmpgt,
    if_icmple,
    if_acmpeq,
    if_acmpne,
    goto,
    jsr,
    ret,
    tableswitch,
    lookupswitch,
    ireturn,
    lreturn,
    freturn,
    dreturn,
    areturn,
    return_void,
    getstatic,
    putstatic,
    getfield,
    putfield,
    invokevirtual,
    invokespecial,
    invokestatic,
    invokeinterface,
    invokedynamic,
    new,
    newarray,
    anewarray,
    arraylength,
    athrow,
    checkcast,
    instanceof,
    monitorenter,
    monitorexit,
    wide,
    multianewarray,
    ifnull,
    ifnonnull,
    goto_w,
    jsr_w,
    breakpoint,
    impdep1,
    impdep2,
}

/// The byte of an opcode.
pub open spec fn opcode_byte(op: OpCode) -> u8 {
    match op {
        OpCode::nop => 0x00u8,
        OpCode::aconst_null => 0x01u8,
        OpCode::iconst_m1 => 0x02u8,
        OpCode::iconst_0 => 0x03u8,
        OpCode::iconst_1 => 0x04u8,
        OpCode::iconst_2 => 0x05u8,
        OpCode::iconst_3 => 0x06u8,
        OpCode::iconst_4 => 0x07u8,
        OpCode::iconst_5 => 0x08u8,
        OpCode::lconst_0 => 0x09u8,
        OpCode::lconst_1 => 0x0au8,
        OpCode::fconst_0 => 0x0bu8,
        OpCode::fconst_1 => 0x0cu8,
        OpCode::fconst_2 => 0x0du8,
        OpCode::dconst_0 => 0x0eu8,
        OpCode::dconst_1 => 0x0fu8,
        OpCode::bipush => 0x10u8,
        OpCode::sipush => 0x11u8,
        OpCode::ldc => 0x12u8,
        OpCode::ldc_w => 0x13u8,
        OpCode::ldc2_w => 0x14u8,
        OpCode::iload => 0x15u8,
        OpCode::lload => 0x16u8,
        OpCode::fload => 0x17u8,
        OpCode::dload => 0x18u8,
        OpCode::aload => 0x19u8,
        OpCode::iload_0 => 0x1au8,
        OpCode::iload_1 => 0x1bu8,
        OpCode::iload_2 => 0x1cu8,
        OpCode::iload_3 => 0x1du8,
        OpCode::lload_0 => 0x1eu8,
        OpCode::lload_1 => 0x1fu8,
        OpCode::lload_2 => 0x20u8,
        OpCode::lload_3 => 0x21u8,
        OpCode::fload_0 => 0x22u8,
        OpCode::fload_1 => 0x23u8,
        OpCode::fload_2 => 0x24u8,
        OpCode::fload_3 => 0x25u8,
        OpCode::dload_0 => 0x26u8,
        OpCode::dload_1 => 0x27u8,
        OpCode::dload_2 => 0x28u8,
        OpCode::dload_3 => 0x29u8,
        OpCode::aload_0 => 0x2au8,
        OpCode::aload_1 => 0x2bu8,
        OpCode::aload_2 => 0x2cu8,
        OpCode::aload_3 => 0x2du8,
        OpCode::iaload => 0x2eu8,
        OpCode::laload => 0x2fu8,
        OpCode::faload => 0x30u8,
        OpCode::daload => 0x31u8,
        OpCode::aaload => 0x32u8,
        OpCode::baload => 0x33u8,
        OpCode::caload => 0x34u8,
        OpCode::saload => 0x35u8,
        OpCode::istore => 0x36u8,
        OpCode::lstore => 0x37u8,
        OpCode::fstore => 0x38u8,
        OpCode::dstore => 0x39u8,
        OpCode::astore => 0x3au8,
        OpCode::istore_0 => 0x3bu8,
        OpCode::istore_1 => 0x3cu8,
        OpCode::istore_2 => 0x3du8,
        OpCode::istore_3 => 0x3eu8,
        OpCode::lstore_0 => 0x3fu8,
        OpCode::lstore_1 => 0x40u8,
        OpCode::lstore_2 => 0x41u8,
        OpCode::lstore_3 => 0x42u8,
        OpCode::fstore_0 => 0x43u8,
        OpCode::fstore_1 => 0x44u8,
        OpCode::fstore_2 => 0x45u8,
        OpCode::fstore_3 => 0x46u8,
        OpCode::dstore_0 => 0x47u8,
        OpCode::dstore_1 => 0x48u8,
        OpCode::dstore_2 => 0x49u8,
        OpCode::dstore_3 => 0x4au8,
        OpCode::astore_0 => 0x4bu8,
        OpCode::astore_1 => 0x4cu8,
        OpCode::astore_2 => 0x4du8,
        OpCode::astore_3 => 0x4eu8,
        OpCode::iastore => 0x4fu8,
        OpCode::lastore => 0x50u8,
        OpCode::fastore => 0x51u8,
        OpCode::dastore => 0x52u8,
        OpCode::aastore => 0x53u8,
        OpCode::bastore => 0x54u8,
        OpCode::castore => 0x55u8,
        OpCode::sastore => 0x56u8,
        OpCode::pop => 0x57u8,
        OpCode::pop2 => 0x58u8,
        OpCode::dup => 0x59u8,
        OpCode::dup_x1 => 0x5au8,
        OpCode::dup_x2 => 0x5bu8,
        OpCode::dup2 => 0x5cu8,
        OpCode::dup2_x1 => 0x5du8,
        OpCode::dup2_x2 => 0x5eu8,
        OpCode::swap => 0x5fu8,
        OpCode::iadd => 0x60u8,
        OpCode::ladd => 0x61u8,
        OpCode::fadd => 0x62u8,
        OpCode::dadd => 0x63u8,
        OpCode::isub => 0x64u8,
        OpCode::lsub => 0x65u8,
        OpCode::fsub => 0x66u8,
        OpCode::dsub => 0x67u8,
        OpCode::imul => 0x68u8,
        OpCode::lmul => 0x69u8,
        OpCode::fmul => 0x6au8,
        OpCode::dmul => 0x6bu8,
        OpCode::idiv => 0x6cu8,
        OpCode::ldiv => 0x6du8,
        OpCode::fdiv => 0x6eu8,
        OpCode::ddiv => 0x6fu8,
        OpCode::irem => 0x70u8,
        OpCode::lrem => 0x71u8,
        OpCode::frem => 0x72u8,
        OpCode::drem => 0x73u8,
        OpCode::ineg => 0x74u8,
        OpCode::lneg => 0x75u8,
        OpCode::fneg => 0x76u8,
        OpCode::dneg => 0x77u8,
        OpCode::ishl => 0x78u8,
        OpCode::lshl => 0x79u8,
        OpCode::ishr => 0x7au8,
        OpCode::lshr => 0x7bu8,
        OpCode::iushr => 0x7cu8,
        OpCode::lushr => 0x7du8,
        OpCode::iand => 0x7eu8,
        OpCode::land => 0x7fu8,
        OpCode::ior => 0x80u8,
        OpCode::lor => 0x81u8,
        OpCode::ixor => 0x82u8,
        OpCode::lxor => 0x83u8,
        OpCode::iinc => 0x84u8,
        OpCode::i2l => 0x85u8,
        OpCode::i2f => 0x86u8,
        OpCode::i2d => 0x87u8,
        OpCode::l2i => 0x88u8,
        OpCode::l2f => 0x89u8,
        OpCode::l2d => 0x8au8,
        OpCode::f2i => 0x8bu8,
        OpCode::f2l => 0x8cu8,
        OpCode::f2d => 0x8du8,
        OpCode::d2i => 0x8eu8,
        OpCode::d2l => 0x8fu8,
        OpCode::d2f => 0x90u8,
        OpCode::i2b => 0x91u8,
        OpCode::i2c => 0x92u8,
        OpCode::i2s => 0x93u8,
        OpCode::lcmp => 0x94u8,
        OpCode::fcmpl => 0x95u8,
        OpCode::fcmpg => 0x96u8,
        OpCode::dcmpl => 0x97u8,
        OpCode::dcmpg => 0x98u8,
        OpCode::ifeq => 0x99u8,
        OpCode::ifne => 0x9au8,
        OpCode::iflt => 0x9bu8,
        OpCode::ifge => 0x9cu8,
        OpCode::ifgt => 0x9du8,
        OpCode::ifle => 0x9eu8,
        OpCode::if_icmpeq => 0x9fu8,
        OpCode::if_icmpne => 0xa0u8,
        OpCode::if_icmplt => 0xa1u8,
        OpCode::if_icmpge => 0xa2u8,
        OpCode::if_icmpgt => 0xa3u8,
        OpCode::if_icmple => 0xa4u8,
        OpCode::if_acmpeq => 0xa5u8,
        OpCode::if_acmpne => 0xa6u8,
        OpCode::goto => 0xa7u8,
        OpCode::jsr => 0xa8u8,
        OpCode::ret => 0xa9u8,
        OpCode::tableswitch => 0xaau8,
        OpCode::lookupswitch => 0xabu8,
        OpCode::ireturn => 0xacu8,
        OpCode::lreturn => 0xadu8,
        OpCode::freturn => 0xaeu8,
        OpCode::dreturn => 0xafu8,
        OpCode::areturn => 0xb0u8,
        OpCode::return_void => 0xb1u8,
        OpCode::getstatic => 0xb2u8,
        OpCode::putstatic => 0xb3u8,
        OpCode::getfield => 0xb4u8,
        OpCode::putfield => 0xb5u8,
        OpCode::invokevirtual => 0xb6u8,
        OpCode::invokespecial => 0xb7u8,
        OpCode::invokestatic => 0xb8u8,
        OpCode::invokeinterface => 0xb9u8,
        OpCode::invokedynamic => 0xbau8,
        OpCode::new => 0xbbu8,
        OpCode::newarray => 0xbcu8,
        OpCode::anewarray => 0xbdu8,
        OpCode::arraylength => 0xbeu8,
        OpCode::athrow => 0xbfu8,
        OpCode::checkcast => 0xc0u8,
        OpCode::instanceof => 0xc1u8,
        OpCode::monitorenter => 0xc2u8,
        OpCode::monitorexit => 0xc3u8,
        OpCode::wide => 0xc4u8,
        OpCode::multianewarray => 0xc5u8,
        OpCode::ifnull => 0xc6u8,
        OpCode::ifnonnull => 0xc7u8,
        OpCode::goto_w => 0xc8u8,
        OpCode::jsr_w => 0xc9u8,
        OpCode::breakpoint => 0xcau8,
        OpCode::impdep1 => 0xfeu8,
        OpCode::impdep2 => 0xffu8,
    }
}

/// The opcode of a byte, if the byte is one.
pub open spec fn opcode_of_byte(b: u8) -> Option<OpCode> {
    if b == 0x00u8 {
        Some(OpCode::nop)
    } else if b == 0x01u8 {
        Some(OpCode::aconst_null)
    } else if b == 0x02u8 {
        Some(OpCode::iconst_m1)
    } else if b == 0x03u8 {
        Some(OpCode::iconst_0)
    } else if b == 0x04u8 {
        Some(OpCode::iconst_1)
    } else if b == 0x05u8 {
        Some(OpCode::iconst_2)
    } else if b == 0x06u8 {
        Some(OpCode::iconst_3)
    } else if b == 0x07u8 {
        Some(OpCode::iconst_4)
    } else if b == 0x08u8 {
        Some(OpCode::iconst_5)
    } else if b == 0x09u8 {
        Some(OpCode::lconst_0)
    } else if b == 0x0au8 {
        Some(OpCode::lconst_1)
    } else if b == 0x0bu8 {
        Some(OpCode::fconst_0)
    } else if b == 0x0cu8 {
        Some(OpCode::fconst_1)
    } else if b == 0x0du8 {
        Some(OpCode::fconst_2)
    } else if b == 0x0eu8 {
        Some(OpCode::dconst_0)
    } else if b == 0x0fu8 {
        Some(OpCode::dconst_1)
    } else if b == 0x10u8 {
        Some(OpCode::bipush)
    } else if b == 0x11u8 {
        Some(OpCode::sipush)
    } else if b == 0x12u8 {
        Some(OpCode::ldc)
    } else if b == 0x13u8 {
        Some(OpCode::ldc_w)
    } else if b == 0x14u8 {
        Some(OpCode::ldc2_w)
    } else if b == 0x15u8 {
        Some(OpCode::iload)
    } else if b == 0x16u8 {
        Some(OpCode::lload)
    } else if b == 0x17u8 {
        Some(OpCode::fload)
    } else if b == 0x18u8 {
        Some(OpCode::dload)
    } else if b == 0x19u8 {
        Some(OpCode::aload)
    } else if b == 0x1au8 {
        Some(OpCode::iload_0)
    } else if b == 0x1bu8 {
        Some(OpCode::iload_1)
    } else if b == 0x1cu8 {
        Some(OpCode::iload_2)
    } else if b == 0x1du8 {
        Some(OpCode::iload_3)
    } else if b == 0x1eu8 {
        Some(OpCode::lload_0)
    } else if b == 0x1fu8 {
        Some(OpCode::lload_1)
    } else if b == 0x20u8 {
        Some(OpCode::lload_2)
    } else if b == 0x21u8 {
        Some(OpCode::lload_3)
    } else if b == 0x22u8 {
        Some(OpCode::fload_0)
    } else if b == 0x23u8 {
        Some(OpCode::fload_1)
    } else if b == 0x24u8 {
        Some(OpCode::fload_2)
    } else if b == 0x25u8 {
        Some(OpCode::fload_3)
    } else if b == 0x26u8 {
        Some(OpCode::dload_0)
    } else if b == 0x27u8 {
        Some(OpCode::dload_1)
    } else if b == 0x28u8 {
        Some(OpCode::dload_2)
    } else if b == 0x29u8 {
        Some(OpCode::dload_3)
    } else if b == 0x2au8 {
        Some(OpCode::aload_0)
    } else if b == 0x2bu8 {
        Some(OpCode::aload_1)
    } else if b == 0x2cu8 {
        Some(OpCode::aload_2)
    } else if b == 0x2du8 {
        Some(OpCode::aload_3)
    } else if b == 0x2eu8 {
        Some(OpCode::iaload)
    } else if b == 0x2fu8 {
        Some(OpCode::laload)
    } else if b == 0x30u8 {
        Some(OpCode::faload)
    } else if b == 0x31u8 {
        Some(OpCode::daload)
    } else if b == 0x32u8 {
        Some(OpCode::aaload)
    } else if b == 0x33u8 {
        Some(OpCode::baload)
    } else if b == 0x34u8 {
        Some(OpCode::caload)
    } else if b == 0x35u8 {
        Some(OpCode::saload)
    } else if b == 0x36u8 {
        Some(OpCode::istore)
    } else if b == 0x37u8 {
        Some(OpCode::lstore)
    } else if b == 0x38u8 {
        Some(OpCode::fstore)
    } else if b == 0x39u8 {
        Some(OpCode::dstore)
    } else if b == 0x3au8 {
        Some(OpCode::astore)
    } else if b == 0x3bu8 {
        Some(OpCode::istore_0)
    } else if b == 0x3cu8 {
        Some(OpCode::istore_1)
    } else if b == 0x3du8 {
        Some(OpCode::istore_2)
    } else if b == 0x3eu8 {
        Some(OpCode::istore_3)
    } else if b == 0x3fu8 {
        Some(OpCode::lstore_0)
    } else if b == 0x40u8 {
        Some(OpCode::lstore_1)
    } else if b == 0x41u8 {
        Some(OpCode::lstore_2)
    } else if b == 0x42u8 {
        Some(OpCode::lstore_3)
    } else if b == 0x43u8 {
        Some(OpCode::fstore_0)
    } else if b == 0x44u8 {
        Some(OpCode::fstore_1)
    } else if b == 0x45u8 {
        Some(OpCode::fstore_2)
    } else if b == 0x46u8 {
        Some(OpCode::fstore_3)
    } else if b == 0x47u8 {
        Some(OpCode::dstore_0)
    } else if b == 0x48u8 {
        Some(OpCode::dstore_1)
    } else if b == 0x49u8 {
        Some(OpCode::dstore_2)
    } else if b == 0x4au8 {
        Some(OpCode::dstore_3)
    } else if b == 0x4bu8 {
        Some(OpCode::astore_0)
    } else if b == 0x4cu8 {
        Some(OpCode::astore_1)
    } else if b == 0x4du8 {
        Some(OpCode::astore_2)
    } else if b == 0x4eu8 {
        Some(OpCode::astore_3)
    } else if b == 0x4fu8 {
        Some(OpCode::iastore)
    } else if b == 0x50u8 {
        Some(OpCode::lastore)
    } else if b == 0x51u8 {
        Some(OpCode::fastore)
    } else if b == 0x52u8 {
        Some(OpCode::dastore)
    } else if b == 0x53u8 {
        Some(OpCode::aastore)
    } else if b == 0x54u8 {
        Some(OpCode::bastore)
    } else if b == 0x55u8 {
        Some(OpCode::castore)
    } else if b == 0x56u8 {
        Some(OpCode::sastore)
    } else if b == 0x57u8 {
        Some(OpCode::pop)
    } else if b == 0x58u8 {
        Some(OpCode::pop2)
    } else if b == 0x59u8 {
        Some(OpCode::dup)
    } else if b == 0x5au8 {
        Some(OpCode::dup_x1)
    } else if b == 0x5bu8 {
        Some(OpCode::dup_x2)
    } else if b == 0x5cu8 {
        Some(OpCode::dup2)
    } else if b == 0x5du8 {
        Some(OpCode::dup2_x1)
    } else if b == 0x5eu8 {
        Some(OpCode::dup2_x2)
    } else if b == 0x5fu8 {
        Some(OpCode::swap)
    } else if b == 0x60u8 {
        Some(OpCode::iadd)
    } else if b == 0x61u8 {
        Some(OpCode::ladd)
    } else if b == 0x62u8 {
        Some(OpCode::fadd)
    } else if b == 0x63u8 {
        Some(OpCode::dadd)
    } else if b == 0x64u8 {
        Some(OpCode::isub)
    } else if b == 0x65u8 {
        Some(OpCode::lsub)
    } else if b == 0x66u8 {
        Some(OpCode::fsub)
    } else if b == 0x67u8 {
        Some(OpCode::dsub)
    } else if b == 0x68u8 {
        Some(OpCode::imul)
    } else if b == 0x69u8 {
        Some(OpCode::lmul)
    } else if b == 0x6au8 {
        Some(OpCode::fmul)
    } else if b == 0x6bu8 {
        Some(OpCode::dmul)
    } else if b == 0x6cu8 {
        Some(OpCode::idiv)
    } else if b == 0x6du8 {
        Some(OpCode::ldiv)
    } else if b == 0x6eu8 {
        Some(OpCode::fdiv)
    } else if b == 0x6fu8 {
        Some(OpCode::ddiv)
    } else if b == 0x70u8 {
        Some(OpCode::irem)
    } else if b == 0x71u8 {
        Some(OpCode::lrem)
    } else if b == 0x72u8 {
        Some(OpCode::frem)
    } else if b == 0x73u8 {
        Some(OpCode::drem)
    } else if b == 0x74u8 {
        Some(OpCode::ineg)
    } else if b == 0x75u8 {
        Some(OpCode::lneg)
    } else if b == 0x76u8 {
        Some(OpCode::fneg)
    } else if b == 0x77u8 {
        Some(OpCode::dneg)
    } else if b == 0x78u8 {
        Some(OpCode::ishl)
    } else if b == 0x79u8 {
        Some(OpCode::lshl)
    } else if b == 0x7au8 {
        Some(OpCode::ishr)
    } else if b == 0x7bu8 {
        Some(OpCode::lshr)
    } else if b == 0x7cu8 {
        Some(OpCode::iushr)
    } else if b == 0x7du8 {
        Some(OpCode::lushr)
    } else if b == 0x7eu8 {
        Some(OpCode::iand)
    } else if b == 0x7fu8 {
        Some(OpCode::land)
    } else if b == 0x80u8 {
        Some(OpCode::ior)
    } else if b == 0x81u8 {
        Some(OpCode::lor)
    } else if b == 0x82u8 {
        Some(OpCode::ixor)
    } else if b == 0x83u8 {
        Some(OpCode::lxor)
    } else if b == 0x84u8 {
        Some(OpCode::iinc)
    } else if b == 0x85u8 {
        Some(OpCode::i2l)
    } else if b == 0x86u8 {
        Some(OpCode::i2f)
    } else if b == 0x87u8 {
        Some(OpCode::i2d)
    } else if b == 0x88u8 {
        Some(OpCode::l2i)
    } else if b == 0x89u8 {
        Some(OpCode::l2f)
    } else if b == 0x8au8 {
        Some(OpCode::l2d)
    } else if b == 0x8bu8 {
        Some(OpCode::f2i)
    } else if b == 0x8cu8 {
        Some(OpCode::f2l)
    } else if b == 0x8du8 {
        Some(OpCode::f2d)
    } else if b == 0x8eu8 {
        Some(OpCode::d2i)
    } else if b == 0x8fu8 {
        Some(OpCode::d2l)
    } else if b == 0x90u8 {
        Some(OpCode::d2f)
    } else if b == 0x91u8 {
        Some(OpCode::i2b)
    } else if b == 0x92u8 {
        Some(OpCode::i2c)
    } else if b == 0x93u8 {
        Some(OpCode::i2s)
    } else if b == 0x94u8 {
        Some(OpCode::lcmp)
    } else if b == 0x95u8 {
        Some(OpCode::fcmpl)
    } else if b == 0x96u8 {
        Some(OpCode::fcmpg)
    } else if b == 0x97u8 {
        Some(OpCode::dcmpl)
    } else if b == 0x98u8 {
        Some(OpCode::dcmpg)
    } else if b == 0x99u8 {
        Some(OpCode::ifeq)
    } else if b == 0x9au8 {
        Some(OpCode::ifne)
    } else if b == 0x9bu8 {
        Some(OpCode::iflt)
    } else if b == 0x9cu8 {
        Some(OpCode::ifge)
    } else if b == 0x9du8 {
        Some(OpCode::ifgt)
    } else if b == 0x9eu8 {
        Some(OpCode::ifle)
    } else if b == 0x9fu8 {
        Some(OpCode::if_icmpeq)
    } else if b == 0xa0u8 {
        Some(OpCode::if_icmpne)
    } else if b == 0xa1u8 {
        Some(OpCode::if_icmplt)
    } else if b == 0xa2u8 {
        Some(OpCode::if_icmpge)
    } else if b == 0xa3u8 {
        Some(OpCode::if_icmpgt)
    } else if b == 0xa4u8 {
        Some(OpCode::if_icmple)
    } else if b == 0xa5u8 {
        Some(OpCode::if_acmpeq)
    } else if b == 0xa6u8 {
        Some(OpCode::if_acmpne)
    } else if b == 0xa7u8 {
        Some(OpCode::goto)
    } else if b == 0xa8u8 {
        Some(OpCode::jsr)
    } else if b == 0xa9u8 {
        Some(OpCode::ret)
    } else if b == 0xaau8 {
        Some(OpCode::tableswitch)
    } else if b == 0xabu8 {
        Some(OpCode::lookupswitch)
    } else if b == 0xacu8 {
        Some(OpCode::ireturn)
    } else if b == 0xadu8 {
        Some(OpCode::lreturn)
    } else if b == 0xaeu8 {
        Some(OpCode::freturn)
    } else if b == 0xafu8 {
        Some(OpCode::dreturn)
    } else if b == 0xb0u8 {
        Some(OpCode::areturn)
    } else if b == 0xb1u8 {
        Some(OpCode::return_void)
    } else if b == 0xb2u8 {
        Some(OpCode::getstatic)
    } else if b == 0xb3u8 {
        Some(OpCode::putstatic)
    } else if b == 0xb4u8 {
        Some(OpCode::getfield)
    } else if b == 0xb5u8 {
        Some(OpCode::putfield)
    } else if b == 0xb6u8 {
        Some(OpCode::invokevirtual)
    } else if b == 0xb7u8 {
        Some(OpCode::invokespecial)
    } else if b == 0xb8u8 {
        Some(OpCode::invokestatic)
    } else if b == 0xb9u8 {
        Some(OpCode::invokeinterface)
    } else if b == 0xbau8 {
        Some(OpCode::invokedynamic)
    } else if b == 0xbbu8 {
        Some(OpCode::new)
    } else if b == 0xbcu8 {
        Some(OpCode::newarray)
    } else if b == 0xbdu8 {
        Some(OpCode::anewarray)
    } else if b == 0xbeu8 {
        Some(OpCode::arraylength)
    } else if b == 0xbfu8 {
        Some(OpCode::athrow)
    } else if b == 0xc0u8 {
        Some(OpCode::checkcast)
    } else if b == 0xc1u8 {
        Some(OpCode::instanceof)
    } else if b == 0xc2u8 {
        Some(OpCode::monitorenter)
    } else if b == 0xc3u8 {
        Some(OpCode::monitorexit)
    } else if b == 0xc4u8 {
        Some(OpCode::wide)
    } else if b == 0xc5u8 {
        Some(OpCode::multianewarray)
    } else if b == 0xc6u8 {
        Some(OpCode::ifnull)
    } else if b == 0xc7u8 {
        Some(OpCode::ifnonnull)
    } else if b == 0xc8u8 {
        Some(OpCode::goto_w)
    } else if b == 0xc9u8 {
        Some(OpCode::jsr_w)
    } else if b == 0xcau8 {
        Some(OpCode::breakpoint)
    } else if b == 0xfeu8 {
        Some(OpCode::impdep1)
    } else if b == 0xffu8 {
        Some(OpCode::impdep2)
    } else {
        None
    }
}

/// Whether the prefix `wide` may stand before an instruction of `op`.
pub open spec fn widenable(op: OpCode) -> bool {
    match op {
        OpCode::iload => true,
        OpCode::lload => true,
        OpCode::fload => true,
        OpCode::dload => true,
        OpCode::aload => true,
        OpCode::istore => true,
        OpCode::lstore => true,
        OpCode::fstore => true,
        OpCode::dstore => true,
        OpCode::astore => true,
        OpCode::ret => true,
        OpCode::iinc => true,
        _ => false,
    }
}

/// Whether the width of an instruction of `op` depends on where it stands
/// and on what it holds.
pub open spec fn is_switch(op: OpCode) -> bool {
    op == OpCode::tableswitch || op == OpCode::lookupswitch
}

/// The number of bytes that an instruction of `op` takes, its opcode
/// included, where it does not follow the prefix `wide`. For the two
/// switches this is the opcode alone.
pub open spec fn plain_width(op: OpCode) -> nat {
    match op {
        OpCode::bipush => 2nat,
        OpCode::sipush => 3nat,
        OpCode::ldc => 2nat,
        OpCode::ldc_w => 3nat,
        OpCode::ldc2_w => 3nat,
        OpCode::iload => 2nat,
        OpCode::lload => 2nat,
        OpCode::fload => 2nat,
        OpCode::dload => 2nat,
        OpCode::aload => 2nat,
        OpCode::istore => 2nat,
        OpCode::lstore => 2nat,
        OpCode::fstore => 2nat,
        OpCode::dstore => 2nat,
        OpCode::astore => 2nat,
        OpCode::iinc => 3nat,
        OpCode::ifeq => 3nat,
        OpCode::ifne => 3nat,
        OpCode::iflt => 3nat,
        OpCode::ifge => 3nat,
        OpCode::ifgt => 3nat,
        OpCode::ifle => 3nat,
        OpCode::if_icmpeq => 3nat,
        OpCode::if_icmpne => 3nat,
        OpCode::if_icmplt => 3nat,
        OpCode::if_icmpge => 3nat,
        OpCode::if_icmpgt => 3nat,
        OpCode::if_icmple => 3nat,
        OpCode::if_acmpeq => 3nat,
        OpCode::if_acmpne => 3nat,
        OpCode::goto => 3nat,
        OpCode::jsr => 3nat,
        OpCode::ret => 2nat,
        OpCode::getstatic => 3nat,
        OpCode::putstatic => 3nat,
        OpCode::getfield => 3nat,
        OpCode::putfield => 3nat,
        OpCode::invokevirtual => 3nat,
        OpCode::invokespecial => 3nat,
        OpCode::invokestatic => 3nat,
        OpCode::invokeinterface => 5nat,
        OpCode::invokedynamic => 5nat,
        OpCode::new => 3nat,
        OpCode::newarray => 2nat,
        OpCode::anewarray => 3nat,
        OpCode::checkcast => 3nat,
        OpCode::instanceof => 3nat,
        OpCode::multianewarray => 4nat,
        OpCode::ifnull => 3nat,
        OpCode::ifnonnull => 3nat,
        OpCode::goto_w => 5nat,
        OpCode::jsr_w => 5nat,
        _ => 1nat,
    }
}

/// The number of bytes that an instruction of `op` takes, its opcode
/// included. After the prefix `wide` the index of a local variable takes
/// two bytes in place of one, and so does the constant of `iinc`.
pub open spec fn instruction_width(op: OpCode, wide: bool) -> nat {
    if wide && widenable(op) {
        if op == OpCode::iinc {
            5nat
        } else {
            3nat
        }
    } else {
        plain_width(op)
    }
}

impl OpCode {
    /// The opcode of a byte, if the byte is one.
    pub fn from_byte(b: u8) -> (op: Option<OpCode>)
        ensures
            op == opcode_of_byte(b),
            op matches Some(o) ==> opcode_byte(o) == b,
    {
        match b {
            0x00 => Some(OpCode::nop),
            0x01 => Some(OpCode::aconst_null),
            0x02 => Some(OpCode::iconst_m1),
            0x03 => Some(OpCode::iconst_0),
            0x04 => Some(OpCode::iconst_1),
            0x05 => Some(OpCode::iconst_2),
            0x06 => Some(OpCode::iconst_3),
            0x07 => Some(OpCode::iconst_4),
            0x08 => Some(OpCode::iconst_5),
            0x09 => Some(OpCode::lconst_0),
            0x0a => Some(OpCode::lconst_1),
            0x0b => Some(OpCode::fconst_0),
            0x0c => Some(OpCode::fconst_1),
            0x0d => Some(OpCode::fconst_2),
            0x0e => Some(OpCode::dconst_0),
            0x0f => Some(OpCode::dconst_1),
            0x10 => Some(OpCode::bipush),
            0x11 => Some(OpCode::sipush),
            0x12 => Some(OpCode::ldc),
            0x13 => Some(OpCode::ldc_w),
            0x14 => Some(OpCode::ldc2_w),
            0x15 => Some(OpCode::iload),
            0x16 => Some(OpCode::lload),
            0x17 => Some(OpCode::fload),
            0x18 => Some(OpCode::dload),
            0x19 => Some(OpCode::aload),
            0x1a => Some(OpCode::iload_0),
            0x1b => Some(OpCode::iload_1),
            0x1c => Some(OpCode::iload_2),
            0x1d => Some(OpCode::iload_3),
            0x1e => Some(OpCode::lload_0),
            0x1f => Some(OpCode::lload_1),
            0x20 => Some(OpCode::lload_2),
            0x21 => Some(OpCode::lload_3),
            0x22 => Some(OpCode::fload_0),
            0x23 => Some(OpCode::fload_1),
            0x24 => Some(OpCode::fload_2),
            0x25 => Some(OpCode::fload_3),
            0x26 => Some(OpCode::dload_0),
            0x27 => Some(OpCode::dload_1),
            0x28 => Some(OpCode::dload_2),
            0x29 => Some(OpCode::dload_3),
            0x2a => Some(OpCode::aload_0),
            0x2b => Some(OpCode::aload_1),
            0x2c => Some(OpCode::aload_2),
            0x2d => Some(OpCode::aload_3),
            0x2e => Some(OpCode::iaload),
            0x2f => Some(OpCode::laload),
            0x30 => Some(OpCode::faload),
            0x31 => Some(OpCode::daload),
            0x32 => Some(OpCode::aaload),
            0x33 => Some(OpCode::baload),
            0x34 => Some(OpCode::caload),
            0x35 => Some(OpCode::saload),
            0x36 => Some(OpCode::istore),
            0x37 => Some(OpCode::lstore),
            0x38 => Some(OpCode::fstore),
            0x39 => Some(OpCode::dstore),
            0x3a => Some(OpCode::astore),
            0x3b => Some(OpCode::istore_0),
            0x3c => Some(OpCode::istore_1),
            0x3d => Some(OpCode::istore_2),
            0x3e => Some(OpCode::istore_3),
            0x3f => Some(OpCode::lstore_0),
            0x40 => Some(OpCode::lstore_1),
            0x41 => Some(OpCode::lstore_2),
            0x42 => Some(OpCode::lstore_3),
            0x43 => Some(OpCode::fstore_0),
            0x44 => Some(OpCode::fstore_1),
            0x45 => Some(OpCode::fstore_2),
            0x46 => Some(OpCode::fstore_3),
            0x47 => Some(OpCode::dstore_0),
            0x48 => Some(OpCode::dstore_1),
            0x49 => Some(OpCode::dstore_2),
            0x4a => Some(OpCode::dstore_3),
            0x4b => Some(OpCode::astore_0),
            0x4c => Some(OpCode::astore_1),
            0x4d => Some(OpCode::astore_2),
            0x4e => Some(OpCode::astore_3),
            0x4f => Some(OpCode::iastore),
            0x50 => Some(OpCode::lastore),
            0x51 => Some(OpCode::fastore),
            0x52 => Some(OpCode::dastore),
            0x53 => Some(OpCode::aastore),
            0x54 => Some(OpCode::bastore),
            0x55 => Some(OpCode::castore),
            0x56 => Some(OpCode::sastore),
            0x57 => Some(OpCode::pop),
            0x58 => Some(OpCode::pop2),
            0x59 => Some(OpCode::dup),
            0x5a => Some(OpCode::dup_x1),
            0x5b => Some(OpCode::dup_x2),
            0x5c => Some(OpCode::dup2),
            0x5d => Some(OpCode::dup2_x1),
            0x5e => Some(OpCode::dup2_x2),
            0x5f => Some(OpCode::swap),
            0x60 => Some(OpCode::iadd),
            0x61 => Some(OpCode::ladd),
            0x62 => Some(OpCode::fadd),
            0x63 => Some(OpCode::dadd),
            0x64 => Some(OpCode::isub),
            0x65 => Some(OpCode::lsub),
            0x66 => Some(OpCode::fsub),
            0x67 => Some(OpCode::dsub),
            0x68 => Some(OpCode::imul),
            0x69 => Some(OpCode::lmul),
            0x6a => Some(OpCode::fmul),
            0x6b => Some(OpCode::dmul),
            0x6c => Some(OpCode::idiv),
            0x6d => Some(OpCode::ldiv),
            0x6e => Some(OpCode::fdiv),
            0x6f => Some(OpCode::ddiv),
            0x70 => Some(OpCode::irem),
            0x71 => Some(OpCode::lrem),
            0x72 => Some(OpCode::frem),
            0x73 => Some(OpCode::drem),
            0x74 => Some(OpCode::ineg),
            0x75 => Some(OpCode::lneg),
            0x76 => Some(OpCode::fneg),
            0x77 => Some(OpCode::dneg),
            0x78 => Some(OpCode::ishl),
            0x79 => Some(OpCode::lshl),
            0x7a => Some(OpCode::ishr),
            0x7b => Some(OpCode::lshr),
            0x7c => Some(OpCode::iushr),
            0x7d => Some(OpCode::lushr),
            0x7e => Some(OpCode::iand),
            0x7f => Some(OpCode::land),
            0x80 => Some(OpCode::ior),
            0x81 => Some(OpCode::lor),
            0x82 => Some(OpCode::ixor),
            0x83 => Some(OpCode::lxor),
            0x84 => Some(OpCode::iinc),
            0x85 => Some(OpCode::i2l),
            0x86 => Some(OpCode::i2f),
            0x87 => Some(OpCode::i2d),
            0x88 => Some(OpCode::l2i),
            0x89 => Some(OpCode::l2f),
            0x8a => Some(OpCode::l2d),
            0x8b => Some(OpCode::f2i),
            0x8c => Some(OpCode::f2l),
            0x8d => Some(OpCode::f2d),
            0x8e => Some(OpCode::d2i),
            0x8f => Some(OpCode::d2l),
            0x90 => Some(OpCode::d2f),
            0x91 => Some(OpCode::i2b),
            0x92 => Some(OpCode::i2c),
            0x93 => Some(OpCode::i2s),
            0x94 => Some(OpCode::lcmp),
            0x95 => Some(OpCode::fcmpl),
            0x96 => Some(OpCode::fcmpg),
            0x97 => Some(OpCode::dcmpl),
            0x98 => Some(OpCode::dcmpg),
            0x99 => Some(OpCode::ifeq),
            0x9a => Some(OpCode::ifne),
            0x9b => Some(OpCode::iflt),
            0x9c => Some(OpCode::ifge),
            0x9d => Some(OpCode::ifgt),
            0x9e => Some(OpCode::ifle),
            0x9f => Some(OpCode::if_icmpeq),
            0xa0 => Some(OpCode::if_icmpne),
            0xa1 => Some(OpCode::if_icmplt),
            0xa2 => Some(OpCode::if_icmpge),
            0xa3 => Some(OpCode::if_icmpgt),
            0xa4 => Some(OpCode::if_icmple),
            0xa5 => Some(OpCode::if_acmpeq),
            0xa6 => Some(OpCode::if_acmpne),
            0xa7 => Some(OpCode::goto),
            0xa8 => Some(OpCode::jsr),
            0xa9 => Some(OpCode::ret),
            0xaa => Some(OpCode::tableswitch),
            0xab => Some(OpCode::lookupswitch),
            0xac => Some(OpCode::ireturn),
            0xad => Some(OpCode::lreturn),
            0xae => Some(OpCode::freturn),
            0xaf => Some(OpCode::dreturn),
            0xb0 => Some(OpCode::areturn),
            0xb1 => Some(OpCode::return_void),
            0xb2 => Some(OpCode::getstatic),
            0xb3 => Some(OpCode::putstatic),
            0xb4 => Some(OpCode::getfield),
            0xb5 => Some(OpCode::putfield),
            0xb6 => Some(OpCode::invokevirtual),
            0xb7 => Some(OpCode::invokespecial),
            0xb8 => Some(OpCode::invokestatic),
            0xb9 => Some(OpCode::invokeinterface),
            0xba => Some(OpCode::invokedynamic),
            0xbb => Some(OpCode::new),
            0xbc => Some(OpCode::newarray),
            0xbd => Some(OpCode::anewarray),
            0xbe => Some(OpCode::arraylength),
            0xbf => Some(OpCode::athrow),
            0xc0 => Some(OpCode::checkcast),
            0xc1 => Some(OpCode::instanceof),
            0xc2 => Some(OpCode::monitorenter),
            0xc3 => Some(OpCode::monitorexit),
            0xc4 => Some(OpCode::wide),
            0xc5 => Some(OpCode::multianewarray),
            0xc6 => Some(OpCode::ifnull),
            0xc7 => Some(OpCode::ifnonnull),
            0xc8 => Some(OpCode::goto_w),
            0xc9 => Some(OpCode::jsr_w),
            0xca => Some(OpCode::breakpoint),
            0xfe => Some(OpCode::impdep1),
            0xff => Some(OpCode::impdep2),
            _ => None,
        }
    }

    /// The byte of this opcode.
    pub fn to_byte(self) -> (b: u8)
        ensures
            b == opcode_byte(self),
            opcode_of_byte(b) == Some(self),
    {
        match self {
            OpCode::nop => 0x00,
            OpCode::aconst_null => 0x01,
            OpCode::iconst_m1 => 0x02,
            OpCode::iconst_0 => 0x03,
            OpCode::iconst_1 => 0x04,
            OpCode::iconst_2 => 0x05,
            OpCode::iconst_3 => 0x06,
            OpCode::iconst_4 => 0x07,
            OpCode::iconst_5 => 0x08,
            OpCode::lconst_0 => 0x09,
            OpCode::lconst_1 => 0x0a,
            OpCode::fconst_0 => 0x0b,
            OpCode::fconst_1 => 0x0c,
            OpCode::fconst_2 => 0x0d,
            OpCode::dconst_0 => 0x0e,
            OpCode::dconst_1 => 0x0f,
            OpCode::bipush => 0x10,
            OpCode::sipush => 0x11,
            OpCode::ldc => 0x12,
            OpCode::ldc_w => 0x13,
            OpCode::ldc2_w => 0x14,
            OpCode::iload => 0x15,
            OpCode::lload => 0x16,
            OpCode::fload => 0x17,
            OpCode::dload => 0x18,
            OpCode::aload => 0x19,
            OpCode::iload_0 => 0x1a,
            OpCode::iload_1 => 0x1b,
            OpCode::iload_2 => 0x1c,
            OpCode::iload_3 => 0x1d,
            OpCode::lload_0 => 0x1e,
            OpCode::lload_1 => 0x1f,
            OpCode::lload_2 => 0x20,
            OpCode::lload_3 => 0x21,
            OpCode::fload_0 => 0x22,
            OpCode::fload_1 => 0x23,
            OpCode::fload_2 => 0x24,
            OpCode::fload_3 => 0x25,
            OpCode::dload_0 => 0x26,
            OpCode::dload_1 => 0x27,
            OpCode::dload_2 => 0x28,
            OpCode::dload_3 => 0x29,
            OpCode::aload_0 => 0x2a,
            OpCode::aload_1 => 0x2b,
            OpCode::aload_2 => 0x2c,
            OpCode::aload_3 => 0x2d,
            OpCode::iaload => 0x2e,
            OpCode::laload => 0x2f,
            OpCode::faload => 0x30,
            OpCode::daload => 0x31,
            OpCode::aaload => 0x32,
            OpCode::baload => 0x33,
            OpCode::caload => 0x34,
            OpCode::saload => 0x35,
            OpCode::istore => 0x36,
            OpCode::lstore => 0x37,
            OpCode::fstore => 0x38,
            OpCode::dstore => 0x39,
            OpCode::astore => 0x3a,
            OpCode::istore_0 => 0x3b,
            OpCode::istore_1 => 0x3c,
            OpCode::istore_2 => 0x3d,
            OpCode::istore_3 => 0x3e,
            OpCode::lstore_0 => 0x3f,
            OpCode::lstore_1 => 0x40,
            OpCode::lstore_2 => 0x41,
            OpCode::lstore_3 => 0x42,
            OpCode::fstore_0 => 0x43,
            OpCode::fstore_1 => 0x44,
            OpCode::fstore_2 => 0x45,
            OpCode::fstore_3 => 0x46,
            OpCode::dstore_0 => 0x47,
            OpCode::dstore_1 => 0x48,
            OpCode::dstore_2 => 0x49,
            OpCode::dstore_3 => 0x4a,
            OpCode::astore_0 => 0x4b,
            OpCode::astore_1 => 0x4c,
            OpCode::astore_2 => 0x4d,
            OpCode::astore_3 => 0x4e,
            OpCode::iastore => 0x4f,
            OpCode::lastore => 0x50,
            OpCode::fastore => 0x51,
            OpCode::dastore => 0x52,
            OpCode::aastore => 0x53,
            OpCode::bastore => 0x54,
            OpCode::castore => 0x55,
            OpCode::sastore => 0x56,
            OpCode::pop => 0x57,
            OpCode::pop2 => 0x58,
            OpCode::dup => 0x59,
            OpCode::dup_x1 => 0x5a,
            OpCode::dup_x2 => 0x5b,
            OpCode::dup2 => 0x5c,
            OpCode::dup2_x1 => 0x5d,
            OpCode::dup2_x2 => 0x5e,
            OpCode::swap => 0x5f,
            OpCode::iadd => 0x60,
            OpCode::ladd => 0x61,
            OpCode::fadd => 0x62,
            OpCode::dadd => 0x63,
            OpCode::isub => 0x64,
            OpCode::lsub => 0x65,
            OpCode::fsub => 0x66,
            OpCode::dsub => 0x67,
            OpCode::imul => 0x68,
            OpCode::lmul => 0x69,
            OpCode::fmul => 0x6a,
            OpCode::dmul => 0x6b,
            OpCode::idiv => 0x6c,
            OpCode::ldiv => 0x6d,
            OpCode::fdiv => 0x6e,
            OpCode::ddiv => 0x6f,
            OpCode::irem => 0x70,
            OpCode::lrem => 0x71,
            OpCode::frem => 0x72,
            OpCode::drem => 0x73,
            OpCode::ineg => 0x74,
            OpCode::lneg => 0x75,
            OpCode::fneg => 0x76,
            OpCode::dneg => 0x77,
            OpCode::ishl => 0x78,
            OpCode::lshl => 0x79,
            OpCode::ishr => 0x7a,
            OpCode::lshr => 0x7b,
            OpCode::iushr => 0x7c,
            OpCode::lushr => 0x7d,
            OpCode::iand => 0x7e,
            OpCode::land => 0x7f,
            OpCode::ior => 0x80,
            OpCode::lor => 0x81,
            OpCode::ixor => 0x82,
            OpCode::lxor => 0x83,
            OpCode::iinc => 0x84,
            OpCode::i2l => 0x85,
            OpCode::i2f => 0x86,
            OpCode::i2d => 0x87,
            OpCode::l2i => 0x88,
            OpCode::l2f => 0x89,
            OpCode::l2d => 0x8a,
            OpCode::f2i => 0x8b,
            OpCode::f2l => 0x8c,
            OpCode::f2d => 0x8d,
            OpCode::d2i => 0x8e,
            OpCode::d2l => 0x8f,
            OpCode::d2f => 0x90,
            OpCode::i2b => 0x91,
            OpCode::i2c => 0x92,
            OpCode::i2s => 0x93,
            OpCode::lcmp => 0x94,
            OpCode::fcmpl => 0x95,
            OpCode::fcmpg => 0x96,
            OpCode::dcmpl => 0x97,
            OpCode::dcmpg => 0x98,
            OpCode::ifeq => 0x99,
            OpCode::ifne => 0x9a,
            OpCode::iflt => 0x9b,
            OpCode::ifge => 0x9c,
            OpCode::ifgt => 0x9d,
            OpCode::ifle => 0x9e,
            OpCode::if_icmpeq => 0x9f,
            OpCode::if_icmpne => 0xa0,
            OpCode::if_icmplt => 0xa1,
            OpCode::if_icmpge => 0xa2,
            OpCode::if_icmpgt => 0xa3,
            OpCode::if_icmple => 0xa4,
            OpCode::if_acmpeq => 0xa5,
            OpCode::if_acmpne => 0xa6,
            OpCode::goto => 0xa7,
            OpCode::jsr => 0xa8,
            OpCode::ret => 0xa9,
            OpCode::tableswitch => 0xaa,
            OpCode::lookupswitch => 0xab,
            OpCode::ireturn => 0xac,
            OpCode::lreturn => 0xad,
            OpCode::freturn => 0xae,
            OpCode::dreturn => 0xaf,
            OpCode::areturn => 0xb0,
            OpCode::return_void => 0xb1,
            OpCode::getstatic => 0xb2,
            OpCode::putstatic => 0xb3,
            OpCode::getfield => 0xb4,
            OpCode::putfield => 0xb5,
            OpCode::invokevirtual => 0xb6,
            OpCode::invokespecial => 0xb7,
            OpCode::invokestatic => 0xb8,
            OpCode::invokeinterface => 0xb9,
            OpCode::invokedynamic => 0xba,
            OpCode::new => 0xbb,
            OpCode::newarray => 0xbc,
            OpCode::anewarray => 0xbd,
            OpCode::arraylength => 0xbe,
            OpCode::athrow => 0xbf,
            OpCode::checkcast => 0xc0,
            OpCode::instanceof => 0xc1,
            OpCode::monitorenter => 0xc2,
            OpCode::monitorexit => 0xc3,
            OpCode::wide => 0xc4,
            OpCode::multianewarray => 0xc5,
            OpCode::ifnull => 0xc6,
            OpCode::ifnonnull => 0xc7,
            OpCode::goto_w => 0xc8,
            OpCode::jsr_w => 0xc9,
            OpCode::breakpoint => 0xca,
            OpCode::impdep1 => 0xfe,
            OpCode::impdep2 => 0xff,
        }
    }

    /// The number of bytes that an instruction of this opcode takes.
    pub fn width(self, wide: bool) -> (w: usize)
        ensures
            w == instruction_width(self, wide),
            1 <= w <= 5,
    {
        let widens = match self {
            OpCode::iload => true,
            OpCode::lload => true,
            OpCode::fload => true,
            OpCode::dload => true,
            OpCode::aload => true,
            OpCode::istore => true,
            OpCode::lstore => true,
            OpCode::fstore => true,
            OpCode::dstore => true,
            OpCode::astore => true,
            OpCode::ret => true,
            OpCode::iinc => true,
            _ => false,
        };
        if wide && widens {
            match self {
                OpCode::iinc => 5,
                _ => 3,
            }
        } else {
            match self {
                OpCode::bipush => 2,
                OpCode::sipush => 3,
                OpCode::ldc => 2,
                OpCode::ldc_w => 3,
                OpCode::ldc2_w => 3,
                OpCode::iload => 2,
                OpCode::lload => 2,
                OpCode::fload => 2,
                OpCode::dload => 2,
                OpCode::aload => 2,
                OpCode::istore => 2,
                OpCode::lstore => 2,
                OpCode::fstore => 2,
                OpCode::dstore => 2,
                OpCode::astore => 2,
                OpCode::iinc => 3,
                OpCode::ifeq => 3,
                OpCode::ifne => 3,
                OpCode::iflt => 3,
                OpCode::ifge => 3,
                OpCode::ifgt => 3,
                OpCode::ifle => 3,
                OpCode::if_icmpeq => 3,
                OpCode::if_icmpne => 3,
                OpCode::if_icmplt => 3,
                OpCode::if_icmpge => 3,
                OpCode::if_icmpgt => 3,
                OpCode::if_icmple => 3,
                OpCode::if_acmpeq => 3,
                OpCode::if_acmpne => 3,
                OpCode::goto => 3,
                OpCode::jsr => 3,
                OpCode::ret => 2,
                OpCode::getstatic => 3,
                OpCode::putstatic => 3,
                OpCode::getfield => 3,
                OpCode::putfield => 3,
                OpCode::invokevirtual => 3,
                OpCode::invokespecial => 3,
                OpCode::invokestatic => 3,
                OpCode::invokeinterface => 5,
                OpCode::invokedynamic => 5,
                OpCode::new => 3,
                OpCode::newarray => 2,
                OpCode::anewarray => 3,
                OpCode::checkcast => 3,
                OpCode::instanceof => 3,
                OpCode::multianewarray => 4,
                OpCode::ifnull => 3,
                OpCode::ifnonnull => 3,
                OpCode::goto_w => 5,
                OpCode::jsr_w => 5,
                _ => 1,
            }
        }
    }

    /// The mnemonic of this opcode.
    pub fn mnemonic(self) -> (name: &'static str)
        ensures
            name == opcode_mnemonic(self),
    {
        match self {
            OpCode::nop => "nop",
            OpCode::aconst_null => "aconst_null",
            OpCode::iconst_m1 => "iconst_m1",
            OpCode::iconst_0 => "iconst_0",
            OpCode::iconst_1 => "iconst_1",
            OpCode::iconst_2 => "iconst_2",
            OpCode::iconst_3 => "iconst_3",
            OpCode::iconst_4 => "iconst_4",
            OpCode::iconst_5 => "iconst_5",
            OpCode::lconst_0 => "lconst_0",
            OpCode::lconst_1 => "lconst_1",
            OpCode::fconst_0 => "fconst_0",
            OpCode::fconst_1 => "fconst_1",
            OpCode::fconst_2 => "fconst_2",
            OpCode::dconst_0 => "dconst_0",
            OpCode::dconst_1 => "dconst_1",
            OpCode::bipush => "bipush",
            OpCode::sipush => "sipush",
            OpCode::ldc => "ldc",
            OpCode::ldc_w => "ldc_w",
            OpCode::ldc2_w => "ldc2_w",
            OpCode::iload => "iload",
            OpCode::lload => "lload",
            OpCode::fload => "fload",
            OpCode::dload => "dload",
            OpCode::aload => "aload",
            OpCode::iload_0 => "iload_0",
            OpCode::iload_1 => "iload_1",
            OpCode::iload_2 => "iload_2",
            OpCode::iload_3 => "iload_3",
            OpCode::lload_0 => "lload_0",
            OpCode::lload_1 => "lload_1",
            OpCode::lload_2 => "lload_2",
            OpCode::lload_3 => "lload_3",
            OpCode::fload_0 => "fload_0",
            OpCode::fload_1 => "fload_1",
            OpCode::fload_2 => "fload_2",
            OpCode::fload_3 => "fload_3",
            OpCode::dload_0 => "dload_0",
            OpCode::dload_1 => "dload_1",
            OpCode::dload_2 => "dload_2",
            OpCode::dload_3 => "dload_3",
            OpCode::aload_0 => "aload_0",
            OpCode::aload_1 => "aload_1",
            OpCode::aload_2 => "aload_2",
            OpCode::aload_3 => "aload_3",
            OpCode::iaload => "iaload",
            OpCode::laload => "laload",
            OpCode::faload => "faload",
            OpCode::daload => "daload",
            OpCode::aaload => "aaload",
            OpCode::baload => "baload",
            OpCode::caload => "caload",
            OpCode::saload => "saload",
            OpCode::istore => "istore",
            OpCode::lstore => "lstore",
            OpCode::fstore => "fstore",
            OpCode::dstore => "dstore",
            OpCode::astore => "astore",
            OpCode::istore_0 => "istore_0",
            OpCode::istore_1 => "istore_1",
            OpCode::istore_2 => "istore_2",
            OpCode::istore_3 => "istore_3",
            OpCode::lstore_0 => "lstore_0",
            OpCode::lstore_1 => "lstore_1",
            OpCode::lstore_2 => "lstore_2",
            OpCode::lstore_3 => "lstore_3",
            OpCode::fstore_0 => "fstore_0",
            OpCode::fstore_1 => "fstore_1",
            OpCode::fstore_2 => "fstore_2",
            OpCode::fstore_3 => "fstore_3",
            OpCode::dstore_0 => "dstore_0",
            OpCode::dstore_1 => "dstore_1",
            OpCode::dstore_2 => "dstore_2",
            OpCode::dstore_3 => "dstore_3",
            OpCode::astore_0 => "astore_0",
            OpCode::astore_1 => "astore_1",
            OpCode::astore_2 => "astore_2",
            OpCode::astore_3 => "astore_3",
            OpCode::iastore => "iastore",
            OpCode::lastore => "lastore",
            OpCode::fastore => "fastore",
            OpCode::dastore => "dastore",
            OpCode::aastore => "aastore",
            OpCode::bastore => "bastore",
            OpCode::castore => "castore",
            OpCode::sastore => "sastore",
            OpCode::pop => "pop",
            OpCode::pop2 => "pop2",
            OpCode::dup => "dup",
            OpCode::dup_x1 => "dup_x1",
            OpCode::dup_x2 => "dup_x2",
            OpCode::dup2 => "dup2",
            OpCode::dup2_x1 => "dup2_x1",
            OpCode::dup2_x2 => "dup2_x2",
            OpCode::swap => "swap",
            OpCode::iadd => "iadd",
            OpCode::ladd => "ladd",
            OpCode::fadd => "fadd",
            OpCode::dadd => "dadd",
            OpCode::isub => "isub",
            OpCode::lsub => "lsub",
            OpCode::fsub => "fsub",
            OpCode::dsub => "dsub",
            OpCode::imul => "imul",
            OpCode::lmul => "lmul",
            OpCode::fmul => "fmul",
            OpCode::dmul => "dmul",
            OpCode::idiv => "idiv",
            OpCode::ldiv => "ldiv",
            OpCode::fdiv => "fdiv",
            OpCode::ddiv => "ddiv",
            OpCode::irem => "irem",
            OpCode::lrem => "lrem",
            OpCode::frem => "frem",
            OpCode::drem => "drem",
            OpCode::ineg => "ineg",
            OpCode::lneg => "lneg",
            OpCode::fneg => "fneg",
            OpCode::dneg => "dneg",
            OpCode::ishl => "ishl",
            OpCode::lshl => "lshl",
            OpCode::ishr => "ishr",
            OpCode::lshr => "lshr",
            OpCode::iushr => "iushr",
            OpCode::lushr => "lushr",
            OpCode::iand => "iand",
            OpCode::land => "land",
            OpCode::ior => "ior",
            OpCode::lor => "lor",
            OpCode::ixor => "ixor",
            OpCode::lxor => "lxor",
            OpCode::iinc => "iinc",
            OpCode::i2l => "i2l",
            OpCode::i2f => "i2f",
            OpCode::i2d => "i2d",
            OpCode::l2i => "l2i",
            OpCode::l2f => "l2f",
            OpCode::l2d => "l2d",
            OpCode::f2i => "f2i",
            OpCode::f2l => "f2l",
            OpCode::f2d => "f2d",
            OpCode::d2i => "d2i",
            OpCode::d2l => "d2l",
            OpCode::d2f => "d2f",
            OpCode::i2b => "i2b",
            OpCode::i2c => "i2c",
            OpCode::i2s => "i2s",
            OpCode::lcmp => "lcmp",
            OpCode::fcmpl => "fcmpl",
            OpCode::fcmpg => "fcmpg",
            OpCode::dcmpl => "dcmpl",
            OpCode::dcmpg => "dcmpg",
            OpCode::ifeq => "ifeq",
            OpCode::ifne => "ifne",
            OpCode::iflt => "iflt",
            OpCode::ifge => "ifge",
            OpCode::ifgt => "ifgt",
            OpCode::ifle => "ifle",
            OpCode::if_icmpeq => "if_icmpeq",
            OpCode::if_icmpne => "if_icmpne",
            OpCode::if_icmplt => "if_icmplt",
            OpCode::if_icmpge => "if_icmpge",
            OpCode::if_icmpgt => "if_icmpgt",
            OpCode::if_icmple => "if_icmple",
            OpCode::if_acmpeq => "if_acmpeq",
            OpCode::if_acmpne => "if_acmpne",
            OpCode::goto => "goto",
            OpCode::jsr => "jsr",
            OpCode::ret => "ret",
            OpCode::tableswitch => "tableswitch",
            OpCode::lookupswitch => "lookupswitch",
            OpCode::ireturn => "ireturn",
            OpCode::lreturn => "lreturn",
            OpCode::freturn => "freturn",
            OpCode::dreturn => "dreturn",
            OpCode::areturn => "areturn",
            OpCode::return_void => "return",
            OpCode::getstatic => "getstatic",
            OpCode::putstatic => "putstatic",
            OpCode::getfield => "getfield",
            OpCode::putfield => "putfield",
            OpCode::invokevirtual => "invokevirtual",
            OpCode::invokespecial => "invokespecial",
            OpCode::invokestatic => "invokestatic",
            OpCode::invokeinterface => "invokeinterface",
            OpCode::invokedynamic => "invokedynamic",
            OpCode::new => "new",
            OpCode::newarray => "newarray",
            OpCode::anewarray => "anewarray",
            OpCode::arraylength => "arraylength",
            OpCode::athrow => "athrow",
            OpCode::checkcast => "checkcast",
            OpCode::instanceof => "instanceof",
            OpCode::monitorenter => "monitorenter",
            OpCode::monitorexit => "monitorexit",
            OpCode::wide => "wide",
            OpCode::multianewarray => "multianewarray",
            OpCode::ifnull => "ifnull",
            OpCode::ifnonnull => "ifnonnull",
            OpCode::goto_w => "goto_w",
            OpCode::jsr_w => "jsr_w",
            OpCode::breakpoint => "breakpoint",
            OpCode::impdep1 => "impdep1",
            OpCode::impdep2 => "impdep2",
        }
    }
}

/// The mnemonic of an opcode.
pub open spec fn opcode_mnemonic(op: OpCode) -> &'static str {
    match op {
        OpCode::nop => "nop",
        OpCode::aconst_null => "aconst_null",
        OpCode::iconst_m1 => "iconst_m1",
        OpCode::iconst_0 => "iconst_0",
        OpCode::iconst_1 => "iconst_1",
        OpCode::iconst_2 => "iconst_2",
        OpCode::iconst_3 => "iconst_3",
        OpCode::iconst_4 => "iconst_4",
        OpCode::iconst_5 => "iconst_5",
        OpCode::lconst_0 => "lconst_0",
        OpCode::lconst_1 => "lconst_1",
        OpCode::fconst_0 => "fconst_0",
        OpCode::fconst_1 => "fconst_1",
        OpCode::fconst_2 => "fconst_2",
        OpCode::dconst_0 => "dconst_0",
        OpCode::dconst_1 => "dconst_1",
        OpCode::bipush => "bipush",
        OpCode::sipush => "sipush",
        OpCode::ldc => "ldc",
        OpCode::ldc_w => "ldc_w",
        OpCode::ldc2_w => "ldc2_w",
        OpCode::iload => "iload",
        OpCode::lload => "lload",
        OpCode::fload => "fload",
        OpCode::dload => "dload",
        OpCode::aload => "aload",
        OpCode::iload_0 => "iload_0",
        OpCode::iload_1 => "iload_1",
        OpCode::iload_2 => "iload_2",
        OpCode::iload_3 => "iload_3",
        OpCode::lload_0 => "lload_0",
        OpCode::lload_1 => "lload_1",
        OpCode::lload_2 => "lload_2",
        OpCode::lload_3 => "lload_3",
        OpCode::fload_0 => "fload_0",
        OpCode::fload_1 => "fload_1",
        OpCode::fload_2 => "fload_2",
        OpCode::fload_3 => "fload_3",
        OpCode::dload_0 => "dload_0",
        OpCode::dload_1 => "dload_1",
        OpCode::dload_2 => "dload_2",
        OpCode::dload_3 => "dload_3",
        OpCode::aload_0 => "aload_0",
        OpCode::aload_1 => "aload_1",
        OpCode::aload_2 => "aload_2",
        OpCode::aload_3 => "aload_3",
        OpCode::iaload => "iaload",
        OpCode::laload => "laload",
        OpCode::faload => "faload",
        OpCode::daload => "daload",
        OpCode::aaload => "aaload",
        OpCode::baload => "baload",
        OpCode::caload => "caload",
        OpCode::saload => "saload",
        OpCode::istore => "istore",
        OpCode::lstore => "lstore",
        OpCode::fstore => "fstore",
        OpCode::dstore => "dstore",
        OpCode::astore => "astore",
        OpCode::istore_0 => "istore_0",
        OpCode::istore_1 => "istore_1",
        OpCode::istore_2 => "istore_2",
        OpCode::istore_3 => "istore_3",
        OpCode::lstore_0 => "lstore_0",
        OpCode::lstore_1 => "lstore_1",
        OpCode::lstore_2 => "lstore_2",
        OpCode::lstore_3 => "lstore_3",
        OpCode::fstore_0 => "fstore_0",
        OpCode::fstore_1 => "fstore_1",
        OpCode::fstore_2 => "fstore_2",
        OpCode::fstore_3 => "fstore_3",
        OpCode::dstore_0 => "dstore_0",
        OpCode::dstore_1 => "dstore_1",
        OpCode::dstore_2 => "dstore_2",
        OpCode::dstore_3 => "dstore_3",
        OpCode::astore_0 => "astore_0",
        OpCode::astore_1 => "astore_1",
        OpCode::astore_2 => "astore_2",
        OpCode::astore_3 => "astore_3",
        OpCode::iastore => "iastore",
        OpCode::lastore => "lastore",
        OpCode::fastore => "fastore",
        OpCode::dastore => "dastore",
        OpCode::aastore => "aastore",
        OpCode::bastore => "bastore",
        OpCode::castore => "castore",
        OpCode::sastore => "sastore",
        OpCode::pop => "pop",
        OpCode::pop2 => "pop2",
        OpCode::dup => "dup",
        OpCode::dup_x1 => "dup_x1",
        OpCode::dup_x2 => "dup_x2",
        OpCode::dup2 => "dup2",
        OpCode::dup2_x1 => "dup2_x1",
        OpCode::dup2_x2 => "dup2_x2",
        OpCode::swap => "swap",
        OpCode::iadd => "iadd",
        OpCode::ladd => "ladd",
        OpCode::fadd => "fadd",
        OpCode::dadd => "dadd",
        OpCode::isub => "isub",
        OpCode::lsub => "lsub",
        OpCode::fsub => "fsub",
        OpCode::dsub => "dsub",
        OpCode::imul => "imul",
        OpCode::lmul => "lmul",
        OpCode::fmul => "fmul",
        OpCode::dmul => "dmul",
        OpCode::idiv => "idiv",
        OpCode::ldiv => "ldiv",
        OpCode::fdiv => "fdiv",
        OpCode::ddiv => "ddiv",
        OpCode::irem => "irem",
        OpCode::lrem => "lrem",
        OpCode::frem => "frem",
        OpCode::drem => "drem",
        OpCode::ineg => "ineg",
        OpCode::lneg => "lneg",
        OpCode::fneg => "fneg",
        OpCode::dneg => "dneg",
        OpCode::ishl => "ishl",
        OpCode::lshl => "lshl",
        OpCode::ishr => "ishr",
        OpCode::lshr => "lshr",
        OpCode::iushr => "iushr",
        OpCode::lushr => "lushr",
        OpCode::iand => "iand",
        OpCode::land => "land",
        OpCode::ior => "ior",
        OpCode::lor => "lor",
        OpCode::ixor => "ixor",
        OpCode::lxor => "lxor",
        OpCode::iinc => "iinc",
        OpCode::i2l => "i2l",
        OpCode::i2f => "i2f",
        OpCode::i2d => "i2d",
        OpCode::l2i => "l2i",
        OpCode::l2f => "l2f",
        OpCode::l2d => "l2d",
        OpCode::f2i => "f2i",
        OpCode::f2l => "f2l",
        OpCode::f2d => "f2d",
        OpCode::d2i => "d2i",
        OpCode::d2l => "d2l",
        OpCode::d2f => "d2f",
        OpCode::i2b => "i2b",
        OpCode::i2c => "i2c",
        OpCode::i2s => "i2s",
        OpCode::lcmp => "lcmp",
        OpCode::fcmpl => "fcmpl",
        OpCode::fcmpg => "fcmpg",
        OpCode::dcmpl => "dcmpl",
        OpCode::dcmpg => "dcmpg",
        OpCode::ifeq => "ifeq",
        OpCode::ifne => "ifne",
        OpCode::iflt => "iflt",
        OpCode::ifge => "ifge",
        OpCode::ifgt => "ifgt",
        OpCode::ifle => "ifle",
        OpCode::if_icmpeq => "if_icmpeq",
        OpCode::if_icmpne => "if_icmpne",
        OpCode::if_icmplt => "if_icmplt",
        OpCode::if_icmpge => "if_icmpge",
        OpCode::if_icmpgt => "if_icmpgt",
        OpCode::if_icmple => "if_icmple",
        OpCode::if_acmpeq => "if_acmpeq",
        OpCode::if_acmpne => "if_acmpne",
        OpCode::goto => "goto",
        OpCode::jsr => "jsr",
        OpCode::ret => "ret",
        OpCode::tableswitch => "tableswitch",
        OpCode::lookupswitch => "lookupswitch",
        OpCode::ireturn => "ireturn",
        OpCode::lreturn => "lreturn",
        OpCode::freturn => "freturn",
        OpCode::dreturn => "dreturn",
        OpCode::areturn => "areturn",
        OpCode::return_void => "return",
        OpCode::getstatic => "getstatic",
        OpCode::putstatic => "putstatic",
        OpCode::getfield => "getfield",
        OpCode::putfield => "putfield",
        OpCode::invokevirtual => "invokevirtual",
        OpCode::invokespecial => "invokespecial",
        OpCode::invokestatic => "invokestatic",
        OpCode::invokeinterface => "invokeinterface",
        OpCode::invokedynamic => "invokedynamic",
        OpCode::new => "new",
        OpCode::newarray => "newarray",
        OpCode::anewarray => "anewarray",
        OpCode::arraylength => "arraylength",
        OpCode::athrow => "athrow",
        OpCode::checkcast => "checkcast",
        OpCode::instanceof => "instanceof",
        OpCode::monitorenter => "monitorenter",
        OpCode::monitorexit => "monitorexit",
        OpCode::wide => "wide",
        OpCode::multianewarray => "multianewarray",
        OpCode::ifnull => "ifnull",
        OpCode::ifnonnull => "ifnonnull",
        OpCode::goto_w => "goto_w",
        OpCode::jsr_w => "jsr_w",
        OpCode::breakpoint => "breakpoint",
        OpCode::impdep1 => "impdep1",
        OpCode::impdep2 => "impdep2",
    }
}

} // verus!
