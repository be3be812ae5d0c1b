//! Translation of QuickJS stack bytecode into three-address register
//! instructions. Each stack slot of height `h` becomes register `h`.
use vstd::prelude::*;

use crate::bytes::{as_signed16, as_signed32, as_signed8, le16, le32, wrap32};

verus! {

/// One register instruction: an opcode, a destination and two sources.
/// Their meaning depends on the opcode (see the `OP_REG_*` constants).
#[derive(Debug, Copy, Clone, PartialEq, Eq, Structural)]
pub struct RegInstruction {
    pub op: u8,
    pub dst: u8,
    pub src1: u16,
    pub src2: u16,
}

// Register opcodes.
pub const OP_REG_PUSH_I32: u8 = 1;
pub const OP_REG_PUSH_CONST: u8 = 2;
pub const OP_REG_LOAD_LOC: u8 = 3;
pub const OP_REG_STORE_LOC: u8 = 4;
pub const OP_REG_ADD: u8 = 5;
pub const OP_REG_MOV: u8 = 6;
pub const OP_REG_RETURN: u8 = 7;
pub const OP_REG_RETURN_UNDEF: u8 = 8;
pub const OP_REG_UNDEFINED: u8 = 9;
pub const OP_REG_NULL: u8 = 10;
pub const OP_REG_PUSH_FALSE: u8 = 11;
pub const OP_REG_PUSH_TRUE: u8 = 12;
pub const OP_REG_DROP: u8 = 13;
pub const OP_REG_SET_LOC: u8 = 14;
pub const OP_REG_SUB: u8 = 15;
pub const OP_REG_MUL: u8 = 16;
pub const OP_REG_MOD: u8 = 17;
pub const OP_REG_LT: u8 = 18;
pub const OP_REG_LTE: u8 = 19;
pub const OP_REG_GT: u8 = 20;
pub const OP_REG_GTE: u8 = 21;
pub const OP_REG_STRICT_EQ: u8 = 22;
pub const OP_REG_IF_FALSE: u8 = 23;
pub const OP_REG_IF_TRUE: u8 = 24;
pub const OP_REG_JMP: u8 = 25;
pub const OP_REG_SHL: u8 = 26;
pub const OP_REG_SAR: u8 = 27;
pub const OP_REG_SHR: u8 = 28;
pub const OP_REG_BIT_AND: u8 = 29;
pub const OP_REG_BIT_OR: u8 = 30;
pub const OP_REG_BIT_XOR: u8 = 31;

// Stack opcodes of QuickJS.
pub const OP_PUSH_I32: u8 = 1;
pub const OP_PUSH_CONST: u8 = 2;
pub const OP_UNDEFINED: u8 = 6;
pub const OP_NULL: u8 = 7;
pub const OP_PUSH_FALSE: u8 = 9;
pub const OP_PUSH_TRUE: u8 = 10;
pub const OP_DROP: u8 = 14;
pub const OP_DUP: u8 = 17;
pub const OP_RETURN: u8 = 40;
pub const OP_RETURN_UNDEF: u8 = 41;
pub const OP_GET_LOC: u8 = 87;
pub const OP_PUT_LOC: u8 = 88;
pub const OP_ADD: u8 = 156;
pub const OP_IF_FALSE: u8 = 104;
pub const OP_IF_TRUE: u8 = 105;
pub const OP_GOTO: u8 = 106;
pub const OP_PUSH_I8: u8 = 194;
pub const OP_PUSH_I16: u8 = 195;
pub const OP_IF_FALSE8: u8 = 240;
pub const OP_IF_TRUE8: u8 = 241;
pub const OP_GOTO8: u8 = 242;
pub const OP_GOTO16: u8 = 243;

/// The length in bytes of a stack instruction with opcode `op`; 1 for an
/// opcode that is not translated.
pub open spec fn stack_op_len(op: u8) -> int {
    if op == OP_PUSH_I32 || op == OP_PUSH_CONST || op == OP_IF_FALSE || op == OP_IF_TRUE || op == OP_GOTO {
        5
    } else if op == OP_GET_LOC || op == OP_PUT_LOC || op == OP_PUSH_I16 || op == OP_GOTO16 {
        3
    } else if op == OP_PUSH_I8 || op == OP_IF_FALSE8 || op == OP_IF_TRUE8 || op == OP_GOTO8 {
        2
    } else {
        1
    }
}

/// Whether `op` is a QuickJS jump (`goto`, `if_false`, `if_true` with an 8-,
/// 16- or 32-bit offset).
pub open spec fn is_stack_jump(op: u8) -> bool {
    op == OP_IF_FALSE || op == OP_IF_TRUE || op == OP_GOTO || op == OP_IF_FALSE8 || op == OP_IF_TRUE8
        || op == OP_GOTO8 || op == OP_GOTO16
}

/// The signed offset of the jump at `pc`, read from the bytes after its
/// opcode.
pub open spec fn jump_offset(bc: Seq<u8>, pc: int) -> int {
    let op = bc[pc];
    if op == OP_IF_FALSE8 || op == OP_IF_TRUE8 || op == OP_GOTO8 {
        as_signed8(bc[pc + 1] as int)
    } else if op == OP_GOTO16 {
        as_signed16(le16(bc[pc + 1], bc[pc + 2]))
    } else {
        as_signed32(le32(bc[pc + 1], bc[pc + 2], bc[pc + 3], bc[pc + 4]))
    }
}

/// The index of the instruction that starts at byte `target`, walking the
/// instruction boundaries from byte `pos`, which starts instruction `k`;
/// `None` when `target` is not a boundary within the code or at its end.
pub open spec fn resolve_target(bc: Seq<u8>, pos: int, k: int, target: int) -> Option<int>
    decreases bc.len() + 5 - pos,
{
    if pos == target && 0 <= pos <= bc.len() {
        Some(k)
    } else if pos < 0 || pos >= bc.len() || pos > target {
        None
    } else {
        resolve_target(bc, pos + stack_op_len(bc[pos]), k + 1, target)
    }
}

/// The register instruction of a sign-extended small constant `v`: its
/// 32-bit pattern split into halves.
pub open spec fn push_small(h: int, v: int) -> RegInstruction {
    inst(OP_REG_PUSH_I32, reg8(h), (wrap32(v) % 65536) as u16, (wrap32(v) / 65536) as u16)
}

/// The register that stands for stack height `h` (register numbers are bytes).
pub open spec fn reg8(h: int) -> u8 {
    (h % 256) as u8
}

/// A stack height or register index as a 16-bit operand.
pub open spec fn reg16(h: int) -> u16 {
    (h % 65536) as u16
}

pub open spec fn inst(op: u8, dst: u8, src1: u16, src2: u16) -> RegInstruction {
    RegInstruction { op, dst, src1, src2 }
}

/// One translation step for the jump at `pc`, with the stack at height `h`:
/// a register jump to the index of the instruction at `pc + 1 + offset`.
#[verifier::opaque]
pub open spec fn spec_jump_step(bc: Seq<u8>, pc: int, h: int) -> Result<(RegInstruction, int, int), Seq<char>>
    recommends
        0 <= pc < bc.len(),
{
    let opcode = bc[pc];
    let rest = bc.len() - pc;
    let cond = opcode != OP_GOTO && opcode != OP_GOTO8 && opcode != OP_GOTO16;
    if rest < stack_op_len(opcode) {
        Err("Malformed bytecode: jump offset missing"@)
    } else if cond && h == 0 {
        Err("Stack underflow on conditional jump"@)
    } else {
        match resolve_target(bc, 0, 0, pc + 1 + jump_offset(bc, pc)) {
            None => Err("Invalid jump target"@),
            Some(k) => if k > 65535 {
                Err("Jump target out of range"@)
            } else if cond {
                Ok(
                    (
                        inst(
                            if opcode == OP_IF_TRUE || opcode == OP_IF_TRUE8 {
                                OP_REG_IF_TRUE
                            } else {
                                OP_REG_IF_FALSE
                            },
                            reg8(h - 1),
                            k as u16,
                            0,
                        ),
                        pc + stack_op_len(opcode),
                        h - 1,
                    ),
                )
            } else {
                Ok((inst(OP_REG_JMP, 0, k as u16, 0), pc + stack_op_len(opcode), h))
            },
        }
    }
}

/// One translation step: the stack instruction at `pc`, with the stack at
/// height `h`, gives a register instruction, the next `pc` and the next height,
/// or the error text.
pub open spec fn spec_step(bc: Seq<u8>, pc: int, h: int) -> Result<(RegInstruction, int, int), Seq<char>>
    recommends
        0 <= pc < bc.len(),
{
    let opcode = bc[pc];
    let rest = bc.len() - pc;
    if opcode == OP_PUSH_I32 {
        if rest < 5 {
            Err("Malformed bytecode: OP_push_i32 operand missing"@)
        } else {
            Ok(
                (
                    inst(
                        OP_REG_PUSH_I32,
                        reg8(h),
                        le16(bc[pc + 1], bc[pc + 2]) as u16,
                        le16(bc[pc + 3], bc[pc + 4]) as u16,
                    ),
                    pc + 5,
                    h + 1,
                ),
            )
        }
    } else if opcode == OP_PUSH_CONST {
        if rest < 5 {
            Err("Malformed bytecode: OP_push_const operand missing"@)
        } else {
            Ok((inst(OP_REG_PUSH_CONST, reg8(h), le16(bc[pc + 1], bc[pc + 2]) as u16, 0), pc + 5, h + 1))
        }
    } else if opcode == OP_UNDEFINED {
        Ok((inst(OP_REG_UNDEFINED, reg8(h), 0, 0), pc + 1, h + 1))
    } else if opcode == OP_NULL {
        Ok((inst(OP_REG_NULL, reg8(h), 0, 0), pc + 1, h + 1))
    } else if opcode == OP_PUSH_FALSE {
        Ok((inst(OP_REG_PUSH_FALSE, reg8(h), 0, 0), pc + 1, h + 1))
    } else if opcode == OP_PUSH_TRUE {
        Ok((inst(OP_REG_PUSH_TRUE, reg8(h), 0, 0), pc + 1, h + 1))
    } else if opcode == OP_DROP {
        if h == 0 {
            Err("Stack underflow on OP_drop"@)
        } else {
            Ok((inst(OP_REG_DROP, reg8(h - 1), 0, 0), pc + 1, h - 1))
        }
    } else if opcode == OP_DUP {
        if h == 0 {
            Err("Stack underflow on OP_dup"@)
        } else {
            Ok((inst(OP_REG_MOV, reg8(h), reg16(h - 1), 0), pc + 1, h + 1))
        }
    } else if opcode == OP_GET_LOC {
        if rest < 3 {
            Err("Malformed bytecode: OP_get_loc operand missing"@)
        } else {
            Ok((inst(OP_REG_LOAD_LOC, reg8(h), le16(bc[pc + 1], bc[pc + 2]) as u16, 0), pc + 3, h + 1))
        }
    } else if opcode == OP_PUT_LOC {
        if rest < 3 {
            Err("Malformed bytecode: OP_put_loc operand missing"@)
        } else if h == 0 {
            Err("Stack underflow on OP_put_loc"@)
        } else {
            Ok((inst(OP_REG_STORE_LOC, bc[pc + 1], reg16(h - 1), 0), pc + 3, h - 1))
        }
    } else if opcode == OP_ADD {
        if h < 2 {
            Err("Stack underflow on OP_add"@)
        } else {
            Ok((inst(OP_REG_ADD, reg8(h - 2), reg16(h - 2), reg16(h - 1)), pc + 1, h - 1))
        }
    } else if opcode == OP_RETURN {
        if h == 0 {
            Err("Stack underflow on OP_return"@)
        } else {
            Ok((inst(OP_REG_RETURN, reg8(h - 1), 0, 0), pc + 1, h - 1))
        }
    } else if opcode == OP_RETURN_UNDEF {
        Ok((inst(OP_REG_RETURN_UNDEF, 0, 0, 0), pc + 1, h))
    } else if opcode == OP_PUSH_I8 {
        if rest < 2 {
            Err("Malformed bytecode: OP_push_i8 operand missing"@)
        } else {
            Ok((push_small(h, as_signed8(bc[pc + 1] as int)), pc + 2, h + 1))
        }
    } else if opcode == OP_PUSH_I16 {
        if rest < 3 {
            Err("Malformed bytecode: OP_push_i16 operand missing"@)
        } else {
            Ok((push_small(h, as_signed16(le16(bc[pc + 1], bc[pc + 2]))), pc + 3, h + 1))
        }
    } else if is_stack_jump(opcode) {
        spec_jump_step(bc, pc, h)
    } else {
        Err("Unsupported opcode for register-based VM compilation"@)
    }
}

/// A translated instruction moves `pc` forward, within the code.
pub proof fn lemma_step_advances(bc: Seq<u8>, pc: int, h: int)
    requires
        0 <= pc < bc.len(),
    ensures
        spec_step(bc, pc, h) matches Ok((i, np, nh)) ==> pc < np <= bc.len(),
{
    reveal(spec_jump_step);
}

/// Prepends `prefix` to a successful translation; errors pass through.
pub open spec fn prepend(
    prefix: Seq<RegInstruction>,
    r: Result<Seq<RegInstruction>, Seq<char>>,
) -> Result<Seq<RegInstruction>, Seq<char>> {
    match r {
        Ok(s) => Ok(prefix + s),
        Err(e) => Err(e),
    }
}

/// The translation of `bc` from position `pc` with the stack at height `h`:
/// the register instructions of every stack instruction from `pc` to the end,
/// in order, or the error text of the first one that cannot be translated.
pub open spec fn spec_translate(bc: Seq<u8>, pc: int, h: int) -> Result<Seq<RegInstruction>, Seq<char>>
    decreases bc.len() - pc,
{
    if pc < 0 || pc >= bc.len() {
        Ok(Seq::empty())
    } else {
        match spec_step(bc, pc, h) {
            Err(e) => Err(e),
            Ok((i, next_pc, next_h)) => {
                proof {
                    lemma_step_advances(bc, pc, h);
                }
                prepend(seq![i], spec_translate(bc, next_pc, next_h))
            },
        }
    }
}

/// The translation of a whole function body, starting on an empty stack.
pub open spec fn spec_compile(bc: Seq<u8>) -> Result<Seq<RegInstruction>, Seq<char>> {
    spec_translate(bc, 0, 0)
}

pub proof fn lemma_prepend_assoc(a: Seq<RegInstruction>, b: Seq<RegInstruction>, r: Result<Seq<RegInstruction>, Seq<char>>)
    ensures
        prepend(a, prepend(b, r)) == prepend(a + b, r),
{
    match r {
        Ok(s) => {
            assert(a + (b + s) =~= (a + b) + s);
        },
        Err(e) => {},
    }
}

/// Reads two little-endian bytes at `offset`.
pub(crate) fn read_u16(buf: &[u8], offset: usize) -> (r: u16)
    requires
        offset + 2 <= buf@.len(),
    ensures
        r == le16(buf@[offset as int], buf@[offset + 1]),
{
    let b0 = buf[offset];
    let b1 = buf[offset + 1];
    (b0 as u16) + (b1 as u16) * 256
}

/// Reads four little-endian bytes at `offset` as an unsigned number.
pub(crate) fn read_u32(buf: &[u8], offset: usize) -> (r: u32)
    requires
        offset + 4 <= buf@.len(),
    ensures
        r == le32(buf@[offset as int], buf@[offset + 1], buf@[offset + 2], buf@[offset + 3]),
{
    let b0 = buf[offset] as u32;
    let b1 = buf[offset + 1] as u32;
    let b2 = buf[offset + 2] as u32;
    let b3 = buf[offset + 3] as u32;
    b0 + b1 * 256 + b2 * 65536 + b3 * 16777216
}

/// Reads four little-endian bytes at `offset` as a two's-complement number.
pub(crate) fn read_i32(buf: &[u8], offset: usize) -> (r: i32)
    requires
        offset + 4 <= buf@.len(),
    ensures
        r == as_signed32(le32(buf@[offset as int], buf@[offset + 1], buf@[offset + 2], buf@[offset + 3])),
{
    let u = read_u32(buf, offset);
    if u < 0x8000_0000 {
        u as i32
    } else {
        (u as i64 - 0x1_0000_0000i64) as i32
    }
}

/// The length in bytes of a stack instruction with opcode `op`.
fn op_len(op: u8) -> (n: usize)
    ensures
        n == stack_op_len(op),
{
    if op == OP_PUSH_I32 || op == OP_PUSH_CONST || op == OP_IF_FALSE || op == OP_IF_TRUE || op == OP_GOTO {
        5
    } else if op == OP_GET_LOC || op == OP_PUT_LOC || op == OP_PUSH_I16 || op == OP_GOTO16 {
        3
    } else if op == OP_PUSH_I8 || op == OP_IF_FALSE8 || op == OP_IF_TRUE8 || op == OP_GOTO8 {
        2
    } else {
        1
    }
}

/// The index of the instruction that starts at byte `target` (see
/// `resolve_target`).
fn resolve_jump(bytecode: &[u8], target: i128) -> (r: Option<usize>)
    ensures
        r matches Some(k) ==> resolve_target(bytecode@, 0, 0, target as int) == Some(k as int),
        r is None ==> resolve_target(bytecode@, 0, 0, target as int) is None,
{
    let n = bytecode.len();
    let mut pos: usize = 0;
    let mut k: usize = 0;
    loop
        invariant
            n == bytecode@.len(),
            pos <= n,
            k <= pos,
            resolve_target(bytecode@, 0, 0, target as int) == resolve_target(
                bytecode@,
                pos as int,
                k as int,
                target as int,
            ),
        decreases n - pos,
    {
        if pos as i128 == target {
            return Some(k);
        }
        if pos >= n || pos as i128 > target {
            return None;
        }
        let l = op_len(bytecode[pos]);
        if l > n - pos {
            assert(resolve_target(bytecode@, pos + l, k + 1, target as int) is None);
            return None;
        }
        pos = pos + l;
        k = k + 1;
    }
}

/// The halves of a 32-bit value are those of its 32-bit pattern.
proof fn lemma_split(v: i32)
    ensures
        (v & 0xFFFF) as u16 == (wrap32(v as int) % 65536) as u16,
        ((v >> 16) & 0xFFFF) as u16 == (wrap32(v as int) / 65536) as u16,
{
    let x = v as u32;
    assert((v >= 0 ==> x == v) && (v < 0 ==> x == v + 0x1_0000_0000)) by (bit_vector)
        requires
            x == v as u32,
    ;
    assert(x as int == wrap32(v as int));
    assert((v & 0xFFFF) as u16 == (x % 65536) as u16 && ((v >> 16) & 0xFFFF) as u16 == (x / 65536) as u16)
        by (bit_vector)
        requires
            x == v as u32,
    ;
}

/// The register instruction that puts the small constant `v` in register
/// `stack_height`.
fn small_push(stack_height: usize, v: i32) -> (r: RegInstruction)
    ensures
        r == push_small(stack_height as int, v as int),
{
    proof {
        lemma_split(v);
    }
    RegInstruction {
        op: OP_REG_PUSH_I32,
        dst: (stack_height % 256) as u8,
        src1: (v & 0xFFFF) as u16,
        src2: ((v >> 16) & 0xFFFF) as u16,
    }
}

/// Translates the jump at `pc` (see `spec_jump_step`).
fn compile_jump(bytecode: &[u8], pc: usize, stack_height: usize) -> (r: Result<
    (RegInstruction, usize, usize),
    &'static str,
>)
    requires
        pc < bytecode@.len(),
        stack_height <= pc,
        is_stack_jump(bytecode@[pc as int]),
    ensures
        r matches Ok((i, p, h)) ==> spec_jump_step(bytecode@, pc as int, stack_height as int) == Ok::<
            (RegInstruction, int, int),
            Seq<char>,
        >((i, p as int, h as int)) && pc < p <= bytecode@.len() && h <= p,
        r matches Err(e) ==> spec_jump_step(bytecode@, pc as int, stack_height as int) == Err::<
            (RegInstruction, int, int),
            Seq<char>,
        >(e@),
{
    proof {
        reveal(spec_jump_step);
    }
    let opcode = bytecode[pc];
    let rest = bytecode.len() - pc;
    let len = op_len(opcode);
    let cond = opcode != OP_GOTO && opcode != OP_GOTO8 && opcode != OP_GOTO16;
    if rest < len {
        return Err("Malformed bytecode: jump offset missing");
    }
    if cond && stack_height == 0 {
        return Err("Stack underflow on conditional jump");
    }
    let off: i128 = if len == 2 {
        let b = bytecode[pc + 1];
        if b < 128 { b as i128 } else { b as i128 - 256 }
    } else if len == 3 {
        let u = read_u16(bytecode, pc + 1);
        if u < 0x8000 { u as i128 } else { u as i128 - 0x1_0000 }
    } else {
        read_i32(bytecode, pc + 1) as i128
    };
    let target: i128 = pc as i128 + 1 + off;
    match resolve_jump(bytecode, target) {
        None => Err("Invalid jump target"),
        Some(k) => {
            if k > 65535 {
                Err("Jump target out of range")
            } else if cond {
                let op = if opcode == OP_IF_TRUE || opcode == OP_IF_TRUE8 {
                    OP_REG_IF_TRUE
                } else {
                    OP_REG_IF_FALSE
                };
                let h = stack_height - 1;
                Ok((RegInstruction { op, dst: (h % 256) as u8, src1: k as u16, src2: 0 }, pc + len, h))
            } else {
                Ok((RegInstruction { op: OP_REG_JMP, dst: 0, src1: k as u16, src2: 0 }, pc + len, stack_height))
            }
        },
    }
}

/// Translates the stack instruction at `pc`, with the stack at height
/// `stack_height`: the register instruction, the next `pc` and the next height.
#[verifier::rlimit(60)]
fn compile_step(bytecode: &[u8], pc: usize, stack_height: usize) -> (r: Result<
    (RegInstruction, usize, usize),
    &'static str,
>)
    requires
        pc < bytecode@.len(),
        stack_height <= pc,
    ensures
        r matches Ok((i, p, h)) ==> spec_step(bytecode@, pc as int, stack_height as int) == Ok::<
            (RegInstruction, int, int),
            Seq<char>,
        >((i, p as int, h as int)) && pc < p <= bytecode@.len() && h <= p,
        r matches Err(e) ==> spec_step(bytecode@, pc as int, stack_height as int) == Err::<
            (RegInstruction, int, int),
            Seq<char>,
        >(e@),
{
    let ghost bc = bytecode@;
    let opcode = bytecode[pc];
    let rest = bytecode.len() - pc;
    if opcode == OP_PUSH_I32 {
        if rest < 5 {
            return Err("Malformed bytecode: OP_push_i32 operand missing");
        }
        let val = read_i32(bytecode, pc + 1);
        // The 32-bit value travels in src1 (low half) and src2 (high half).
        let src1 = (val & 0xFFFF) as u16;
        let src2 = ((val >> 16) & 0xFFFF) as u16;
        proof {
            let u = le32(bc[pc + 1], bc[pc + 2], bc[pc + 3], bc[pc + 4]);
            lemma_halves(val, u, bc[pc + 1], bc[pc + 2], bc[pc + 3], bc[pc + 4]);
        }
        Ok((RegInstruction { op: OP_REG_PUSH_I32, dst: (stack_height % 256) as u8, src1, src2 }, pc + 5, stack_height + 1))
    } else if opcode == OP_PUSH_CONST {
        if rest < 5 {
            return Err("Malformed bytecode: OP_push_const operand missing");
        }
        let idx = read_u32(bytecode, pc + 1);
        Ok((
            RegInstruction {
                op: OP_REG_PUSH_CONST,
                dst: (stack_height % 256) as u8,
                src1: (idx % 65536) as u16,
                src2: 0,
            },
            pc + 5,
            stack_height + 1,
        ))
    } else if opcode == OP_UNDEFINED {
        Ok((RegInstruction { op: OP_REG_UNDEFINED, dst: (stack_height % 256) as u8, src1: 0, src2: 0 }, pc + 1, stack_height + 1))
    } else if opcode == OP_NULL {
        Ok((RegInstruction { op: OP_REG_NULL, dst: (stack_height % 256) as u8, src1: 0, src2: 0 }, pc + 1, stack_height + 1))
    } else if opcode == OP_PUSH_FALSE {
        Ok((RegInstruction { op: OP_REG_PUSH_FALSE, dst: (stack_height % 256) as u8, src1: 0, src2: 0 }, pc + 1, stack_height + 1))
    } else if opcode == OP_PUSH_TRUE {
        Ok((RegInstruction { op: OP_REG_PUSH_TRUE, dst: (stack_height % 256) as u8, src1: 0, src2: 0 }, pc + 1, stack_height + 1))
    } else if opcode == OP_DROP {
        if stack_height == 0 {
            return Err("Stack underflow on OP_drop");
        }
        let h = stack_height - 1;
        Ok((RegInstruction { op: OP_REG_DROP, dst: (h % 256) as u8, src1: 0, src2: 0 }, pc + 1, h))
    } else if opcode == OP_DUP {
        if stack_height == 0 {
            return Err("Stack underflow on OP_dup");
        }
        Ok((
            RegInstruction {
                op: OP_REG_MOV,
                dst: (stack_height % 256) as u8,
                src1: ((stack_height - 1) % 65536) as u16,
                src2: 0,
            },
            pc + 1,
            stack_height + 1,
        ))
    } else if opcode == OP_GET_LOC {
        if rest < 3 {
            return Err("Malformed bytecode: OP_get_loc operand missing");
        }
        let idx = read_u16(bytecode, pc + 1);
        Ok((RegInstruction { op: OP_REG_LOAD_LOC, dst: (stack_height % 256) as u8, src1: idx, src2: 0 }, pc + 3, stack_height + 1))
    } else if opcode == OP_PUT_LOC {
        if rest < 3 {
            return Err("Malformed bytecode: OP_put_loc operand missing");
        }
        if stack_height == 0 {
            return Err("Stack underflow on OP_put_loc");
        }
        let idx = read_u16(bytecode, pc + 1);
        let h = stack_height - 1;
        Ok((
            RegInstruction { op: OP_REG_STORE_LOC, dst: (idx % 256) as u8, src1: (h % 65536) as u16, src2: 0 },
            pc + 3,
            h,
        ))
    } else if opcode == OP_ADD {
        if stack_height < 2 {
            return Err("Stack underflow on OP_add");
        }
        let src1 = ((stack_height - 2) % 65536) as u16;
        let src2 = ((stack_height - 1) % 65536) as u16;
        let h = stack_height - 1;
        Ok((RegInstruction { op: OP_REG_ADD, dst: ((h - 1) % 256) as u8, src1, src2 }, pc + 1, h))
    } else if opcode == OP_RETURN {
        if stack_height == 0 {
            return Err("Stack underflow on OP_return");
        }
        let h = stack_height - 1;
        Ok((RegInstruction { op: OP_REG_RETURN, dst: (h % 256) as u8, src1: 0, src2: 0 }, pc + 1, h))
    } else if opcode == OP_RETURN_UNDEF {
        Ok((RegInstruction { op: OP_REG_RETURN_UNDEF, dst: 0, src1: 0, src2: 0 }, pc + 1, stack_height))
    } else if opcode == OP_PUSH_I8 {
        if rest < 2 {
            return Err("Malformed bytecode: OP_push_i8 operand missing");
        }
        let b = bytecode[pc + 1];
        let v: i32 = if b < 128 { b as i32 } else { b as i32 - 256 };
        Ok((small_push(stack_height, v), pc + 2, stack_height + 1))
    } else if opcode == OP_PUSH_I16 {
        if rest < 3 {
            return Err("Malformed bytecode: OP_push_i16 operand missing");
        }
        let u = read_u16(bytecode, pc + 1);
        let v: i32 = if u < 0x8000 { u as i32 } else { u as i32 - 0x1_0000 };
        Ok((small_push(stack_height, v), pc + 3, stack_height + 1))
    } else if opcode == OP_IF_FALSE || opcode == OP_IF_TRUE || opcode == OP_GOTO || opcode == OP_IF_FALSE8
        || opcode == OP_IF_TRUE8 || opcode == OP_GOTO8 || opcode == OP_GOTO16 {
        compile_jump(bytecode, pc, stack_height)
    } else {
        Err("Unsupported opcode for register-based VM compilation")
    }
}

/// Translates QuickJS stack bytecode into register instructions.
///
/// Every stack instruction gives exactly one register instruction, in order:
/// the value at stack height `h` lives in register `h`. `push_i8` and
/// `push_i16` give a sign-extended `push_i32`; a jump to `pc + 1 + offset`
/// (`goto`, `if_false`, `if_true`) gives a register jump to the index of the
/// instruction that starts there. The first instruction that has a missing
/// operand, would underflow the stack, jumps to no instruction boundary, or
/// is not supported stops the translation with its error text.
pub fn compile_bytecode(bytecode: &[u8]) -> (r: Result<Vec<RegInstruction>, &'static str>)
    ensures
        r is Ok <==> spec_compile(bytecode@) is Ok,
        r matches Ok(v) ==> spec_compile(bytecode@) == Ok::<Seq<RegInstruction>, Seq<char>>(v@),
        r matches Err(e) ==> spec_compile(bytecode@) == Err::<Seq<RegInstruction>, Seq<char>>(e@),
{
    let mut reg_instructions: Vec<RegInstruction> = Vec::new();
    let mut pc: usize = 0;
    let mut stack_height: usize = 0;
    let ghost bc = bytecode@;

    while pc < bytecode.len()
        invariant
            bc == bytecode@,
            pc <= bc.len(),
            stack_height <= pc,
            spec_compile(bc) == prepend(reg_instructions@, spec_translate(bc, pc as int, stack_height as int)),
        decreases bc.len() - pc,
    {
        let ghost old_pc = pc as int;
        let ghost old_h = stack_height as int;
        let ghost old_out = reg_instructions@;
        match compile_step(bytecode, pc, stack_height) {
            Err(e) => {
                return Err(e);
            },
            Ok((ri, next_pc, next_h)) => {
                pc = next_pc;
                stack_height = next_h;
                proof {
                    assert(spec_translate(bc, old_pc, old_h) == prepend(
                        seq![ri],
                        spec_translate(bc, pc as int, stack_height as int),
                    ));
                    lemma_prepend_assoc(old_out, seq![ri], spec_translate(bc, pc as int, stack_height as int));
                    assert(old_out + seq![ri] =~= old_out.push(ri));
                }
                reg_instructions.push(ri);
            },
        }
    }
    proof {
        assert(reg_instructions@ + Seq::<RegInstruction>::empty() =~= reg_instructions@);
    }
    Ok(reg_instructions)
}

/// The low and high halves of a signed 32-bit value read from four bytes are
/// the values of its first and last two bytes.
proof fn lemma_halves(val: i32, u: int, b0: u8, b1: u8, b2: u8, b3: u8)
    requires
        u == le32(b0, b1, b2, b3),
        val == as_signed32(u),
    ensures
        (val & 0xFFFF) as u16 == le16(b0, b1),
        ((val >> 16) & 0xFFFF) as u16 == le16(b2, b3),
{
    let x: u32 = u as u32;
    assert(x == b0 as u32 + b1 as u32 * 256 + b2 as u32 * 65536 + b3 as u32 * 16777216);
    assert(val == x as i32) by (bit_vector)
        requires
            (x < 0x8000_0000 ==> val == x),
            (x >= 0x8000_0000 ==> val == x - 0x1_0000_0000),
    ;
    assert((val & 0xFFFF) as u16 == b0 as u16 + b1 as u16 * 256 && ((val >> 16) & 0xFFFF) as u16
        == b2 as u16 + b3 as u16 * 256) by (bit_vector)
        requires
            val == x as i32,
            x == b0 as u32 + b1 as u32 * 256 + b2 as u32 * 65536 + b3 as u32 * 16777216,
    ;
}

} // verus!
