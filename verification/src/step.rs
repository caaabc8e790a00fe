//! The meaning of each operation: a total transition function on machine
//! views. The executor is verified against `step`, and the library's laws
//! are proved from it.

use vstd::prelude::*;

use crate::opcode::{op_wf, OpCode, VmError};
use crate::vm::{mem_addr, wrap_add16, wrap_back2, VmView};

verus! {

/// 8-bit addition that wraps modulo 256.
pub open spec fn wrap_add8(a: u8, b: u8) -> u8 {
    if a + b > 255 {
        (a + b - 256) as u8
    } else {
        (a + b) as u8
    }
}

/// 8-bit subtraction that wraps modulo 256.
pub open spec fn wrap_sub8(a: u8, b: u8) -> u8 {
    if a - b < 0 {
        (a - b + 256) as u8
    } else {
        (a - b) as u8
    }
}

/// The register file after an add of register `y` into register `x`: the
/// sum wraps, and the flag register then records the carry out of 8 bits.
pub open spec fn add_with_carry(regs: Seq<u8>, x: int, y: int) -> Seq<u8>
    recommends
        regs.len() == 16,
        0 <= x < 16,
        0 <= y < 16,
{
    let sum = regs[x] + regs[y];
    let r1 = regs.update(x, wrap_add8(regs[x], regs[y]));
    r1.update(15, if sum > 255 { 1u8 } else { 0u8 })
}

/// The register file after register `x` is set to `a - b` (wrapping): the
/// flag register then records that no borrow occurred, i.e. `a >= b`.
pub open spec fn sub_with_borrow(regs: Seq<u8>, x: int, a: u8, b: u8) -> Seq<u8>
    recommends
        regs.len() == 16,
        0 <= x < 16,
{
    let r1 = regs.update(x, wrap_sub8(a, b));
    r1.update(15, if a >= b { 1u8 } else { 0u8 })
}

/// The register file after a right shift: with the quirk on, register `y`
/// is first copied into register `x`; the flag register takes the bit
/// shifted out, then register `x` is shifted, in that order.
pub open spec fn shift_right_registers(regs: Seq<u8>, x: int, y: int, quirk: bool) -> Seq<u8>
    recommends
        regs.len() == 16,
        0 <= x < 16,
        0 <= y < 16,
{
    let r1 = if quirk {
        regs.update(x, regs[y])
    } else {
        regs
    };
    let value = r1[x];
    let r2 = r1.update(15, value & 1);
    r2.update(x, r2[x] >> 1)
}

/// The register file after a left shift, mirroring `shift_right_registers`:
/// the flag register takes the bit shifted out of the top.
pub open spec fn shift_left_registers(regs: Seq<u8>, x: int, y: int, quirk: bool) -> Seq<u8>
    recommends
        regs.len() == 16,
        0 <= x < 16,
        0 <= y < 16,
{
    let r1 = if quirk {
        regs.update(x, regs[y])
    } else {
        regs
    };
    let value = r1[x];
    let r2 = r1.update(15, if value & 0x80 == 0x80 { 1u8 } else { 0u8 });
    r2.update(x, r2[x] << 1)
}

/// Whether the key named by the low nibble of `which` is down in the keypad
/// mask.
pub open spec fn key_down(keys: u16, which: u8) -> bool {
    (keys >> ((which & 0xF) as u16)) & 1 == 1
}

/// True when bit `j` of a sprite row byte is set, bit 0 being the leftmost
/// (most significant) pixel.
pub open spec fn sprite_row_bit(b: u8, j: int) -> bool
    recommends
        0 <= j < 8,
{
    b & (0x80u8 >> (j as u8)) != 0
}

/// The sprite row byte for row `row` of a draw: memory at `index + row`,
/// the address taken modulo the address space.
pub open spec fn sprite_byte(v: VmView, row: int) -> u8
    recommends
        v.wf(),
        row >= 0,
{
    v.memory[mem_addr(v.index, row)]
}

/// Whether a draw of an `n`-row sprite at origin `(x0, y0)` flips the pixel
/// `(px, py)`: the pixel lies under the sprite, is not clipped at the right
/// or bottom edge, and its sprite bit is set.
pub open spec fn draw_hits(v: VmView, x0: int, y0: int, n: int, px: int, py: int) -> bool {
    &&& y0 <= py < y0 + n
    &&& py < 32
    &&& x0 <= px < x0 + 8
    &&& px < 64
    &&& sprite_row_bit(sprite_byte(v, py - y0), px - x0)
}

/// The flat screen index of pixel `(px, py)`.
pub open spec fn pixel_index(px: int, py: int) -> int {
    py * 64 + px
}

/// The display after a draw: every hit pixel is toggled (XOR-composited),
/// every other pixel keeps its value.
pub open spec fn draw_screen(v: VmView, x0: int, y0: int, n: int) -> Seq<bool> {
    Seq::new(2048, |i: int| if draw_hits(v, x0, y0, n, i % 64, i / 64) {
        !v.screen[i]
    } else {
        v.screen[i]
    })
}

/// Whether a draw turns some pixel from set to unset: a hit pixel that was
/// already set.
pub open spec fn draw_collision(v: VmView, x0: int, y0: int, n: int) -> bool {
    exists|px: int, py: int|
        0 <= px < 64 && 0 <= py < 32 && draw_hits(v, x0, y0, n, px, py) && v.screen[pixel_index(
            px,
            py,
        )]
}

/// Flat index and coordinates are inverse to one another on the screen.
pub proof fn lemma_pixel_index_inverse(px: int, py: int)
    requires
        0 <= px < 64,
        0 <= py < 32,
    ensures
        pixel_index(px, py) % 64 == px,
        pixel_index(px, py) / 64 == py,
        0 <= pixel_index(px, py) < 2048,
{
    vstd::arithmetic::div_mod::lemma_fundamental_div_mod_converse(py * 64 + px, 64, py, px);
}

/// The memory after registers `0 ..= count - 1` are written to consecutive
/// addresses starting at `index`, each taken modulo the address space.
pub open spec fn store_block(mem: Seq<u8>, regs: Seq<u8>, index: u16, count: int) -> Seq<u8>
    decreases count,
{
    if count <= 0 {
        mem
    } else {
        store_block(mem, regs, index, count - 1).update(mem_addr(index, count - 1), regs[count - 1])
    }
}

/// The register file after registers `0 ..= count - 1` are read back from
/// consecutive addresses starting at `index`.
pub open spec fn load_block(regs: Seq<u8>, mem: Seq<u8>, index: u16, count: int) -> Seq<u8>
    decreases count,
{
    if count <= 0 {
        regs
    } else {
        load_block(regs, mem, index, count - 1).update(count - 1, mem[mem_addr(index, count - 1)])
    }
}

/// The memory after the three decimal digits of `value` are written at
/// `index`, `index + 1`, `index + 2`: hundreds first.
pub open spec fn bcd_memory(mem: Seq<u8>, index: u16, value: u8) -> Seq<u8> {
    mem.update(mem_addr(index, 0), value / 100).update(mem_addr(index, 1), (value / 10) % 10)
        .update(mem_addr(index, 2), value % 10)
}

/// The one fatal condition of execution itself: a return from a subroutine
/// with an empty call stack.
pub open spec fn step_error(v: VmView, op: OpCode) -> Option<VmError> {
    if op is ExitSubroutine && v.stack.len() == 0 {
        Some(VmError::StackUnderflow)
    } else {
        None
    }
}

/// One operation applied to a machine view. `rand` is the random byte the
/// machine drew for this step; only `Random` reads it. The caller has
/// already advanced the program counter past the fetched instruction, so
/// control-flow operations overwrite that advanced value. When
/// `step_error` is set the view is returned unchanged.
pub open spec fn step(v: VmView, op: OpCode, rand: u8) -> VmView
    recommends
        v.wf(),
        op_wf(op),
{
    match op {
        OpCode::SetXtoY(x, y) => VmView {
            registers: v.registers.update(x as int, v.registers[y as int]),
            ..v
        },
        OpCode::SaveBCDConversionToMemory(x) => VmView {
            memory: bcd_memory(v.memory, v.index, v.registers[x as int]),
            ..v
        },
        OpCode::BitwiseOr(x, y) => VmView {
            registers: v.registers.update(x as int, v.registers[x as int] | v.registers[y as int]),
            ..v
        },
        OpCode::BitwiseAnd(x, y) => VmView {
            registers: v.registers.update(x as int, v.registers[x as int] & v.registers[y as int]),
            ..v
        },
        OpCode::BitwiseXor(x, y) => VmView {
            registers: v.registers.update(x as int, v.registers[x as int] ^ v.registers[y as int]),
            ..v
        },
        OpCode::ShiftRight(x, y) => VmView {
            registers: shift_right_registers(v.registers, x as int, y as int, v.load_y_before_shift),
            ..v
        },
        OpCode::ShiftLeft(x, y) => VmView {
            registers: shift_left_registers(v.registers, x as int, y as int, v.load_y_before_shift),
            ..v
        },
        OpCode::SkipIfMemoryEqual(x, nn) => VmView {
            pc: if v.registers[x as int] == nn {
                wrap_add16(v.pc, 2)
            } else {
                v.pc
            },
            ..v
        },
        OpCode::SkipIfMemoryNotEqual(x, nn) => VmView {
            pc: if v.registers[x as int] != nn {
                wrap_add16(v.pc, 2)
            } else {
                v.pc
            },
            ..v
        },
        OpCode::SkipIfRegisterEqual(x, y) => VmView {
            pc: if v.registers[x as int] == v.registers[y as int] {
                wrap_add16(v.pc, 2)
            } else {
                v.pc
            },
            ..v
        },
        OpCode::SkipIfRegisterNotEqual(x, y) => VmView {
            pc: if v.registers[x as int] != v.registers[y as int] {
                wrap_add16(v.pc, 2)
            } else {
                v.pc
            },
            ..v
        },
        OpCode::SetRegister(x, nn) => VmView {
            registers: v.registers.update(x as int, nn),
            ..v
        },
        OpCode::AddRegister(x, nn) => VmView {
            registers: v.registers.update(x as int, wrap_add8(v.registers[x as int], nn)),
            ..v
        },
        OpCode::ClearScreen => VmView { screen: Seq::new(2048, |_i: int| false), ..v },
        OpCode::Draw(x, y, n) => {
            let x0 = (v.registers[x as int] % 64) as int;
            let y0 = (v.registers[y as int] % 32) as int;
            VmView {
                screen: draw_screen(v, x0, y0, n as int),
                registers: v.registers.update(
                    15,
                    if draw_collision(v, x0, y0, n as int) {
                        1u8
                    } else {
                        0u8
                    },
                ),
                ..v
            }
        },
        OpCode::Jump(nnn) => VmView { pc: nnn, ..v },
        OpCode::ExitSubroutine => {
            if v.stack.len() == 0 {
                v
            } else {
                VmView { pc: v.stack.last(), stack: v.stack.drop_last(), ..v }
            }
        },
        OpCode::EnterSubroutine(nnn) => VmView { stack: v.stack.push(v.pc), pc: nnn, ..v },
        OpCode::JumpWithOffset(nnn) => VmView {
            pc: wrap_add16(nnn, v.registers[0] as u16),
            ..v
        },
        OpCode::SkipIfKeyPressed(x) => VmView {
            pc: if key_down(v.keys, v.registers[x as int]) {
                wrap_add16(v.pc, 2)
            } else {
                v.pc
            },
            ..v
        },
        OpCode::SkipIfKeyNotPressed(x) => VmView {
            pc: if !key_down(v.keys, v.registers[x as int]) {
                wrap_add16(v.pc, 2)
            } else {
                v.pc
            },
            ..v
        },
        OpCode::GetKeyBlocking(_x) => VmView {
            pc: if v.keys == 0 {
                wrap_back2(v.pc)
            } else {
                v.pc
            },
            ..v
        },
        OpCode::AddYtoX(x, y) => VmView {
            registers: add_with_carry(v.registers, x as int, y as int),
            ..v
        },
        OpCode::SubtractYfromX(x, y) => VmView {
            registers: sub_with_borrow(
                v.registers,
                x as int,
                v.registers[x as int],
                v.registers[y as int],
            ),
            ..v
        },
        OpCode::SubtractXfromY(x, y) => VmView {
            registers: sub_with_borrow(
                v.registers,
                x as int,
                v.registers[y as int],
                v.registers[x as int],
            ),
            ..v
        },
        OpCode::SetIndexRegister(nnn) => VmView { index: nnn, ..v },
        OpCode::AddXToIndexRegister(x) => VmView {
            index: wrap_add16(v.index, v.registers[x as int] as u16),
            ..v
        },
        OpCode::SetIndexToFontCharacter(x) => VmView {
            index: ((v.registers[x as int] & 0xF) * 5) as u16,
            ..v
        },
        OpCode::StoreMemory(x) => VmView {
            memory: store_block(v.memory, v.registers, v.index, x + 1),
            ..v
        },
        OpCode::LoadMemory(x) => VmView {
            registers: load_block(v.registers, v.memory, v.index, x + 1),
            ..v
        },
        OpCode::Random(x, nn) => VmView { registers: v.registers.update(x as int, nn & rand), ..v },
        OpCode::SetSoundTimerValue(x) => VmView { sound_timer: v.registers[x as int], ..v },
        OpCode::GetDelayTimerValue(x) => VmView {
            registers: v.registers.update(x as int, v.delay_timer),
            ..v
        },
        OpCode::SetDelayTimerValue(x) => VmView { delay_timer: v.registers[x as int], ..v },
    }
}

/// The state after the fetch of one instruction: the program counter has
/// advanced past the two instruction bytes, nothing else has moved.
pub open spec fn advanced(v: VmView) -> VmView {
    VmView { pc: wrap_add16(v.pc, 2), ..v }
}

/// One whole tick: fetch the word at the program counter, advance the
/// counter, decode, execute. Fails with `UnknownOpcode` on a word outside
/// the catalog and with `StackUnderflow` on a return with an empty stack;
/// in both cases the machine has still advanced past the instruction.
pub open spec fn spec_tick(v: VmView, rand: u8) -> Result<VmView, VmError> {
    let word = crate::vm::opcode_at(v);
    let w = advanced(v);
    match crate::opcode::spec_decode(word) {
        Option::None => Err(VmError::UnknownOpcode(word)),
        Option::Some(op) => match step_error(w, op) {
            Option::Some(e) => Err(e),
            Option::None => Ok(step(w, op, rand)),
        },
    }
}

/// How one call of `tick` relates the old state, the new state, the drawn
/// random byte and the result.
pub open spec fn tick_outcome(
    pre: VmView,
    post: VmView,
    rand: u8,
    res: Result<(), VmError>,
) -> bool {
    match spec_tick(pre, rand) {
        Ok(nv) => res == Ok::<(), VmError>(()) && post == nv,
        Err(e) => res == Err::<(), VmError>(e) && post == advanced(pre),
    }
}

/// `store_block` writes bytes in place: the memory keeps its length.
pub proof fn lemma_store_block_len(mem: Seq<u8>, regs: Seq<u8>, index: u16, count: int)
    requires
        mem.len() == 4096,
    ensures
        store_block(mem, regs, index, count).len() == mem.len(),
    decreases count,
{
    if count > 0 {
        lemma_store_block_len(mem, regs, index, count - 1);
    }
}

/// `load_block` writes registers in place: the file keeps its length.
pub proof fn lemma_load_block_len(regs: Seq<u8>, mem: Seq<u8>, index: u16, count: int)
    requires
        regs.len() == 16,
        count <= 16,
    ensures
        load_block(regs, mem, index, count).len() == regs.len(),
    decreases count,
{
    if count > 0 {
        lemma_load_block_len(regs, mem, index, count - 1);
    }
}

/// A step never changes the sizes of the state: well-formedness is
/// preserved by every operation.
#[verifier::rlimit(50)]
pub proof fn lemma_step_wf(v: VmView, op: OpCode, rand: u8)
    requires
        v.wf(),
        op_wf(op),
    ensures
        step(v, op, rand).wf(),
{
    match op {
        OpCode::StoreMemory(x) => {
            lemma_store_block_len(v.memory, v.registers, v.index, x + 1);
        },
        OpCode::LoadMemory(x) => {
            lemma_load_block_len(v.registers, v.memory, v.index, x + 1);
        },
        _ => {},
    }
}

} // verus!
