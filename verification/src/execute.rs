//! The executor: applies one decoded operation to the machine state,
//! verified against the transition function `step`.

use vstd::prelude::*;

use crate::opcode::{op_wf, OpCode, VmError};
use crate::step::{
    bcd_memory, draw_collision, draw_hits, draw_screen, lemma_pixel_index_inverse, load_block,
    pixel_index, sprite_byte, sprite_row_bit, step, step_error, store_block,
};
use crate::vm::{VmView, MEMORY_BYTES, VM};

verus! {

/// Whether the draw loops have already visited pixel `(px, py)` when they
/// stand before column `col` of row `row` (rows and columns relative to the
/// sprite origin).
spec fn drawn_before(x0: int, y0: int, row: int, col: int, px: int, py: int) -> bool {
    py < y0 + row || (py == y0 + row && px < x0 + col)
}

/// The collision seen so far: some visited pixel was hit while set.
spec fn collision_before(v: VmView, x0: int, y0: int, n: int, row: int, col: int) -> bool {
    exists|px: int, py: int|
        0 <= px < 64 && 0 <= py < 32 && draw_hits(v, x0, y0, n, px, py) && drawn_before(
            x0,
            y0,
            row,
            col,
            px,
            py,
        ) && v.screen[pixel_index(px, py)]
}

/// The display as it stands when the draw loops have visited every pixel
/// before column `col` of row `row`: visited hit pixels toggled, the rest
/// untouched.
spec fn draw_partial_screen(v: VmView, x0: int, y0: int, n: int, row: int, col: int) -> Seq<bool> {
    Seq::new(2048, |i: int| if draw_hits(v, x0, y0, n, i % 64, i / 64) && drawn_before(
        x0,
        y0,
        row,
        col,
        i % 64,
        i / 64,
    ) {
        !v.screen[i]
    } else {
        v.screen[i]
    })
}

impl VM {
    /// Applies one decoded operation to the machine state, together with
    /// the random byte `rand` drawn for this step (only `Random` reads it).
    /// The caller must already have advanced the program counter past the
    /// fetched instruction. The new state is exactly `step` of the old one;
    /// the one failure is `StackUnderflow`, on a subroutine return with an
    /// empty call stack, which leaves the state unchanged.
    #[verifier::rlimit(50)]
    pub fn execute(&mut self, op: OpCode, rand: u8) -> (res: Result<(), VmError>)
        requires
            old(self).wf(),
            op_wf(op),
        ensures
            final(self).wf(),
            step_error(old(self)@, op) matches Some(e) ==> res == Err::<(), VmError>(e)
                && final(self)@ == old(self)@,
            step_error(old(self)@, op) is None ==> res == Ok::<(), VmError>(()) && final(self)@
                == step(old(self)@, op, rand),
    {
        proof {
            crate::step::lemma_step_wf(old(self)@, op, rand);
        }
        match op {
            OpCode::SetXtoY(x, y) => {
                let vy = self.registers[y as usize];
                self.registers[x as usize] = vy;
                proof {
                    assert(final(self)@ =~= step(old(self)@, op, rand));
                }
                Ok(())
            },
            OpCode::SaveBCDConversionToMemory(x) => {
                self.exec_bcd(x);
                proof {
                    assert(final(self)@ =~= step(old(self)@, op, rand));
                }
                Ok(())
            },
            OpCode::BitwiseOr(x, y) => {
                let vy = self.registers[y as usize];
                let vx = self.registers[x as usize];
                self.registers[x as usize] = vx | vy;
                proof {
                    assert(final(self)@ =~= step(old(self)@, op, rand));
                }
                Ok(())
            },
            OpCode::BitwiseAnd(x, y) => {
                let vy = self.registers[y as usize];
                let vx = self.registers[x as usize];
                self.registers[x as usize] = vx & vy;
                proof {
                    assert(final(self)@ =~= step(old(self)@, op, rand));
                }
                Ok(())
            },
            OpCode::BitwiseXor(x, y) => {
                let vy = self.registers[y as usize];
                let vx = self.registers[x as usize];
                self.registers[x as usize] = vx ^ vy;
                proof {
                    assert(final(self)@ =~= step(old(self)@, op, rand));
                }
                Ok(())
            },
            OpCode::ShiftRight(x, y) => {
                if self.load_y_before_shift {
                    let vy = self.registers[y as usize];
                    self.registers[x as usize] = vy;
                }
                let value = self.registers[x as usize];
                self.registers[15] = value & 1;
                let cur = self.registers[x as usize];
                self.registers[x as usize] = cur >> 1u8;
                proof {
                    assert(final(self)@ =~= step(old(self)@, op, rand));
                }
                Ok(())
            },
            OpCode::ShiftLeft(x, y) => {
                if self.load_y_before_shift {
                    let vy = self.registers[y as usize];
                    self.registers[x as usize] = vy;
                }
                let value = self.registers[x as usize];
                self.registers[15] = if value & 0x80 == 0x80 {
                    1
                } else {
                    0
                };
                let cur = self.registers[x as usize];
                self.registers[x as usize] = cur << 1u8;
                proof {
                    assert(final(self)@ =~= step(old(self)@, op, rand));
                }
                Ok(())
            },
            OpCode::SkipIfMemoryEqual(x, nn) => {
                if self.registers[x as usize] == nn {
                    self.pc = self.pc.wrapping_add(2);
                }
                proof {
                    assert(final(self)@ =~= step(old(self)@, op, rand));
                }
                Ok(())
            },
            OpCode::SkipIfMemoryNotEqual(x, nn) => {
                if self.registers[x as usize] != nn {
                    self.pc = self.pc.wrapping_add(2);
                }
                proof {
                    assert(final(self)@ =~= step(old(self)@, op, rand));
                }
                Ok(())
            },
            OpCode::SkipIfRegisterEqual(x, y) => {
                if self.registers[x as usize] == self.registers[y as usize] {
                    self.pc = self.pc.wrapping_add(2);
                }
                proof {
                    assert(final(self)@ =~= step(old(self)@, op, rand));
                }
                Ok(())
            },
            OpCode::SkipIfRegisterNotEqual(x, y) => {
                if self.registers[x as usize] != self.registers[y as usize] {
                    self.pc = self.pc.wrapping_add(2);
                }
                proof {
                    assert(final(self)@ =~= step(old(self)@, op, rand));
                }
                Ok(())
            },
            OpCode::SetRegister(x, nn) => {
                self.registers[x as usize] = nn;
                proof {
                    assert(final(self)@ =~= step(old(self)@, op, rand));
                }
                Ok(())
            },
            OpCode::AddRegister(x, nn) => {
                let vx = self.registers[x as usize];
                self.registers[x as usize] = vx.wrapping_add(nn);
                proof {
                    assert(final(self)@ =~= step(old(self)@, op, rand));
                }
                Ok(())
            },
            OpCode::ClearScreen => {
                self.screen = VM::create_screen();
                proof {
                    assert(final(self)@ =~= step(old(self)@, op, rand));
                }
                Ok(())
            },
            OpCode::Draw(x, y, n) => {
                self.exec_draw(x, y, n);
                proof {
                    assert(step(old(self)@, op, 0) =~= step(old(self)@, op, rand));
                }
                Ok(())
            },
            OpCode::Jump(nnn) => {
                self.pc = nnn;
                proof {
                    assert(final(self)@ =~= step(old(self)@, op, rand));
                }
                Ok(())
            },
            OpCode::ExitSubroutine => {
                match self.stack.pop() {
                    Some(addr) => {
                        self.pc = addr;
                        proof {
                            assert(final(self)@ =~= step(old(self)@, op, rand));
                        }
                        Ok(())
                    },
                    None => {
                        proof {
                            assert(final(self)@ =~= old(self)@);
                        }
                        Err(VmError::StackUnderflow)
                    },
                }
            },
            OpCode::EnterSubroutine(nnn) => {
                let pc = self.pc;
                self.stack.push(pc);
                self.pc = nnn;
                proof {
                    assert(final(self)@ =~= step(old(self)@, op, rand));
                }
                Ok(())
            },
            OpCode::JumpWithOffset(nnn) => {
                let offset = self.registers[0] as u16;
                self.pc = nnn.wrapping_add(offset);
                proof {
                    assert(final(self)@ =~= step(old(self)@, op, rand));
                }
                Ok(())
            },
            OpCode::SkipIfKeyPressed(x) => {
                let r = self.registers[x as usize];
                let which = r & 0xF;
                proof {
                    assert(r & 0xF < 16) by (bit_vector);
                }
                if (self.keys >> (which as u16)) & 1 == 1 {
                    self.pc = self.pc.wrapping_add(2);
                }
                proof {
                    assert(final(self)@ =~= step(old(self)@, op, rand));
                }
                Ok(())
            },
            OpCode::SkipIfKeyNotPressed(x) => {
                let r = self.registers[x as usize];
                let which = r & 0xF;
                let k = self.keys;
                proof {
                    assert(r & 0xF < 16) by (bit_vector);
                    assert(((k >> ((r & 0xF) as u16)) & 1 == 0) == !((k >> ((r & 0xF) as u16)) & 1
                        == 1)) by (bit_vector);
                }
                if (k >> (which as u16)) & 1 == 0 {
                    self.pc = self.pc.wrapping_add(2);
                }
                proof {
                    assert(final(self)@ =~= step(old(self)@, op, rand));
                }
                Ok(())
            },
            OpCode::GetKeyBlocking(_x) => {
                if self.keys == 0 {
                    self.pc = self.pc.wrapping_sub(2);
                }
                proof {
                    assert(final(self)@ =~= step(old(self)@, op, rand));
                }
                Ok(())
            },
            OpCode::AddYtoX(x, y) => {
                let a = self.registers[x as usize];
                let b = self.registers[y as usize];
                let sum = a as u16 + b as u16;
                self.registers[x as usize] = a.wrapping_add(b);
                self.registers[15] = if sum > 255 {
                    1
                } else {
                    0
                };
                proof {
                    assert(final(self)@ =~= step(old(self)@, op, rand));
                }
                Ok(())
            },
            OpCode::SubtractYfromX(x, y) => {
                let a = self.registers[x as usize];
                let b = self.registers[y as usize];
                self.registers[x as usize] = a.wrapping_sub(b);
                self.registers[15] = if a >= b {
                    1
                } else {
                    0
                };
                proof {
                    assert(final(self)@ =~= step(old(self)@, op, rand));
                }
                Ok(())
            },
            OpCode::SubtractXfromY(x, y) => {
                let a = self.registers[x as usize];
                let b = self.registers[y as usize];
                self.registers[x as usize] = b.wrapping_sub(a);
                self.registers[15] = if b >= a {
                    1
                } else {
                    0
                };
                proof {
                    assert(final(self)@ =~= step(old(self)@, op, rand));
                }
                Ok(())
            },
            OpCode::SetIndexRegister(nnn) => {
                self.index = nnn;
                proof {
                    assert(final(self)@ =~= step(old(self)@, op, rand));
                }
                Ok(())
            },
            OpCode::AddXToIndexRegister(x) => {
                let vx = self.registers[x as usize] as u16;
                self.index = self.index.wrapping_add(vx);
                proof {
                    assert(final(self)@ =~= step(old(self)@, op, rand));
                }
                Ok(())
            },
            OpCode::SetIndexToFontCharacter(x) => {
                // the digit is the value held in register x, low nibble
                let digit = self.registers[x as usize] & 0xF;
                self.index = (digit as u16) * 5;
                proof {
                    assert(final(self)@ =~= step(old(self)@, op, rand));
                }
                Ok(())
            },
            OpCode::StoreMemory(x) => {
                self.exec_store_memory(x);
                proof {
                    assert(final(self)@ =~= step(old(self)@, op, rand));
                }
                Ok(())
            },
            OpCode::LoadMemory(x) => {
                self.exec_load_memory(x);
                proof {
                    assert(final(self)@ =~= step(old(self)@, op, rand));
                }
                Ok(())
            },
            OpCode::Random(x, nn) => {
                self.registers[x as usize] = nn & rand;
                proof {
                    assert(final(self)@ =~= step(old(self)@, op, rand));
                }
                Ok(())
            },
            OpCode::SetSoundTimerValue(x) => {
                self.sound_timer = self.registers[x as usize];
                proof {
                    assert(final(self)@ =~= step(old(self)@, op, rand));
                }
                Ok(())
            },
            OpCode::GetDelayTimerValue(x) => {
                let t = self.delay_timer;
                self.registers[x as usize] = t;
                proof {
                    assert(final(self)@ =~= step(old(self)@, op, rand));
                }
                Ok(())
            },
            OpCode::SetDelayTimerValue(x) => {
                self.delay_timer = self.registers[x as usize];
                proof {
                    assert(final(self)@ =~= step(old(self)@, op, rand));
                }
                Ok(())
            },
        }
    }

    /// The block store: registers `0 ..= x` written to memory at the index
    /// register.
    fn exec_store_memory(&mut self, x: u8)
        requires
            old(self).wf(),
            x < 16,
        ensures
            final(self)@ == (VmView {
                memory: store_block(
                    old(self)@.memory,
                    old(self)@.registers,
                    old(self)@.index,
                    x + 1,
                ),
                ..old(self)@
            }),
    {
        let mut i: usize = 0;
        while i < (x as usize) + 1
            invariant
                old(self).wf(),
                x < 16,
                i <= x + 1,
                self@ == (VmView { memory: self@.memory, ..old(self)@ }),
                self.memory@.len() == 4096,
                self.memory@ == store_block(
                    old(self)@.memory,
                    old(self)@.registers,
                    old(self)@.index,
                    i as int,
                ),
            decreases x + 1 - i,
        {
            let addr = ((self.index as usize) + i) % MEMORY_BYTES;
            self.memory[addr] = self.registers[i];
            i = i + 1;
        }
        proof {
            assert(final(self)@ =~= (VmView {
                memory: store_block(
                    old(self)@.memory,
                    old(self)@.registers,
                    old(self)@.index,
                    x + 1,
                ),
                ..old(self)@
            }));
        }
    }

    /// The block load: registers `0 ..= x` read back from memory at the
    /// index register.
    fn exec_load_memory(&mut self, x: u8)
        requires
            old(self).wf(),
            x < 16,
        ensures
            final(self)@ == (VmView {
                registers: load_block(
                    old(self)@.registers,
                    old(self)@.memory,
                    old(self)@.index,
                    x + 1,
                ),
                ..old(self)@
            }),
    {
        let mut i: usize = 0;
        while i < (x as usize) + 1
            invariant
                old(self).wf(),
                x < 16,
                i <= x + 1,
                self@ == (VmView { registers: self@.registers, ..old(self)@ }),
                self.registers@.len() == 16,
                self.registers@ == load_block(
                    old(self)@.registers,
                    old(self)@.memory,
                    old(self)@.index,
                    i as int,
                ),
            decreases x + 1 - i,
        {
            let addr = ((self.index as usize) + i) % MEMORY_BYTES;
            self.registers[i] = self.memory[addr];
            i = i + 1;
        }
        proof {
            assert(final(self)@ =~= (VmView {
                registers: load_block(
                    old(self)@.registers,
                    old(self)@.memory,
                    old(self)@.index,
                    x + 1,
                ),
                ..old(self)@
            }));
        }
    }

    /// The sprite draw: `n` rows read from memory at the index register,
    /// XOR-composited at `(Vx mod 64, Vy mod 32)`, clipped at the right and
    /// bottom edges; the flag register records whether any pixel was turned
    /// off.
    #[verifier::rlimit(100)]
    fn exec_draw(&mut self, x: u8, y: u8, n: u8)
        requires
            old(self).wf(),
            x < 16,
            y < 16,
        ensures
            final(self)@ == step(old(self)@, OpCode::Draw(x, y, n), 0),
    {
        let ghost v0 = old(self)@;
        let x0 = (self.registers[x as usize] % 64) as usize;
        let y0 = (self.registers[y as usize] % 32) as usize;
        self.registers[15] = 0;
        proof {
            if collision_before(v0, x0 as int, y0 as int, n as int, 0, 0) {
                let (px, py) = choose|px: int, py: int|
                    0 <= px < 64 && 0 <= py < 32 && draw_hits(v0, x0 as int, y0 as int, n as int, px, py)
                        && drawn_before(x0 as int, y0 as int, 0, 0, px, py) && v0.screen[pixel_index(px, py)];
                assert(false);
            }
            assert(self.screen@ =~= draw_partial_screen(v0, x0 as int, y0 as int, n as int, 0, 0));
        }
        let mut row: usize = 0;
        while row < n as usize && y0 + row < 32
            invariant
                old(self).wf(),
                x < 16,
                y < 16,
                x0 < 64,
                y0 < 32,
                x0 as int == v0.registers[x as int] % 64,
                y0 as int == v0.registers[y as int] % 32,
                v0 == old(self)@,
                row <= n,
                self@ == (VmView { screen: self@.screen, registers: self@.registers, ..v0 }),
                self.screen@.len() == 2048,
                self.registers@.len() == 16,
                self.screen@ == draw_partial_screen(v0, x0 as int, y0 as int, n as int, row as int, 0),
                self.registers@ == v0.registers.update(
                    15,
                    if collision_before(v0, x0 as int, y0 as int, n as int, row as int, 0) {
                        1u8
                    } else {
                        0u8
                    },
                ),
            decreases n - row,
        {
            let sprite = self.memory[((self.index as usize) + row) % MEMORY_BYTES];
            proof {
                assert(sprite == sprite_byte(v0, row as int));
            }
            let mut col: usize = 0;
            while col < 8 && x0 + col < 64
                invariant
                    old(self).wf(),
                    x < 16,
                    y < 16,
                    x0 < 64,
                    y0 < 32,
                    x0 as int == v0.registers[x as int] % 64,
                    y0 as int == v0.registers[y as int] % 32,
                    v0 == old(self)@,
                    row < n,
                    y0 + row < 32,
                    col <= 8,
                    sprite == sprite_byte(v0, row as int),
                    self@ == (VmView { screen: self@.screen, registers: self@.registers, ..v0 }),
                    self.screen@.len() == 2048,
                    self.registers@.len() == 16,
                    self.screen@ == draw_partial_screen(
                        v0,
                        x0 as int,
                        y0 as int,
                        n as int,
                        row as int,
                        col as int,
                    ),
                    self.registers@ == v0.registers.update(
                        15,
                        if collision_before(
                            v0,
                            x0 as int,
                            y0 as int,
                            n as int,
                            row as int,
                            col as int,
                        ) {
                            1u8
                        } else {
                            0u8
                        },
                    ),
                decreases 8 - col,
            {
                let ghost gx = x0 as int + col as int;
                let ghost gy = y0 as int + row as int;
                let bit_set = sprite & (0x80u8 >> (col as u8)) != 0;
                let idx = (y0 + row) * 64 + (x0 + col);
                proof {
                    lemma_pixel_index_inverse(gx, gy);
                    assert(idx as int == pixel_index(gx, gy));
                    assert(bit_set == sprite_row_bit(sprite_byte(v0, row as int), col as int));
                    // the pixel under the cursor has not been visited yet
                    assert(!drawn_before(x0 as int, y0 as int, row as int, col as int, gx, gy));
                    assert(self.screen@[idx as int] == v0.screen[idx as int]);
                }
                if bit_set {
                    let current = self.screen[idx];
                    if current {
                        self.registers[15] = 1;
                        proof {
                            assert(draw_hits(v0, x0 as int, y0 as int, n as int, gx, gy));
                            assert(drawn_before(
                                x0 as int,
                                y0 as int,
                                row as int,
                                col as int + 1,
                                gx,
                                gy,
                            ));
                            assert(v0.screen[pixel_index(gx, gy)]);
                            assert(collision_before(
                                v0,
                                x0 as int,
                                y0 as int,
                                n as int,
                                row as int,
                                col as int + 1,
                            ));
                            assert(self.registers@ =~= v0.registers.update(15, 1u8));
                        }
                    }
                    self.screen[idx] = !current;
                }
                proof {
                    let r = row as int;
                    let c = col as int;
                    let gx0 = x0 as int;
                    let gy0 = y0 as int;
                    let gn = n as int;
                    // the screen now reflects one more visited pixel
                    assert forall|i: int| 0 <= i < 2048 implies self.screen@[i]
                        == draw_partial_screen(v0, gx0, gy0, gn, r, c + 1)[i] by {
                        vstd::arithmetic::div_mod::lemma_fundamental_div_mod(i, 64);
                        if i == idx as int {
                            assert(i % 64 == gx && i / 64 == gy);
                        } else {
                            assert(!(i % 64 == gx && i / 64 == gy));
                        }
                    }
                    assert(self.screen@ =~= draw_partial_screen(v0, gx0, gy0, gn, r, c + 1));
                    // the collision flag now reflects one more visited pixel
                    if collision_before(v0, gx0, gy0, gn, r, c + 1) {
                        let (px, py) = choose|px: int, py: int|
                            0 <= px < 64 && 0 <= py < 32 && draw_hits(v0, gx0, gy0, gn, px, py)
                                && drawn_before(gx0, gy0, r, c + 1, px, py) && v0.screen[
                                pixel_index(px, py)];
                        if !drawn_before(gx0, gy0, r, c, px, py) {
                            assert(px == gx && py == gy);
                            assert(bit_set);
                            assert(v0.screen[idx as int]);
                        } else {
                            assert(collision_before(v0, gx0, gy0, gn, r, c));
                        }
                    } else {
                        assert(!collision_before(v0, gx0, gy0, gn, r, c)) by {
                            if collision_before(v0, gx0, gy0, gn, r, c) {
                                let (px, py) = choose|px: int, py: int|
                                    0 <= px < 64 && 0 <= py < 32 && draw_hits(
                                        v0,
                                        gx0,
                                        gy0,
                                        gn,
                                        px,
                                        py,
                                    ) && drawn_before(gx0, gy0, r, c, px, py) && v0.screen[
                                    pixel_index(px, py)];
                                assert(drawn_before(gx0, gy0, r, c + 1, px, py));
                            }
                        }
                    }
                    assert(self.registers@ =~= v0.registers.update(
                        15,
                        if collision_before(v0, gx0, gy0, gn, r, c + 1) {
                            1u8
                        } else {
                            0u8
                        },
                    ));
                }
                col = col + 1;
            }
            proof {
                let r = row as int;
                let c = col as int;
                let gx0 = x0 as int;
                let gy0 = y0 as int;
                let gn = n as int;
                // every hit pixel of this row has been visited: move to the
                // next row
                assert forall|i: int| 0 <= i < 2048 implies draw_partial_screen(
                    v0,
                    gx0,
                    gy0,
                    gn,
                    r,
                    c,
                )[i] == draw_partial_screen(v0, gx0, gy0, gn, r + 1, 0)[i] by {
                    vstd::arithmetic::div_mod::lemma_fundamental_div_mod(i, 64);
                }
                assert(draw_partial_screen(v0, gx0, gy0, gn, r, c) =~= draw_partial_screen(
                    v0,
                    gx0,
                    gy0,
                    gn,
                    r + 1,
                    0,
                ));
                assert(collision_before(v0, gx0, gy0, gn, r, c) == collision_before(
                    v0,
                    gx0,
                    gy0,
                    gn,
                    r + 1,
                    0,
                )) by {
                    if collision_before(v0, gx0, gy0, gn, r, c) {
                        let (px, py) = choose|px: int, py: int|
                            0 <= px < 64 && 0 <= py < 32 && draw_hits(v0, gx0, gy0, gn, px, py)
                                && drawn_before(gx0, gy0, r, c, px, py) && v0.screen[pixel_index(
                                px,
                                py,
                            )];
                        assert(drawn_before(gx0, gy0, r + 1, 0, px, py));
                    }
                    if collision_before(v0, gx0, gy0, gn, r + 1, 0) {
                        let (px, py) = choose|px: int, py: int|
                            0 <= px < 64 && 0 <= py < 32 && draw_hits(v0, gx0, gy0, gn, px, py)
                                && drawn_before(gx0, gy0, r + 1, 0, px, py) && v0.screen[
                                pixel_index(px, py)];
                        assert(drawn_before(gx0, gy0, r, c, px, py));
                    }
                }
            }
            row = row + 1;
        }
        proof {
            let r = row as int;
            let gx0 = x0 as int;
            let gy0 = y0 as int;
            let gn = n as int;
            // every hit pixel has been visited: the partial screen is the
            // full draw
            assert forall|i: int| 0 <= i < 2048 implies draw_partial_screen(
                v0,
                gx0,
                gy0,
                gn,
                r,
                0,
            )[i] == draw_screen(v0, gx0, gy0, gn)[i] by {
                vstd::arithmetic::div_mod::lemma_fundamental_div_mod(i, 64);
            }
            assert(draw_partial_screen(v0, gx0, gy0, gn, r, 0) =~= draw_screen(v0, gx0, gy0, gn));
            assert(collision_before(v0, gx0, gy0, gn, r, 0) == draw_collision(v0, gx0, gy0, gn))
                by {
                if collision_before(v0, gx0, gy0, gn, r, 0) {
                    let (px, py) = choose|px: int, py: int|
                        0 <= px < 64 && 0 <= py < 32 && draw_hits(v0, gx0, gy0, gn, px, py)
                            && drawn_before(gx0, gy0, r, 0, px, py) && v0.screen[pixel_index(
                            px,
                            py,
                        )];
                    assert(draw_collision(v0, gx0, gy0, gn));
                }
                if draw_collision(v0, gx0, gy0, gn) {
                    let (px, py) = choose|px: int, py: int|
                        0 <= px < 64 && 0 <= py < 32 && draw_hits(v0, gx0, gy0, gn, px, py)
                            && v0.screen[pixel_index(px, py)];
                    assert(drawn_before(gx0, gy0, r, 0, px, py));
                }
            }
            assert(final(self)@ =~= step(old(self)@, OpCode::Draw(x, y, n), 0));
        }
    }

    /// The decimal expansion: hundreds, tens and ones of register `x`
    /// written at the index register.
    fn exec_bcd(&mut self, x: u8)
        requires
            old(self).wf(),
            x < 16,
        ensures
            final(self)@ == (VmView {
                memory: bcd_memory(old(self)@.memory, old(self)@.index, old(self)@.registers[
                    x as int]),
                ..old(self)@
            }),
    {
        let value = self.registers[x as usize];
        let hundreds = value / 100;
        let tens = (value / 10) % 10;
        let ones = value % 10;
        let base = self.index as usize;
        self.memory[base % MEMORY_BYTES] = hundreds;
        self.memory[(base + 1) % MEMORY_BYTES] = tens;
        self.memory[(base + 2) % MEMORY_BYTES] = ones;
        proof {
            assert(final(self)@ =~= (VmView {
                memory: bcd_memory(old(self)@.memory, old(self)@.index, old(self)@.registers[
                    x as int]),
                ..old(self)@
            }));
        }
    }
}

} // verus!
