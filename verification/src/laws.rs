//! Laws of the instruction set: properties that relate several operations
//! or whole runs, proved from the transition function `step`.

use vstd::prelude::*;

use crate::opcode::OpCode;
use crate::signal::{spec_apply_signal, Signal};
use crate::step::{
    draw_collision, draw_hits, draw_screen, lemma_pixel_index_inverse, load_block, pixel_index,
    sprite_byte, sprite_row_bit, step, store_block,
};
use crate::vm::{mem_addr, wrap_add16, VmView};

verus! {

/// The horizontal origin of a draw whose first operand is register `x`:
/// the register's value, wrapped onto the display width.
pub open spec fn draw_origin_x(v: VmView, x: u8) -> int
    recommends
        v.wf(),
        x < 16,
{
    (v.registers[x as int] % 64) as int
}

/// The vertical origin of a draw whose second operand is register `y`:
/// the register's value, wrapped onto the display height.
pub open spec fn draw_origin_y(v: VmView, y: u8) -> int
    recommends
        v.wf(),
        y < 16,
{
    (v.registers[y as int] % 32) as int
}

/// The four conditional register skips advance the program counter by an
/// extra 2 exactly when their condition holds, and the equal and not-equal
/// forms are logical complements: on any one state, exactly one of the two
/// skips.
pub proof fn lemma_skip_symmetry(v: VmView, x: u8, y: u8, rand: u8)
    requires
        v.wf(),
        x < 16,
        y < 16,
    ensures
        step(v, OpCode::SkipIfRegisterEqual(x, y), rand).pc == wrap_add16(v.pc, 2) <==> v.registers[
            x as int] == v.registers[y as int],
        step(v, OpCode::SkipIfRegisterNotEqual(x, y), rand).pc == wrap_add16(v.pc, 2)
            <==> v.registers[x as int] != v.registers[y as int],
        step(v, OpCode::SkipIfRegisterEqual(x, y), rand).pc == wrap_add16(v.pc, 2) <==> !(step(
            v,
            OpCode::SkipIfRegisterNotEqual(x, y),
            rand,
        ).pc == wrap_add16(v.pc, 2)),
{
    assert(wrap_add16(v.pc, 2) != v.pc);
}

/// Entering a subroutine and returning from it immediately is a net-zero
/// operation: the whole machine state, the program counter and the call
/// stack included, is back to what it was when the call executed.
pub proof fn lemma_subroutine_symmetry(v: VmView, nnn: u16, rand: u8)
    requires
        v.wf(),
    ensures
        step(step(v, OpCode::EnterSubroutine(nnn), rand), OpCode::ExitSubroutine, rand) == v,
{
    let v1 = step(v, OpCode::EnterSubroutine(nnn), rand);
    let v2 = step(v1, OpCode::ExitSubroutine, rand);
    assert(v1.stack.len() == v.stack.len() + 1);
    assert(v1.stack.last() == v.pc);
    assert(v1.stack.drop_last() =~= v.stack);
    assert(v2 =~= v);
}

/// Two addresses within one block transfer never collide: offsets below
/// the size of the address space stay distinct modulo it.
proof fn lemma_mem_addr_distinct(index: u16, j: int, k: int)
    requires
        0 <= j < k < 4096,
    ensures
        mem_addr(index, j) != mem_addr(index, k),
{
    let a = index + j;
    let b = index + k;
    vstd::arithmetic::div_mod::lemma_fundamental_div_mod(a, 4096);
    vstd::arithmetic::div_mod::lemma_fundamental_div_mod(b, 4096);
    if mem_addr(index, j) == mem_addr(index, k) {
        let qa = a / 4096;
        let qb = b / 4096;
        assert(b - a == 4096 * (qb - qa));
        assert(false) by (nonlinear_arith)
            requires
                b - a == 4096 * (qb - qa),
                0 < b - a < 4096,
        ;
    }
}

/// What a block store leaves at the stored addresses: the byte at
/// `index + j` is register `j`, for every `j` below the count.
proof fn lemma_store_block_reads(mem: Seq<u8>, regs: Seq<u8>, index: u16, count: int, j: int)
    requires
        mem.len() == 4096,
        0 <= j < count <= 16,
    ensures
        store_block(mem, regs, index, count)[mem_addr(index, j)] == regs[j],
    decreases count,
{
    crate::step::lemma_store_block_len(mem, regs, index, count - 1);
    if j < count - 1 {
        lemma_store_block_reads(mem, regs, index, count - 1, j);
        lemma_mem_addr_distinct(index, j, count - 1);
    }
}

/// What a block load makes of each register: registers below the count
/// take their memory byte, the rest keep their value.
proof fn lemma_load_block_at(regs: Seq<u8>, mem: Seq<u8>, index: u16, count: int, j: int)
    requires
        regs.len() == 16,
        0 <= count <= 16,
        0 <= j < 16,
    ensures
        j < count ==> load_block(regs, mem, index, count)[j] == mem[mem_addr(index, j)],
        j >= count ==> load_block(regs, mem, index, count)[j] == regs[j],
    decreases count,
{
    if count > 0 {
        crate::step::lemma_load_block_len(regs, mem, index, count - 1);
        if j != count - 1 {
            lemma_load_block_at(regs, mem, index, count - 1, j);
        }
    }
}

/// The block store/load round trip: storing registers `0 ..= x` to memory
/// at the index register and then loading `0 ..= x` back from the same
/// address reproduces the original register file exactly; only the memory
/// keeps the stored bytes.
pub proof fn lemma_store_load_round_trip(v: VmView, x: u8, rand: u8)
    requires
        v.wf(),
        x < 16,
    ensures
        ({
            let v1 = step(v, OpCode::StoreMemory(x), rand);
            let v2 = step(v1, OpCode::LoadMemory(x), rand);
            v2 == (VmView { memory: v1.memory, ..v })
        }),
{
    let v1 = step(v, OpCode::StoreMemory(x), rand);
    let v2 = step(v1, OpCode::LoadMemory(x), rand);
    crate::step::lemma_store_block_len(v.memory, v.registers, v.index, x + 1);
    assert forall|j: int| 0 <= j < 16 implies v2.registers[j] == v.registers[j] by {
        lemma_load_block_at(v.registers, v1.memory, v.index, x + 1, j);
        if j < x + 1 {
            lemma_store_block_reads(v.memory, v.registers, v.index, x + 1, j);
        }
    }
    crate::step::lemma_load_block_len(v.registers, v1.memory, v.index, x + 1);
    assert(v2.registers =~= v.registers);
    assert(v2 =~= (VmView { memory: v1.memory, ..v }));
}

/// One thing the instruction loop does between two render iterations: a
/// signal applied, or one instruction executed with the random byte it
/// drew.
pub enum LoopEvent {
    Signal(Signal),
    Instruction(OpCode, u8),
}

/// The machine after one event.
pub open spec fn apply_event(v: VmView, e: LoopEvent) -> VmView {
    match e {
        LoopEvent::Signal(s) => spec_apply_signal(v, s),
        LoopEvent::Instruction(op, rand) => step(v, op, rand),
    }
}

/// The machine after a whole sequence of events, first first.
pub open spec fn run_events(v: VmView, events: Seq<LoopEvent>) -> VmView
    decreases events.len(),
{
    if events.len() == 0 {
        v
    } else {
        run_events(apply_event(v, events[0]), events.drop_first())
    }
}

/// How many delay-timer decrement signals a sequence of events carries.
pub open spec fn delay_decrements(events: Seq<LoopEvent>) -> int
    decreases events.len(),
{
    if events.len() == 0 {
        0
    } else {
        (if events[0] is Signal && events[0]->Signal_0 is DecrementDelayTimer {
            1int
        } else {
            0int
        }) + delay_decrements(events.drop_first())
    }
}

/// How many sound-timer decrement signals a sequence of events carries.
pub open spec fn sound_decrements(events: Seq<LoopEvent>) -> int
    decreases events.len(),
{
    if events.len() == 0 {
        0
    } else {
        (if events[0] is Signal && events[0]->Signal_0 is DecrementSoundTimer {
            1int
        } else {
            0int
        }) + sound_decrements(events.drop_first())
    }
}

/// Whether an event writes a timer outright: the two instructions that
/// load a register into a timer.
pub open spec fn writes_timer(e: LoopEvent) -> bool {
    match e {
        LoopEvent::Instruction(op, _rand) => op is SetDelayTimerValue || op is SetSoundTimerValue,
        LoopEvent::Signal(_s) => false,
    }
}

/// The run status is monotonic: once `Terminated`, no signal and no
/// instruction brings the machine back to `Active`.
#[verifier::rlimit(50)]
pub proof fn lemma_status_monotonic(v: VmView, e: LoopEvent)
    requires
        v.status is Terminated,
    ensures
        apply_event(v, e).status is Terminated,
{
}

/// The timer cadence: across any run of events in which no instruction
/// writes a timer outright, each timer goes down by at most the number of
/// its decrement signals in the run — one per render iteration — and never
/// below zero, no matter how many instructions executed in between.
pub proof fn lemma_timer_cadence(v: VmView, events: Seq<LoopEvent>)
    requires
        forall|i: int| 0 <= i < events.len() ==> !writes_timer(#[trigger] events[i]),
    ensures
        run_events(v, events).delay_timer >= v.delay_timer - delay_decrements(events),
        run_events(v, events).delay_timer <= v.delay_timer,
        run_events(v, events).delay_timer >= 0,
        run_events(v, events).sound_timer >= v.sound_timer - sound_decrements(events),
        run_events(v, events).sound_timer <= v.sound_timer,
        run_events(v, events).sound_timer >= 0,
    decreases events.len(),
{
    if events.len() > 0 {
        let w = apply_event(v, events[0]);
        assert(!writes_timer(events[0]));
        assert(w.delay_timer <= v.delay_timer);
        assert(w.sound_timer <= v.sound_timer);
        assert forall|i: int| 0 <= i < events.drop_first().len() implies !writes_timer(
            #[trigger] events.drop_first()[i],
        ) by {
            assert(events.drop_first()[i] == events[i + 1]);
        }
        lemma_timer_cadence(w, events.drop_first());
    }
}

/// Drawing a single all-set sprite row twice at one position, onto pixels
/// that start dark: the first draw turns every touched pixel on without a
/// collision; the second turns every touched pixel off again — the display
/// is back to where it started — and sets the flag register to 1.
pub proof fn lemma_draw_twice(v: VmView, x: u8, y: u8, rand: u8)
    requires
        v.wf(),
        x < 16,
        y < 16,
        x != 15,
        y != 15,
        sprite_byte(v, 0) == 0xFF,
        forall|px: int, py: int|
            0 <= px < 64 && 0 <= py < 32 && draw_hits(
                v,
                draw_origin_x(v, x),
                draw_origin_y(v, y),
                1,
                px,
                py,
            ) ==> !v.screen[pixel_index(px, py)],
    ensures
        ({
            let v1 = step(v, OpCode::Draw(x, y, 1), rand);
            let v2 = step(v1, OpCode::Draw(x, y, 1), rand);
            &&& v1.registers[15] == 0
            &&& forall|px: int, py: int|
                0 <= px < 64 && 0 <= py < 32 && draw_hits(
                    v,
                    draw_origin_x(v, x),
                    draw_origin_y(v, y),
                    1,
                    px,
                    py,
                ) ==> v1.screen[pixel_index(px, py)]
            &&& v2.registers[15] == 1
            &&& v2.screen == v.screen
        }),
{
    let x0 = draw_origin_x(v, x);
    let y0 = draw_origin_y(v, y);
    let v1 = step(v, OpCode::Draw(x, y, 1), rand);
    let v2 = step(v1, OpCode::Draw(x, y, 1), rand);

    // the first draw sees no lit pixel under the sprite
    assert(!draw_collision(v, x0, y0, 1)) by {
        if draw_collision(v, x0, y0, 1) {
            let (px, py) = choose|px: int, py: int|
                0 <= px < 64 && 0 <= py < 32 && draw_hits(v, x0, y0, 1, px, py) && v.screen[
                pixel_index(px, py)];
            assert(!v.screen[pixel_index(px, py)]);
        }
    }
    assert(v1.registers[15] == 0);

    // the second draw works on the same sprite at the same origin
    assert(v1.registers[x as int] == v.registers[x as int]);
    assert(v1.registers[y as int] == v.registers[y as int]);
    assert(draw_origin_x(v1, x) == x0);
    assert(draw_origin_y(v1, y) == y0);
    assert(v1.memory == v.memory);
    assert(v1.index == v.index);
    assert(sprite_byte(v1, 0) == 0xFF);
    assert forall|px: int, py: int| true implies draw_hits(v1, x0, y0, 1, px, py) == draw_hits(
        v,
        x0,
        y0,
        1,
        px,
        py,
    ) by {
        assert(sprite_byte(v1, py - y0) == sprite_byte(v, py - y0));
    }

    // touched pixels are lit after the first draw
    assert forall|px: int, py: int|
        0 <= px < 64 && 0 <= py < 32 && draw_hits(v, x0, y0, 1, px, py) implies v1.screen[
        pixel_index(px, py)] by {
        lemma_pixel_index_inverse(px, py);
    }

    // the top-left touched pixel exists and is lit: the second draw collides
    assert(0 <= x0 < 64 && 0 <= y0 < 32);
    assert(sprite_row_bit(0xFF, 0)) by (bit_vector);
    assert(draw_hits(v, x0, y0, 1, x0, y0));
    assert(v1.screen[pixel_index(x0, y0)]);
    assert(draw_collision(v1, x0, y0, 1));
    assert(v2.registers[15] == 1);

    // the second toggle brings every pixel back
    assert forall|i: int| 0 <= i < 2048 implies v2.screen[i] == v.screen[i] by {
        vstd::arithmetic::div_mod::lemma_fundamental_div_mod(i, 64);
        lemma_pixel_index_inverse(i % 64, i / 64);
    }
    assert(v2.screen =~= v.screen);
}

} // verus!
