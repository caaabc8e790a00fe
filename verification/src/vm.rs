//! The machine state: memory, registers, program counter, call stack,
//! display, timers, keypad and run status, together with construction,
//! ROM loading, fetch and decode.

use vstd::prelude::*;

use crate::font::{font_bytes, font_table, FONT_BYTES};
use crate::opcode::{spec_decode, OpCode, VmError};

verus! {

/// Bytes of addressable memory.
pub const MEMORY_BYTES: usize = 4096;

/// Width of the display in pixels.
pub const SCREEN_WIDTH: usize = 64;

/// Height of the display in pixels.
pub const SCREEN_HEIGHT: usize = 32;

/// Pixels of the display.
pub const SCREEN_PIXELS: usize = 2048;

/// The address at which a program image is loaded and where execution
/// starts.
pub const ROM_START: usize = 512;

/// The display: one boolean per pixel, row-major, so pixel `(x, y)` is entry
/// `y * SCREEN_WIDTH + x`.
pub type Screen = Vec<bool>;

/// Run state of the machine: a one-way transition from `Active` to
/// `Terminated`.
#[derive(Clone, Copy, Debug, PartialEq, Eq, Structural)]
pub enum Status {
    Active,
    Terminated,
}

/// The mathematical model of a machine: every component of the state as a
/// plain value or sequence.
#[verifier::ext_equal]
pub ghost struct VmView {
    pub memory: Seq<u8>,
    pub registers: Seq<u8>,
    pub screen: Seq<bool>,
    pub stack: Seq<u16>,
    pub pc: u16,
    pub index: u16,
    pub delay_timer: u8,
    pub sound_timer: u8,
    pub keys: u16,
    pub status: Status,
    pub load_y_before_shift: bool,
}

impl VmView {
    /// The sizes the machine is built with: 4096 bytes of memory, 16
    /// registers, 64x32 pixels.
    pub open spec fn wf(self) -> bool {
        &&& self.memory.len() == 4096
        &&& self.registers.len() == 16
        &&& self.screen.len() == 2048
    }
}

/// 16-bit addition that wraps around, as the program counter and the index
/// register do.
pub open spec fn wrap_add16(a: u16, b: u16) -> u16 {
    if a + b > 0xFFFF {
        (a + b - 0x10000) as u16
    } else {
        (a + b) as u16
    }
}

/// 16-bit subtraction of 2 that wraps around: the program-counter rewind of
/// the blocking key wait.
pub open spec fn wrap_back2(a: u16) -> u16 {
    if a >= 2 {
        (a - 2) as u16
    } else {
        (a + 0x10000 - 2) as u16
    }
}

/// The memory address `off` bytes past `base`, taken modulo the 4096-byte
/// address space.
pub open spec fn mem_addr(base: u16, off: int) -> int
    recommends
        off >= 0,
{
    (base + off) % 4096
}

/// The machine state at construction: font at the bottom of memory, all
/// else zeroed, the program counter at the load address, the shift quirk on.
pub open spec fn initial_state() -> VmView {
    VmView {
        memory: Seq::new(4096, |i: int| if i < 80 { font_table()[i] } else { 0u8 }),
        registers: Seq::new(16, |_i: int| 0u8),
        screen: Seq::new(2048, |_i: int| false),
        stack: Seq::<u16>::empty(),
        pc: 0x200,
        index: 0,
        delay_timer: 0,
        sound_timer: 0,
        keys: 0,
        status: Status::Active,
        load_y_before_shift: true,
    }
}

/// The memory after a program image `rom` is written verbatim starting at
/// the load address.
pub open spec fn loaded_memory(mem: Seq<u8>, rom: Seq<u8>) -> Seq<u8>
    recommends
        mem.len() == 4096,
        rom.len() <= 4096 - 512,
{
    Seq::new(mem.len(), |i: int| if 512 <= i < 512 + rom.len() { rom[i - 512] } else { mem[i] })
}

/// The 16-bit instruction word fetched at the program counter: two
/// consecutive memory bytes, big-endian, each address taken modulo the
/// address space.
pub open spec fn opcode_at(v: VmView) -> u16 {
    (v.memory[mem_addr(v.pc, 0)] * 256 + v.memory[mem_addr(v.pc, 1)]) as u16
}

/// The machine, one instruction interpreter with its complete state. All
/// methods preserve the well-formedness `wf`.
pub struct VM {
    pub memory: Vec<u8>,
    pub registers: Vec<u8>,
    pub screen: Screen,
    pub stack: Vec<u16>,
    pub pc: u16,
    pub index: u16,
    pub delay_timer: u8,
    pub sound_timer: u8,
    pub keys: u16,
    pub status: Status,
    pub load_y_before_shift: bool,
}

impl View for VM {
    type V = VmView;

    open spec fn view(&self) -> VmView {
        VmView {
            memory: self.memory@,
            registers: self.registers@,
            screen: self.screen@,
            stack: self.stack@,
            pc: self.pc,
            index: self.index,
            delay_timer: self.delay_timer,
            sound_timer: self.sound_timer,
            keys: self.keys,
            status: self.status,
            load_y_before_shift: self.load_y_before_shift,
        }
    }
}

/// Relies on `rand::random`: one byte from the thread-local generator.
/// Nothing is promised of the value; every caller is verified for every
/// byte that could come back.
#[verifier::external_body]
fn random_byte() -> (r: u8) {
    rand::random()
}

/// A vector of `n` zero bytes.
fn zero_bytes(n: usize) -> (v: Vec<u8>)
    ensures
        v@ == Seq::new(n as nat, |_i: int| 0u8),
{
    let mut v: Vec<u8> = Vec::new();
    let mut i: usize = 0;
    while i < n
        invariant
            i <= n,
            v@.len() == i,
            forall|j: int| 0 <= j < i ==> v@[j] == 0u8,
        decreases n - i,
    {
        v.push(0);
        i = i + 1;
    }
    proof {
        assert(v@ =~= Seq::new(n as nat, |_i: int| 0u8));
    }
    v
}

impl VM {
    /// Short for `self@.wf()`: the state has its built sizes.
    pub open spec fn wf(&self) -> bool {
        self@.wf()
    }

    /// A fresh machine: cleared display and registers, font in memory,
    /// program counter at the load address.
    pub fn new() -> (vm: VM)
        ensures
            vm.wf(),
            vm@ == initial_state(),
    {
        let mut memory = zero_bytes(MEMORY_BYTES);
        let font = font_bytes();
        let mut i: usize = 0;
        while i < FONT_BYTES
            invariant
                i <= 80,
                font@ == font_table(),
                memory@.len() == 4096,
                forall|j: int| 0 <= j < i ==> memory@[j] == font_table()[j],
                forall|j: int| i <= j < 4096 ==> memory@[j] == 0u8,
            decreases 80 - i,
        {
            proof {
                assert(font_table().len() == 80);
            }
            memory[i] = font[i];
            i = i + 1;
        }

        let vm = VM {
            memory,
            screen: Self::create_screen(),
            index: 0,
            pc: 0x200,
            stack: Vec::new(),
            registers: zero_bytes(16),
            delay_timer: 0,
            sound_timer: 0,
            keys: 0,
            status: Status::Active,
            load_y_before_shift: true,
        };
        proof {
            assert(vm.memory@ =~= initial_state().memory);
            assert(vm.registers@ =~= initial_state().registers);
            assert(vm.screen@ =~= initial_state().screen);
            assert(vm.stack@ =~= initial_state().stack);
            assert(vm@ =~= initial_state());
        }
        vm
    }

    /// A cleared display: every pixel off.
    pub fn create_screen() -> (s: Screen)
        ensures
            s@ == Seq::new(2048, |_i: int| false),
    {
        let mut s: Vec<bool> = Vec::new();
        let mut i: usize = 0;
        while i < SCREEN_PIXELS
            invariant
                i <= 2048,
                s@.len() == i,
                forall|j: int| 0 <= j < i ==> s@[j] == false,
            decreases 2048 - i,
        {
            s.push(false);
            i = i + 1;
        }
        proof {
            assert(s@ =~= Seq::new(2048, |_i: int| false));
        }
        s
    }

    /// Writes a program image verbatim starting at the load address.
    /// An image that does not fit below the memory ceiling is rejected as
    /// `LoadTooLarge` and the machine is left unchanged.
    pub fn load_rom(&mut self, data: Vec<u8>) -> (res: Result<(), VmError>)
        requires
            old(self).wf(),
        ensures
            final(self).wf(),
            data@.len() <= 3584 ==> res == Ok::<(), VmError>(()) && final(self)@ == (VmView {
                memory: loaded_memory(old(self)@.memory, data@),
                ..old(self)@
            }),
            data@.len() > 3584 ==> res == Err::<(), VmError>(VmError::LoadTooLarge) && final(self)@
                == old(self)@,
    {
        if data.len() > MEMORY_BYTES - ROM_START {
            return Err(VmError::LoadTooLarge);
        }
        let mut i: usize = 0;
        while i < data.len()
            invariant
                old(self).wf(),
                data@.len() <= 3584,
                i <= data@.len(),
                self@ == (VmView {
                    memory: self@.memory,
                    ..old(self)@
                }),
                self.memory@.len() == 4096,
                forall|j: int| 512 <= j < 512 + i ==> self.memory@[j] == data@[j - 512],
                forall|j: int|
                    0 <= j < 4096 && !(512 <= j < 512 + i) ==> self.memory@[j] == old(
                        self,
                    )@.memory[j],
            decreases data@.len() - i,
        {
            self.memory[ROM_START + i] = data[i];
            i = i + 1;
        }
        proof {
            assert(self.memory@ =~= loaded_memory(old(self)@.memory, data@));
            assert(self@ =~= (VmView { memory: loaded_memory(old(self)@.memory, data@), ..old(
                self,
            )@ }));
        }
        Ok(())
    }

    /// Reads the two instruction bytes at the program counter (big-endian,
    /// addresses taken modulo the address space) and advances the counter
    /// past them.
    pub(crate) fn fetch(&mut self) -> (op: u16)
        requires
            old(self).wf(),
        ensures
            final(self).wf(),
            op == opcode_at(old(self)@),
            final(self)@ == (VmView { pc: wrap_add16(old(self)@.pc, 2), ..old(self)@ }),
    {
        let hi_addr = (self.pc as usize) % MEMORY_BYTES;
        let lo_addr = ((self.pc as usize) + 1) % MEMORY_BYTES;
        let byte1 = self.memory[hi_addr] as u16;
        let byte2 = self.memory[lo_addr] as u16;
        let instruction = byte1 * 256 + byte2;
        self.pc = self.pc.wrapping_add(2);
        proof {
            assert(final(self)@ =~= (VmView { pc: wrap_add16(old(self)@.pc, 2), ..old(self)@ }));
        }
        instruction
    }

    /// Decodes a 16-bit instruction word against the catalog: total and
    /// deterministic, `UnknownOpcode` exactly on the words outside it.
    pub fn decode(opcode: u16) -> (res: Result<OpCode, VmError>)
        ensures
            spec_decode(opcode) matches Some(op) ==> res == Ok::<OpCode, VmError>(op),
            spec_decode(opcode) is None ==> res == Err::<OpCode, VmError>(
                VmError::UnknownOpcode(opcode),
            ),
    {
        let hi = opcode & 0xF000;
        let x = ((opcode >> 8) & 0xF) as u8;
        let y = ((opcode >> 4) & 0xF) as u8;
        let n = (opcode & 0xF) as u8;
        let nn = (opcode & 0xFF) as u8;
        let nnn = opcode & 0xFFF;
        if hi == 0x0000 {
            if opcode == 0x00E0 {
                Ok(OpCode::ClearScreen)
            } else if opcode == 0x00EE {
                Ok(OpCode::ExitSubroutine)
            } else {
                Err(VmError::UnknownOpcode(opcode))
            }
        } else if hi == 0x1000 {
            Ok(OpCode::Jump(nnn))
        } else if hi == 0x2000 {
            Ok(OpCode::EnterSubroutine(nnn))
        } else if hi == 0x3000 {
            Ok(OpCode::SkipIfMemoryEqual(x, nn))
        } else if hi == 0x4000 {
            Ok(OpCode::SkipIfMemoryNotEqual(x, nn))
        } else if hi == 0x5000 {
            Ok(OpCode::SkipIfRegisterEqual(x, y))
        } else if hi == 0x6000 {
            Ok(OpCode::SetRegister(x, nn))
        } else if hi == 0x7000 {
            Ok(OpCode::AddRegister(x, nn))
        } else if hi == 0x8000 {
            let lo = opcode & 0xF;
            if lo == 0x0 {
                Ok(OpCode::SetXtoY(x, y))
            } else if lo == 0x1 {
                Ok(OpCode::BitwiseOr(x, y))
            } else if lo == 0x2 {
                Ok(OpCode::BitwiseAnd(x, y))
            } else if lo == 0x3 {
                Ok(OpCode::BitwiseXor(x, y))
            } else if lo == 0x4 {
                Ok(OpCode::AddYtoX(x, y))
            } else if lo == 0x5 {
                Ok(OpCode::SubtractYfromX(x, y))
            } else if lo == 0x6 {
                Ok(OpCode::ShiftRight(x, y))
            } else if lo == 0x7 {
                Ok(OpCode::SubtractXfromY(x, y))
            } else if lo == 0xE {
                Ok(OpCode::ShiftLeft(x, y))
            } else {
                Err(VmError::UnknownOpcode(opcode))
            }
        } else if hi == 0x9000 {
            Ok(OpCode::SkipIfRegisterNotEqual(x, y))
        } else if hi == 0xA000 {
            Ok(OpCode::SetIndexRegister(nnn))
        } else if hi == 0xB000 {
            Ok(OpCode::JumpWithOffset(nnn))
        } else if hi == 0xC000 {
            Ok(OpCode::Random(x, nn))
        } else if hi == 0xD000 {
            Ok(OpCode::Draw(x, y, n))
        } else if hi == 0xE000 {
            let lo = opcode & 0xFF;
            if lo == 0x9E {
                Ok(OpCode::SkipIfKeyPressed(x))
            } else if lo == 0xA1 {
                Ok(OpCode::SkipIfKeyNotPressed(x))
            } else {
                Err(VmError::UnknownOpcode(opcode))
            }
        } else {
            let lo = opcode & 0xFF;
            if lo == 0x18 {
                Ok(OpCode::SetSoundTimerValue(x))
            } else if lo == 0x07 {
                Ok(OpCode::GetDelayTimerValue(x))
            } else if lo == 0x15 {
                Ok(OpCode::SetDelayTimerValue(x))
            } else if lo == 0x33 {
                Ok(OpCode::SaveBCDConversionToMemory(x))
            } else if lo == 0x55 {
                Ok(OpCode::StoreMemory(x))
            } else if lo == 0x65 {
                Ok(OpCode::LoadMemory(x))
            } else if lo == 0x1E {
                Ok(OpCode::AddXToIndexRegister(x))
            } else if lo == 0x29 {
                Ok(OpCode::SetIndexToFontCharacter(x))
            } else if lo == 0x0A {
                Ok(OpCode::GetKeyBlocking(x))
            } else {
                Err(VmError::UnknownOpcode(opcode))
            }
        }
    }

    /// One fetch-decode-execute cycle with the random byte for the step
    /// given by the caller, so the whole cycle is a function of its
    /// arguments: the outcome is exactly `spec_tick`. On an error the
    /// machine has still advanced past the fetched instruction.
    pub fn tick_with_random(&mut self, rand: u8) -> (res: Result<(), VmError>)
        requires
            old(self).wf(),
        ensures
            final(self).wf(),
            crate::step::tick_outcome(old(self)@, final(self)@, rand, res),
    {
        let word = self.fetch();
        let op = match Self::decode(word) {
            Ok(op) => op,
            Err(e) => {
                return Err(e);
            },
        };
        proof {
            crate::opcode::lemma_decode_wf(word);
        }
        self.execute(op, rand)
    }

    /// One fetch-decode-execute cycle, drawing the step's random byte from
    /// the process-wide generator: the outcome is `spec_tick` for the byte
    /// that was drawn.
    pub fn tick(&mut self) -> (res: Result<(), VmError>)
        requires
            old(self).wf(),
        ensures
            final(self).wf(),
            exists|rand: u8| crate::step::tick_outcome(old(self)@, final(self)@, rand, res),
    {
        let rand = random_byte();
        let res = self.tick_with_random(rand);
        proof {
            assert(crate::step::tick_outcome(old(self)@, self@, rand, res));
        }
        res
    }

    /// Moves the run status to `Terminated`; nothing else changes, and no
    /// operation moves it back.
    pub fn terminate(&mut self)
        ensures
            final(self)@ == (VmView { status: Status::Terminated, ..old(self)@ }),
    {
        self.status = Status::Terminated;
        proof {
            assert(final(self)@ =~= (VmView { status: Status::Terminated, ..old(self)@ }));
        }
    }

    /// Configures the legacy shift quirk: when on (the default), the shift
    /// operations first copy register `y` into register `x`.
    pub fn set_load_y_before_shift(&mut self, enabled: bool)
        ensures
            final(self)@ == (VmView { load_y_before_shift: enabled, ..old(self)@ }),
    {
        self.load_y_before_shift = enabled;
        proof {
            assert(final(self)@ =~= (VmView { load_y_before_shift: enabled, ..old(self)@ }));
        }
    }
}

} // verus!
