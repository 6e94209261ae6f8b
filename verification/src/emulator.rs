use vstd::prelude::*;

use crate::address::Address;
use crate::display::Display;
use crate::display::blit_column;
use crate::display::sprite_bit;
use crate::display::touches;
use crate::error::EmulatorError;
use crate::keyboard::Key;
use crate::keyboard::KeyBoard;
use crate::memory::Memory;
use crate::memory::rom_loaded;
use crate::opcode::Opcode;
use crate::opcode::spec_decode;
use crate::rand::RandGen;
use crate::rand::lcg_next;
use crate::rand::lcg_output;
use crate::register::RegisterIndex;
use crate::register::VRegisters;
use crate::stack::Stack;
use crate::timer::Timer;

verus! {

broadcast use Address::lemma_spec_masked, RegisterIndex::lemma_spec_masked, Memory::lemma_len, VRegisters::lemma_len;

/// The interpreter's lifecycle state.
#[derive(Clone, Copy, Debug, PartialEq, Eq, Structural)]
pub enum State {
    /// Just constructed; no ROM loaded, ticks do nothing.
    New,
    /// Executing instructions.
    Running,
    /// Parked on `LdVxK` until a key press is observed into `V[x]`.
    WaitingKey { x: RegisterIndex },
}

/// The CHIP-8 machine: registers, memory, devices and lifecycle state.
pub struct Emulator {
    /// The program counter.
    pub pc: Address,
    /// The index register I.
    pub i: Address,
    /// The sixteen V registers.
    pub registers: VRegisters,
    /// The sound timer; non-zero means the tone is on.
    pub sound_timer: Timer,
    /// The delay timer.
    pub delay_timer: Timer,
    /// The call stack of return addresses.
    pub stack: Stack<Address>,
    /// The 4 KiB RAM.
    pub memory: Memory,
    /// The framebuffer.
    pub display: Display,
    /// The keypad state, driven by the host.
    pub keyboard: KeyBoard,
    /// The pseudo-random generator behind `Rnd`.
    pub rand: RandGen,
    /// The lifecycle state.
    pub state: State,
}

/// An 8-bit timer value after one saturating decrement.
pub open spec fn dec(t: u8) -> u8 {
    if t > 0 {
        (t - 1) as u8
    } else {
        0u8
    }
}

/// The big-endian word under the program counter.
pub open spec fn fetch_word(e: Emulator) -> int {
    e.memory@[e.pc@ as int] * 0x100 + e.memory@[e.pc@ + 1]
}

/// The lowest pressed key at or above `k`, if any.
pub open spec fn first_pressed_from(kb: KeyBoard, k: u8) -> Option<u8>
    decreases 16 - k,
{
    if k >= 16 {
        None
    } else if kb.spec_is_set(k) {
        Some(k)
    } else {
        first_pressed_from(kb, (k + 1) as u8)
    }
}

/// The display row hit by sprite row `row` drawn at `y`.
pub open spec fn sprite_row(y: u8, row: int) -> int {
    (y % 32 + row) % 32
}

/// Every pixel off and the update flag raised.
pub open spec fn display_cleared(d: Display) -> bool {
    &&& forall|x: int, y: int| 0 <= x < 64 && 0 <= y < 32 ==> !d.pixel(x, y)
    &&& d.spec_updated()
}

/// Frame for instruction effects: everything but the program counter and
/// the V registers is pinned; the timers to the given base values, the
/// lifecycle state to the given base state.
pub open spec fn frame_all(
    pre: Emulator,
    bd: u8,
    bs: u8,
    base_state: State,
    post: Emulator,
) -> bool {
    &&& post.i == pre.i
    &&& post.delay_timer@ == bd
    &&& post.sound_timer@ == bs
    &&& post.stack == pre.stack
    &&& post.memory == pre.memory
    &&& post.display == pre.display
    &&& post.keyboard == pre.keyboard
    &&& post.rand == pre.rand
    &&& post.state == base_state
}

/// `frame_all` with the stack left open.
pub open spec fn frame_no_stack(
    pre: Emulator,
    bd: u8,
    bs: u8,
    base_state: State,
    post: Emulator,
) -> bool {
    &&& post.i == pre.i
    &&& post.delay_timer@ == bd
    &&& post.sound_timer@ == bs
    &&& post.memory == pre.memory
    &&& post.display == pre.display
    &&& post.keyboard == pre.keyboard
    &&& post.rand == pre.rand
    &&& post.state == base_state
}

/// `frame_all` with the index register left open.
pub open spec fn frame_no_i(
    pre: Emulator,
    bd: u8,
    bs: u8,
    base_state: State,
    post: Emulator,
) -> bool {
    &&& post.delay_timer@ == bd
    &&& post.sound_timer@ == bs
    &&& post.stack == pre.stack
    &&& post.memory == pre.memory
    &&& post.display == pre.display
    &&& post.keyboard == pre.keyboard
    &&& post.rand == pre.rand
    &&& post.state == base_state
}

/// `frame_all` with the display left open.
pub open spec fn frame_no_display(
    pre: Emulator,
    bd: u8,
    bs: u8,
    base_state: State,
    post: Emulator,
) -> bool {
    &&& post.i == pre.i
    &&& post.delay_timer@ == bd
    &&& post.sound_timer@ == bs
    &&& post.stack == pre.stack
    &&& post.memory == pre.memory
    &&& post.keyboard == pre.keyboard
    &&& post.rand == pre.rand
    &&& post.state == base_state
}

/// `frame_all` with the memory left open.
pub open spec fn frame_no_memory(
    pre: Emulator,
    bd: u8,
    bs: u8,
    base_state: State,
    post: Emulator,
) -> bool {
    &&& post.i == pre.i
    &&& post.delay_timer@ == bd
    &&& post.sound_timer@ == bs
    &&& post.stack == pre.stack
    &&& post.display == pre.display
    &&& post.keyboard == pre.keyboard
    &&& post.rand == pre.rand
    &&& post.state == base_state
}

/// `frame_all` with the random generator left open.
pub open spec fn frame_no_rand(
    pre: Emulator,
    bd: u8,
    bs: u8,
    base_state: State,
    post: Emulator,
) -> bool {
    &&& post.i == pre.i
    &&& post.delay_timer@ == bd
    &&& post.sound_timer@ == bs
    &&& post.stack == pre.stack
    &&& post.memory == pre.memory
    &&& post.display == pre.display
    &&& post.keyboard == pre.keyboard
    &&& post.state == base_state
}

/// `frame_all` with the lifecycle state left open.
pub open spec fn frame_no_state(pre: Emulator, bd: u8, bs: u8, post: Emulator) -> bool {
    &&& post.i == pre.i
    &&& post.delay_timer@ == bd
    &&& post.sound_timer@ == bs
    &&& post.stack == pre.stack
    &&& post.memory == pre.memory
    &&& post.display == pre.display
    &&& post.keyboard == pre.keyboard
    &&& post.rand == pre.rand
}

/// `frame_all` with the delay timer left open.
pub open spec fn frame_no_delay(
    pre: Emulator,
    bs: u8,
    base_state: State,
    post: Emulator,
) -> bool {
    &&& post.i == pre.i
    &&& post.sound_timer@ == bs
    &&& post.stack == pre.stack
    &&& post.memory == pre.memory
    &&& post.display == pre.display
    &&& post.keyboard == pre.keyboard
    &&& post.rand == pre.rand
    &&& post.state == base_state
}

/// `frame_all` with the sound timer left open.
pub open spec fn frame_no_sound(
    pre: Emulator,
    bd: u8,
    base_state: State,
    post: Emulator,
) -> bool {
    &&& post.i == pre.i
    &&& post.delay_timer@ == bd
    &&& post.stack == pre.stack
    &&& post.memory == pre.memory
    &&& post.display == pre.display
    &&& post.keyboard == pre.keyboard
    &&& post.rand == pre.rand
    &&& post.state == base_state
}

/// Program counter effect of a conditional skip: advance by two, and by
/// two more when the condition holds; the second advance is checked.
pub open spec fn skip_pc(pre: Emulator, post: Emulator, r: Result<(), EmulatorError>, cond: bool) -> bool {
    let pc2 = pre.pc@ + 2;
    if cond {
        if pc2 + 2 > 0xFFF {
            r == Err::<(), EmulatorError>(EmulatorError::InvalidAddress((pc2 + 2) as u16))
                && post.pc@ == pc2
        } else {
            r is Ok && post.pc@ == pc2 + 2
        }
    } else {
        r is Ok && post.pc@ == pc2
    }
}

/// Effect of drawing an `n`-row sprite from `memory[I]` at the position
/// named by `V[x]`, `V[y]`: XOR each row into the frame, wrapping
/// columns modulo 64 and rows modulo 32, and leave in VF whether any lit
/// pixel was erased.  Rows past the end of RAM fail the instruction with
/// `InvalidAddress`, keeping the rows already drawn.
pub open spec fn drw_effect_core(
    pre: Emulator,
    base_regs: Seq<u8>,
    post: Emulator,
    x: RegisterIndex,
    y: RegisterIndex,
    n: u8,
    r: Result<(), EmulatorError>,
) -> bool {
    let regs1 = base_regs.update(0xF, 0u8);
    let px = regs1[x@ as int];
    let py = regs1[y@ as int];
    let iv = pre.i@ as int;
    let k = if iv + n <= 0x1000 {
        n as int
    } else {
        0x1000 - iv
    };
    let vf: u8 = if exists|row: int, b: int|
        0 <= row < k && 0 <= b < 8 && sprite_bit(pre.memory@[iv + row], b) && pre.display.pixel(
            blit_column(px, b),
            sprite_row(py, row),
        ) {
        1u8
    } else {
        0u8
    };
    &&& post.registers@ =~= regs1.update(0xF, vf)
    &&& if iv + n <= 0x1000 {
        r is Ok
    } else {
        r == Err::<(), EmulatorError>(EmulatorError::InvalidAddress((iv + k) as u16))
    }
    &&& forall|row: int, b: int|
        0 <= row < k && 0 <= b < 8 ==> post.display.pixel(blit_column(px, b), sprite_row(py, row))
            == (pre.display.pixel(blit_column(px, b), sprite_row(py, row)) != sprite_bit(
            pre.memory@[iv + row],
            b,
        ))
    &&& forall|cx: int, cy: int|
        0 <= cx < 64 && 0 <= cy < 32 && !((exists|row: int| 0 <= row < k && cy == sprite_row(py, row))
            && touches(px, cx)) ==> post.display.pixel(cx, cy) == pre.display.pixel(cx, cy)
    &&& k > 0 ==> post.display.spec_updated()
    &&& k <= 0 ==> post.display == pre.display
}

/// The effect of executing one decoded instruction after the program
/// counter has been advanced past it.
///
/// `base_regs`, `base_delay`, `base_sound` and `base_state` are the
/// values the instruction starts from; `tick` threads the post-scan,
/// post-decrement values through here, while a bare `execute_opcode`
/// starts from the caller's state unchanged.
pub open spec fn exec_effect(
    pre: Emulator,
    base_regs: Seq<u8>,
    bd: u8,
    bs: u8,
    base_state: State,
    post: Emulator,
    op: Opcode,
    r: Result<(), EmulatorError>,
) -> bool {
    if pre.pc@ + 2 > 0xFFF {
        &&& r == Err::<(), EmulatorError>(EmulatorError::InvalidAddress((pre.pc@ + 2) as u16))
        &&& post.pc@ == pre.pc@
        &&& post.registers@ =~= base_regs
        &&& frame_all(pre, bd, bs, base_state, post)
    } else {
        let pc2 = pre.pc@ + 2;
        match op {
            Opcode::Cls => {
                &&& frame_no_display(pre, bd, bs, base_state, post)
                &&& post.registers@ =~= base_regs
                &&& post.pc@ == pc2
                &&& display_cleared(post.display)
                &&& r is Ok
            },
            Opcode::Ret => {
                &&& frame_no_stack(pre, bd, bs, base_state, post)
                &&& post.registers@ =~= base_regs
                &&& if pre.stack@.len() == 0 {
                    &&& r == Err::<(), EmulatorError>(EmulatorError::StackUnderFlow)
                    &&& post.pc@ == pc2
                    &&& post.stack@ =~= pre.stack@
                } else {
                    &&& r is Ok
                    &&& post.pc == pre.stack@.last()
                    &&& post.stack@ =~= pre.stack@.drop_last()
                }
            },
            Opcode::Jp { address } => {
                &&& frame_all(pre, bd, bs, base_state, post)
                &&& post.registers@ =~= base_regs
                &&& post.pc == address
                &&& r is Ok
            },
            Opcode::Sys { address } => call_effect(pre, base_regs, bd, bs, base_state, post, address, r),
            Opcode::Call { address } => call_effect(pre, base_regs, bd, bs, base_state, post, address, r),
            Opcode::SeByte { x, byte } => {
                &&& frame_all(pre, bd, bs, base_state, post)
                &&& post.registers@ =~= base_regs
                &&& skip_pc(pre, post, r, base_regs[x@ as int] == byte)
            },
            Opcode::SneByte { x, byte } => {
                &&& frame_all(pre, bd, bs, base_state, post)
                &&& post.registers@ =~= base_regs
                &&& skip_pc(pre, post, r, base_regs[x@ as int] != byte)
            },
            Opcode::SeRegister { x, y } => {
                &&& frame_all(pre, bd, bs, base_state, post)
                &&& post.registers@ =~= base_regs
                &&& skip_pc(pre, post, r, base_regs[x@ as int] == base_regs[y@ as int])
            },
            Opcode::SneRegister { x, y } => {
                &&& frame_all(pre, bd, bs, base_state, post)
                &&& post.registers@ =~= base_regs
                &&& skip_pc(pre, post, r, base_regs[x@ as int] != base_regs[y@ as int])
            },
            Opcode::LdByte { x, byte } => {
                &&& frame_all(pre, bd, bs, base_state, post)
                &&& post.registers@ =~= base_regs.update(x@ as int, byte)
                &&& post.pc@ == pc2
                &&& r is Ok
            },
            Opcode::AddByte { x, byte } => {
                &&& frame_all(pre, bd, bs, base_state, post)
                &&& post.registers@ =~= base_regs.update(
                    x@ as int,
                    vstd::wrapping::u8_specs::wrapping_add(base_regs[x@ as int], byte),
                )
                &&& post.pc@ == pc2
                &&& r is Ok
            },
            Opcode::LdRegister { x, y } => {
                &&& frame_all(pre, bd, bs, base_state, post)
                &&& post.registers@ =~= base_regs.update(x@ as int, base_regs[y@ as int])
                &&& post.pc@ == pc2
                &&& r is Ok
            },
            Opcode::Or { x, y } => {
                &&& frame_all(pre, bd, bs, base_state, post)
                &&& post.registers@ =~= base_regs.update(
                    x@ as int,
                    base_regs[x@ as int] | base_regs[y@ as int],
                )
                &&& post.pc@ == pc2
                &&& r is Ok
            },
            Opcode::And { x, y } => {
                &&& frame_all(pre, bd, bs, base_state, post)
                &&& post.registers@ =~= base_regs.update(
                    x@ as int,
                    base_regs[x@ as int] & base_regs[y@ as int],
                )
                &&& post.pc@ == pc2
                &&& r is Ok
            },
            Opcode::Xor { x, y } => {
                &&& frame_all(pre, bd, bs, base_state, post)
                &&& post.registers@ =~= base_regs.update(
                    x@ as int,
                    base_regs[x@ as int] ^ base_regs[y@ as int],
                )
                &&& post.pc@ == pc2
                &&& r is Ok
            },
            Opcode::AddRegister { x, y } => {
                let sum = base_regs[x@ as int] + base_regs[y@ as int];
                let carry: u8 = if sum > 0xFF {
                    1u8
                } else {
                    0u8
                };
                &&& frame_all(pre, bd, bs, base_state, post)
                &&& post.registers@ =~= base_regs.update(x@ as int, (sum % 0x100) as u8).update(
                    0xF,
                    carry,
                )
                &&& post.pc@ == pc2
                &&& r is Ok
            },
            Opcode::Sub { x, y } => {
                let regs1 = base_regs.update(
                    0xF,
                    if base_regs[x@ as int] > base_regs[y@ as int] {
                        1u8
                    } else {
                        0u8
                    },
                );
                &&& frame_all(pre, bd, bs, base_state, post)
                &&& post.registers@ =~= regs1.update(
                    x@ as int,
                    vstd::wrapping::u8_specs::wrapping_sub(regs1[x@ as int], regs1[y@ as int]),
                )
                &&& post.pc@ == pc2
                &&& r is Ok
            },
            Opcode::Shr { x } => {
                let regs1 = base_regs.update(0xF, base_regs[x@ as int] & 1);
                &&& frame_all(pre, bd, bs, base_state, post)
                &&& post.registers@ =~= regs1.update(x@ as int, regs1[x@ as int] >> 1u8)
                &&& post.pc@ == pc2
                &&& r is Ok
            },
            Opcode::Subn { x, y } => {
                let regs1 = base_regs.update(
                    0xF,
                    if base_regs[y@ as int] > base_regs[x@ as int] {
                        1u8
                    } else {
                        0u8
                    },
                );
                &&& frame_all(pre, bd, bs, base_state, post)
                &&& post.registers@ =~= regs1.update(
                    x@ as int,
                    vstd::wrapping::u8_specs::wrapping_sub(regs1[y@ as int], regs1[x@ as int]),
                )
                &&& post.pc@ == pc2
                &&& r is Ok
            },
            Opcode::Shl { x } => {
                let regs1 = base_regs.update(0xF, (base_regs[x@ as int] >> 7u8) & 1);
                &&& frame_all(pre, bd, bs, base_state, post)
                &&& post.registers@ =~= regs1.update(x@ as int, regs1[x@ as int] << 1u8)
                &&& post.pc@ == pc2
                &&& r is Ok
            },
            Opcode::LdI { address } => {
                &&& frame_no_i(pre, bd, bs, base_state, post)
                &&& post.registers@ =~= base_regs
                &&& post.pc@ == pc2
                &&& post.i == address
                &&& r is Ok
            },
            Opcode::JpV0 { address } => {
                let target = address@ + base_regs[0];
                &&& frame_all(pre, bd, bs, base_state, post)
                &&& post.registers@ =~= base_regs
                &&& if target > 0xFFF {
                    r == Err::<(), EmulatorError>(EmulatorError::InvalidAddress(target as u16))
                        && post.pc@ == pc2
                } else {
                    r is Ok && post.pc@ == target
                }
            },
            Opcode::Rnd { x, byte } => {
                &&& frame_no_rand(pre, bd, bs, base_state, post)
                &&& post.rand@ == lcg_next(pre.rand@)
                &&& post.registers@ =~= base_regs.update(
                    x@ as int,
                    lcg_output(lcg_next(pre.rand@)) & byte,
                )
                &&& post.pc@ == pc2
                &&& r is Ok
            },
            Opcode::Drw { x, y, n } => {
                &&& frame_no_display(pre, bd, bs, base_state, post)
                &&& post.pc@ == pc2
                &&& drw_effect_core(pre, base_regs, post, x, y, n, r)
            },
            Opcode::Skp { x } => {
                &&& frame_all(pre, bd, bs, base_state, post)
                &&& post.registers@ =~= base_regs
                &&& skip_pc(pre, post, r, pre.keyboard.spec_is_set(base_regs[x@ as int] & 0xF))
            },
            Opcode::Sknp { x } => {
                &&& frame_all(pre, bd, bs, base_state, post)
                &&& post.registers@ =~= base_regs
                &&& skip_pc(pre, post, r, !pre.keyboard.spec_is_set(base_regs[x@ as int] & 0xF))
            },
            Opcode::LdVxDT { x } => {
                &&& frame_all(pre, bd, bs, base_state, post)
                &&& post.registers@ =~= base_regs.update(x@ as int, bd)
                &&& post.pc@ == pc2
                &&& r is Ok
            },
            Opcode::LdVxK { x } => {
                &&& frame_no_state(pre, bd, bs, post)
                &&& post.registers@ =~= base_regs
                &&& post.pc@ == pc2
                &&& post.state == State::WaitingKey { x }
                &&& r is Ok
            },
            Opcode::LdDTVx { x } => {
                &&& frame_no_delay(pre, bs, base_state, post)
                &&& post.registers@ =~= base_regs
                &&& post.pc@ == pc2
                &&& post.delay_timer@ == base_regs[x@ as int]
                &&& r is Ok
            },
            Opcode::LdSTVx { x } => {
                &&& frame_no_sound(pre, bd, base_state, post)
                &&& post.registers@ =~= base_regs
                &&& post.pc@ == pc2
                &&& post.sound_timer@ == base_regs[x@ as int]
                &&& r is Ok
            },
            Opcode::AddIVx { x } => {
                let target = pre.i@ + base_regs[x@ as int];
                &&& frame_no_i(pre, bd, bs, base_state, post)
                &&& post.registers@ =~= base_regs
                &&& post.pc@ == pc2
                &&& if target > 0xFFF {
                    r == Err::<(), EmulatorError>(EmulatorError::InvalidAddress(target as u16))
                        && post.i@ == pre.i@
                } else {
                    r is Ok && post.i@ == target
                }
            },
            Opcode::LdFVx { x } => {
                &&& frame_no_i(pre, bd, bs, base_state, post)
                &&& post.registers@ =~= base_regs
                &&& post.pc@ == pc2
                &&& post.i@ == (base_regs[x@ as int] & 0xF) * 5
                &&& r is Ok
            },
            Opcode::LdBVx { x } => {
                let iv = pre.i@ as int;
                let v = base_regs[x@ as int];
                &&& frame_no_memory(pre, bd, bs, base_state, post)
                &&& post.registers@ =~= base_regs
                &&& post.pc@ == pc2
                &&& if iv + 3 <= 0x1000 {
                    &&& r is Ok
                    &&& post.memory@.len() == 0x1000
                    &&& forall|j: int|
                        0 <= j < 0x1000 ==> post.memory@[j] == (if j == iv {
                            v / 100
                        } else if j == iv + 1 {
                            (v / 10) % 10
                        } else if j == iv + 2 {
                            v % 10
                        } else {
                            pre.memory@[j]
                        })
                } else {
                    &&& r == Err::<(), EmulatorError>(EmulatorError::OutOfBounds((iv + 3) as u16))
                    &&& post.memory@ =~= pre.memory@
                }
            },
            Opcode::LdIVx { x } => {
                let iv = pre.i@ as int;
                let cnt = x@ + 1;
                &&& frame_no_memory(pre, bd, bs, base_state, post)
                &&& post.registers@ =~= base_regs
                &&& post.pc@ == pc2
                &&& if iv + cnt <= 0x1000 {
                    &&& r is Ok
                    &&& post.memory@.len() == 0x1000
                    &&& forall|j: int|
                        0 <= j < 0x1000 ==> post.memory@[j] == (if iv <= j < iv + cnt {
                            base_regs[j - iv]
                        } else {
                            pre.memory@[j]
                        })
                } else {
                    &&& r == Err::<(), EmulatorError>(EmulatorError::OutOfBounds((iv + cnt) as u16))
                    &&& post.memory@ =~= pre.memory@
                }
            },
            Opcode::LdVxI { x } => {
                let iv = pre.i@ as int;
                let cnt = x@ + 1;
                &&& frame_all(pre, bd, bs, base_state, post)
                &&& post.pc@ == pc2
                &&& if iv + cnt <= 0x1000 {
                    &&& r is Ok
                    &&& post.registers@.len() == 16
                    &&& forall|j: int|
                        0 <= j < 16 ==> post.registers@[j] == (if j < cnt {
                            pre.memory@[iv + j]
                        } else {
                            base_regs[j]
                        })
                } else {
                    &&& r == Err::<(), EmulatorError>(EmulatorError::OutOfBounds((iv + cnt) as u16))
                    &&& post.registers@ =~= base_regs
                }
            },
            Opcode::Invalid(_) => {
                &&& frame_all(pre, bd, bs, base_state, post)
                &&& post.registers@ =~= base_regs
                &&& post.pc@ == pc2
                &&& r is Ok
            },
        }
    }
}

/// Effect of `Call` (and of `Sys`, which is treated identically): push
/// the already-advanced program counter and jump to the address.
pub open spec fn call_effect(
    pre: Emulator,
    base_regs: Seq<u8>,
    bd: u8,
    bs: u8,
    base_state: State,
    post: Emulator,
    address: Address,
    r: Result<(), EmulatorError>,
) -> bool {
    let pc2 = pre.pc@ + 2;
    &&& frame_no_stack(pre, bd, bs, base_state, post)
    &&& post.registers@ =~= base_regs
    &&& if pre.stack@.len() >= 0x10 {
        &&& r == Err::<(), EmulatorError>(EmulatorError::StackOverFlow)
        &&& post.pc@ == pc2
        &&& post.stack@ =~= pre.stack@
    } else {
        &&& r is Ok
        &&& post.pc == address
        &&& post.stack@ =~= pre.stack@.push(Address::spec_masked(pc2 as u16))
    }
}

/// The effect of the fetch-and-execute phase of one tick, starting from
/// the given base register file (the registers after a key capture).
pub open spec fn run_phase(
    pre: Emulator,
    base_regs: Seq<u8>,
    post: Emulator,
    r: Result<(), EmulatorError>,
) -> bool {
    let bd = dec(pre.delay_timer@);
    let bs = dec(pre.sound_timer@);
    if pre.pc@ + 2 > 0x1000 {
        &&& r == Err::<(), EmulatorError>(EmulatorError::OutOfBounds((pre.pc@ + 2) as u16))
        &&& post.pc == pre.pc
        &&& post.i == pre.i
        &&& post.registers@ =~= base_regs
        &&& post.delay_timer@ == bd
        &&& post.sound_timer@ == bs
        &&& post.stack == pre.stack
        &&& post.memory == pre.memory
        &&& post.display == pre.display
        &&& post.keyboard == pre.keyboard
        &&& post.rand == pre.rand
        &&& post.state == State::Running
    } else {
        exec_effect(
            pre,
            base_regs,
            bd,
            bs,
            State::Running,
            post,
            spec_decode(fetch_word(pre) as u16),
            r,
        )
    }
}

/// The full effect of one `tick`, §-by-§: do nothing while `New`; while
/// waiting, capture the lowest pressed key or do nothing; then decrement
/// both timers, fetch, advance the program counter and execute.
pub open spec fn tick_effect(pre: Emulator, post: Emulator, r: Result<(), EmulatorError>) -> bool {
    match pre.state {
        State::New => r is Ok && post == pre,
        State::Running => run_phase(pre, pre.registers@, post, r),
        State::WaitingKey { x } => match first_pressed_from(pre.keyboard, 0) {
            None => r is Ok && post == pre,
            Some(k) => run_phase(pre, pre.registers@.update(x@ as int, k), post, r),
        },
    }
}

/// The row of a sprite drawn at `y`, without the modulo: either below
/// `y mod 32` or wrapped once past the bottom edge.
proof fn lemma_sprite_row_form(y: u8, row: int)
    requires
        0 <= row < 16,
    ensures
        sprite_row(y, row) == (if y % 32 + row < 32 {
            y % 32 + row
        } else {
            y % 32 + row - 32
        }),
{
    let y0 = (y % 32) as int;
    if y0 + row < 32 {
        vstd::arithmetic::div_mod::lemma_small_mod((y0 + row) as nat, 32);
    } else {
        vstd::arithmetic::div_mod::lemma_mod_sub_multiples_vanish(y0 + row, 32);
        vstd::arithmetic::div_mod::lemma_small_mod((y0 + row - 32) as nat, 32);
    }
}

/// Distinct sprite rows land on distinct display rows: a sprite is at
/// most 15 rows tall, shorter than the 32-row screen.
proof fn lemma_sprite_rows_distinct(y: u8, r1: int, r2: int)
    requires
        0 <= r1 < 16,
        0 <= r2 < 16,
        r1 != r2,
    ensures
        sprite_row(y, r1) != sprite_row(y, r2),
{
    lemma_sprite_row_form(y, r1);
    lemma_sprite_row_form(y, r2);
}

/// An instruction's effect is insensitive to which snapshot carries the
/// untouched components: restating it over an earlier snapshot with the
/// same memory, devices and counters preserves it.
proof fn lemma_exec_effect_rebase(
    pre: Emulator,
    mid: Emulator,
    base_regs: Seq<u8>,
    post: Emulator,
    op: Opcode,
    r: Result<(), EmulatorError>,
)
    requires
        exec_effect(
            mid,
            mid.registers@,
            mid.delay_timer@,
            mid.sound_timer@,
            mid.state,
            post,
            op,
            r,
        ),
        mid.pc == pre.pc,
        mid.i == pre.i,
        mid.stack == pre.stack,
        mid.memory == pre.memory,
        mid.display == pre.display,
        mid.keyboard == pre.keyboard,
        mid.rand == pre.rand,
        mid.registers@ =~= base_regs,
        mid.state == State::Running,
    ensures
        exec_effect(
            pre,
            base_regs,
            mid.delay_timer@,
            mid.sound_timer@,
            State::Running,
            post,
            op,
            r,
        ),
{
}

/// The BCD store instruction writes exactly the three decimal digits of
/// `V[x]` to `memory[I]`, `memory[I+1]`, `memory[I+2]`: hundreds, tens,
/// ones.  Nothing else moves: every other memory byte, the registers,
/// I, the stack and the display stay as they were, and the program
/// counter has advanced past the instruction.
pub proof fn lemma_bcd_store(
    pre: Emulator,
    base_regs: Seq<u8>,
    bd: u8,
    bs: u8,
    base_state: State,
    post: Emulator,
    x: RegisterIndex,
    r: Result<(), EmulatorError>,
)
    requires
        exec_effect(pre, base_regs, bd, bs, base_state, post, Opcode::LdBVx { x }, r),
        pre.pc@ + 2 <= 0xFFF,
        pre.i@ + 3 <= 0x1000,
    ensures
        r is Ok,
        post.memory@[pre.i@ as int] == base_regs[x@ as int] / 100,
        post.memory@[pre.i@ + 1] == (base_regs[x@ as int] / 10) % 10,
        post.memory@[pre.i@ + 2] == base_regs[x@ as int] % 10,
        forall|j: int|
            0 <= j < 0x1000 && !(pre.i@ <= j < pre.i@ + 3) ==> post.memory@[j] == pre.memory@[j],
        post.registers@ =~= base_regs,
        post.pc@ == pre.pc@ + 2,
        post.i == pre.i,
        post.stack == pre.stack,
        post.display == pre.display,
        post.keyboard == pre.keyboard,
{
}

/// The three decimal digits of a byte: hundreds, tens, ones.
pub fn bcd(value: u8) -> (r: [u8; 3])
    ensures
        r@.len() == 3,
        r@[0] == value / 100,
        r@[1] == (value / 10) % 10,
        r@[2] == value % 10,
{
    let hundreds = value / 100;
    let tens = (value % 100) / 10;
    let ones = value % 10;
    proof {
        assert((value % 100) / 10 == (value / 10) % 10) by (nonlinear_arith);
    }
    [hundreds, tens, ones]
}

impl Emulator {
    /// A fresh machine: program counter at the entry point, everything
    /// else zeroed, no ROM, state `New`.
    pub fn new() -> (r: Self)
        ensures
            r.pc@ == 0x200,
            r.i@ == 0,
            r.registers@.len() == 16,
            forall|j: int| 0 <= j < 16 ==> r.registers@[j] == 0u8,
            r.sound_timer@ == 0,
            r.delay_timer@ == 0,
            r.stack@.len() == 0,
            forall|j: int| 0 <= j < 0x1000 ==> r.memory@[j] == 0u8,
            forall|x: int, y: int| 0 <= x < 64 && 0 <= y < 32 ==> !r.display.pixel(x, y),
            !r.display.spec_updated(),
            forall|k: u8| !r.keyboard.spec_is_set(k),
            r.state == State::New,
    {
        Emulator {
            pc: Address::new(0x200),
            i: Address::new(0),
            registers: VRegisters::new(),
            sound_timer: Timer::new(),
            delay_timer: Timer::new(),
            stack: Stack::new(),
            memory: Memory::new(),
            display: Display::new(),
            keyboard: KeyBoard::new(),
            rand: RandGen::new(),
            state: State::New,
        }
    }

    /// Load a ROM image and reset the machine: registers, timers, stack
    /// and display cleared, the font restored, the bytes placed at the
    /// entry point, and the state set to `Running`.  The keyboard and the
    /// random generator are left alone.  An empty image is fine: the ROM
    /// region is then all zeros.
    pub fn load_rom(&mut self, rom: &[u8]) -> (r: Result<(), EmulatorError>)
        ensures
            r is Ok,
            final(self).pc@ == 0x200,
            final(self).i@ == 0,
            final(self).registers@.len() == 16,
            forall|j: int| 0 <= j < 16 ==> final(self).registers@[j] == 0u8,
            final(self).sound_timer@ == 0,
            final(self).delay_timer@ == 0,
            final(self).stack@.len() == 0,
            rom_loaded(final(self).memory@, rom@),
            display_cleared(final(self).display),
            final(self).keyboard == old(self).keyboard,
            final(self).rand == old(self).rand,
            final(self).state == State::Running,
    {
        self.pc = Address::new(0x200);
        self.i = Address::new(0);
        self.delay_timer = Timer::new();
        self.sound_timer = Timer::new();
        self.registers = VRegisters::new();
        self.stack.clear();
        self.display.clear();
        self.memory.load_rom(rom);
        self.state = State::Running;
        Ok(())
    }

    /// Press a key; every other key keeps its state, nothing else moves.
    pub fn press_key(&mut self, key: Key)
        ensures
            final(self).keyboard.spec_is_set(key.spec_value()),
            forall|k: u8|
                k != key.spec_value() ==> final(self).keyboard.spec_is_set(k) == old(
                    self,
                ).keyboard.spec_is_set(k),
            final(self).pc == old(self).pc,
            final(self).i == old(self).i,
            final(self).registers == old(self).registers,
            final(self).sound_timer == old(self).sound_timer,
            final(self).delay_timer == old(self).delay_timer,
            final(self).stack == old(self).stack,
            final(self).memory == old(self).memory,
            final(self).display == old(self).display,
            final(self).rand == old(self).rand,
            final(self).state == old(self).state,
    {
        self.keyboard.set(key.value());
    }

    /// Release a key; every other key keeps its state, nothing else moves.
    pub fn release_key(&mut self, key: Key)
        ensures
            !final(self).keyboard.spec_is_set(key.spec_value()),
            forall|k: u8|
                k != key.spec_value() ==> final(self).keyboard.spec_is_set(k) == old(
                    self,
                ).keyboard.spec_is_set(k),
            final(self).pc == old(self).pc,
            final(self).i == old(self).i,
            final(self).registers == old(self).registers,
            final(self).sound_timer == old(self).sound_timer,
            final(self).delay_timer == old(self).delay_timer,
            final(self).stack == old(self).stack,
            final(self).memory == old(self).memory,
            final(self).display == old(self).display,
            final(self).rand == old(self).rand,
            final(self).state == old(self).state,
    {
        self.keyboard.unset(key.value());
    }

    /// Read the two bytes under the program counter and decode them as a
    /// big-endian instruction word.
    #[verifier::rlimit(60)]
    pub fn fetch_opcode(&self) -> (r: Result<Opcode, EmulatorError>)
        ensures
            self.pc@ + 2 <= 0x1000 <==> r is Ok,
            r matches Ok(op) ==> op == spec_decode(fetch_word(*self) as u16),
            r matches Err(e) ==> e == EmulatorError::OutOfBounds((self.pc@ + 2) as u16),
    {
        proof {
            use_type_invariant(&self.pc);
        }
        let bytes = match self.memory.write_range(self.pc, 2) {
            Ok(v) => v,
            Err(e) => {
                return Err(e);
            },
        };
        proof {
            assert(bytes@.len() == 2);
        }
        Ok(Opcode::from_bytes(bytes[0], bytes[1]))
    }

    /// Copy `len` bytes of RAM starting at the given address, as the
    /// debugger views it; rejects ranges leaving the RAM.
    pub fn read_memory(&self, address: Address, len: usize) -> (r: Result<Vec<u8>, EmulatorError>)
        ensures
            address@ + len <= 0x1000 <==> r is Ok,
            r matches Ok(v) ==> v@ =~= self.memory@.subrange(address@ as int, address@ + len),
            r matches Err(e) ==> e == EmulatorError::OutOfBounds(((address@ + len) % 0x10000) as u16),
    {
        self.memory.write_range(address, len)
    }

    /// Run one machine cycle: do nothing while `New`; while waiting for
    /// a key, capture the lowest pressed key or do nothing; otherwise
    /// decrement both timers, fetch and decode the word under the
    /// program counter, advance it, and execute the instruction.
    pub fn tick(&mut self) -> (r: Result<(), EmulatorError>)
        ensures
            tick_effect(*old(self), *final(self), r),
    {
        match self.state {
            State::New => {
                return Ok(());
            },
            State::WaitingKey { x } => {
                let mut key: Option<u8> = None;
                let mut k: u8 = 0;
                while k < 16 && key.is_none()
                    invariant
                        k <= 16,
                        key is None ==> first_pressed_from(self.keyboard, 0)
                            == first_pressed_from(self.keyboard, k),
                        key matches Some(kk) ==> first_pressed_from(self.keyboard, 0) == Some(kk)
                            && kk <= 0xF,
                    decreases
                            16 - k + (if key is None {
                                1int
                            } else {
                                0int
                            }),
                {
                    if self.keyboard.is_set(k) {
                        key = Some(k);
                    } else {
                        k = k + 1;
                    }
                }
                match key {
                    None => {
                        return Ok(());
                    },
                    Some(kk) => {
                        self.registers.set(x, kk);
                        self.state = State::Running;
                    },
                }
            },
            State::Running => {},
        }
        self.sound_timer.decrement();
        self.delay_timer.decrement();
        let op = match self.fetch_opcode() {
            Ok(op) => op,
            Err(e) => {
                return Err(e);
            },
        };
        let ghost mid = *self;
        let res = self.execute_opcode(op);
        proof {
            lemma_exec_effect_rebase(
                *old(self),
                mid,
                mid.registers@,
                *self,
                op,
                res,
            );
        }
        res
    }

    /// Execute one decoded instruction: advance the program counter by
    /// two, then apply the instruction's effect; an `Invalid` pattern is
    /// skipped rather than failed.
    pub fn execute_opcode(&mut self, opcode: Opcode) -> (r: Result<(), EmulatorError>)
        requires
            opcode.wf() || opcode is Invalid,
        ensures
            exec_effect(
                *old(self),
                old(self).registers@,
                old(self).delay_timer@,
                old(self).sound_timer@,
                old(self).state,
                *final(self),
                opcode,
                r,
            ),
    {
        match self.pc.add_assign(2) {
            Ok(_) => {},
            Err(e) => {
                return Err(e);
            },
        }
        match opcode {
            Opcode::Cls => {
                self.display.clear();
            },
            Opcode::Ret => {
                let a = match self.stack.pop() {
                    Ok(a) => a,
                    Err(e) => {
                        return Err(e);
                    },
                };
                self.pc = a;
            },
            Opcode::Jp { address } => {
                self.pc = address;
            },
            Opcode::Sys { address } | Opcode::Call { address } => {
                proof {
                    use_type_invariant(&self.pc);
                    Address::lemma_view_injective(
                        self.pc,
                        Address::spec_masked((old(self).pc@ + 2) as u16),
                    );
                }
                match self.stack.push(self.pc) {
                    Ok(_) => {},
                    Err(e) => {
                        return Err(e);
                    },
                }
                self.pc = address;
            },
            Opcode::SeByte { x, byte } => {
                if self.registers.get(x) == byte {
                    match self.pc.add_assign(2) {
                        Ok(_) => {},
                        Err(e) => {
                            return Err(e);
                        },
                    }
                }
            },
            Opcode::SneByte { x, byte } => {
                if self.registers.get(x) != byte {
                    match self.pc.add_assign(2) {
                        Ok(_) => {},
                        Err(e) => {
                            return Err(e);
                        },
                    }
                }
            },
            Opcode::SeRegister { x, y } => {
                if self.registers.get(x) == self.registers.get(y) {
                    match self.pc.add_assign(2) {
                        Ok(_) => {},
                        Err(e) => {
                            return Err(e);
                        },
                    }
                }
            },
            Opcode::SneRegister { x, y } => {
                if self.registers.get(x) != self.registers.get(y) {
                    match self.pc.add_assign(2) {
                        Ok(_) => {},
                        Err(e) => {
                            return Err(e);
                        },
                    }
                }
            },
            Opcode::LdByte { x, byte } => {
                self.registers.set(x, byte);
            },
            Opcode::AddByte { x, byte } => {
                let vx = self.registers.get(x);
                self.registers.set(x, vx.wrapping_add(byte));
            },
            Opcode::LdRegister { x, y } => {
                let vy = self.registers.get(y);
                self.registers.set(x, vy);
            },
            Opcode::Or { x, y } => {
                let vx = self.registers.get(x);
                let vy = self.registers.get(y);
                self.registers.set(x, vx | vy);
            },
            Opcode::And { x, y } => {
                let vx = self.registers.get(x);
                let vy = self.registers.get(y);
                self.registers.set(x, vx & vy);
            },
            Opcode::Xor { x, y } => {
                let vx = self.registers.get(x);
                let vy = self.registers.get(y);
                self.registers.set(x, vx ^ vy);
            },
            Opcode::AddRegister { x, y } => {
                let vx = self.registers.get(x);
                let vy = self.registers.get(y);
                let sum: u16 = vx as u16 + vy as u16;
                self.registers.set(x, (sum % 0x100) as u8);
                let carry: u8 = if sum > 0xFF {
                    1
                } else {
                    0
                };
                self.registers.set(RegisterIndex::flag(), carry);
            },
            Opcode::Sub { x, y } => {
                let vx = self.registers.get(x);
                let vy = self.registers.get(y);
                let flag: u8 = if vx > vy {
                    1
                } else {
                    0
                };
                self.registers.set(RegisterIndex::flag(), flag);
                let vx2 = self.registers.get(x);
                let vy2 = self.registers.get(y);
                self.registers.set(x, vx2.wrapping_sub(vy2));
            },
            Opcode::Shr { x } => {
                let vx = self.registers.get(x);
                self.registers.set(RegisterIndex::flag(), vx & 1);
                let vx2 = self.registers.get(x);
                self.registers.set(x, vx2 >> 1);
            },
            Opcode::Subn { x, y } => {
                let vx = self.registers.get(x);
                let vy = self.registers.get(y);
                let flag: u8 = if vy > vx {
                    1
                } else {
                    0
                };
                self.registers.set(RegisterIndex::flag(), flag);
                let vx2 = self.registers.get(x);
                let vy2 = self.registers.get(y);
                self.registers.set(x, vy2.wrapping_sub(vx2));
            },
            Opcode::Shl { x } => {
                let vx = self.registers.get(x);
                self.registers.set(RegisterIndex::flag(), (vx >> 7) & 1);
                let vx2 = self.registers.get(x);
                self.registers.set(x, vx2 << 1);
            },
            Opcode::LdI { address } => {
                self.i = address;
            },
            Opcode::JpV0 { address } => {
                let v0 = self.registers.get(RegisterIndex::zero());
                let target = address.inner() + v0 as u16;
                let a = match Address::try_new(target) {
                    Ok(a) => a,
                    Err(e) => {
                        return Err(e);
                    },
                };
                self.pc = a;
            },
            Opcode::Rnd { x, byte } => {
                let b = self.rand.next();
                self.registers.set(x, b & byte);
            },
            Opcode::Drw { x, y, n } => {
                return self.draw_sprite(x, y, n);
            },
            Opcode::Skp { x } => {
                let vx = self.registers.get(x);
                proof {
                    assert(vx & 0xF <= 0xF) by (bit_vector);
                }
                if self.keyboard.is_set(vx & 0xF) {
                    match self.pc.add_assign(2) {
                        Ok(_) => {},
                        Err(e) => {
                            return Err(e);
                        },
                    }
                }
            },
            Opcode::Sknp { x } => {
                let vx = self.registers.get(x);
                proof {
                    assert(vx & 0xF <= 0xF) by (bit_vector);
                }
                if !self.keyboard.is_set(vx & 0xF) {
                    match self.pc.add_assign(2) {
                        Ok(_) => {},
                        Err(e) => {
                            return Err(e);
                        },
                    }
                }
            },
            Opcode::LdVxDT { x } => {
                let t = self.delay_timer.get();
                self.registers.set(x, t);
            },
            Opcode::LdVxK { x } => {
                self.state = State::WaitingKey { x };
            },
            Opcode::LdDTVx { x } => {
                let vx = self.registers.get(x);
                self.delay_timer.set(vx);
            },
            Opcode::LdSTVx { x } => {
                let vx = self.registers.get(x);
                self.sound_timer.set(vx);
            },
            Opcode::AddIVx { x } => {
                let vx = self.registers.get(x);
                match self.i.add_assign(vx as u16) {
                    Ok(_) => {},
                    Err(e) => {
                        return Err(e);
                    },
                }
            },
            Opcode::LdFVx { x } => {
                let vx = self.registers.get(x);
                self.i = Address::new((vx & 0xF) as u16 * 5);
            },
            Opcode::LdBVx { x } => {
                let vx = self.registers.get(x);
                let digits = bcd(vx);
                proof {
                    use_type_invariant(&self.i);
                    vstd::arithmetic::div_mod::lemma_small_mod((self.i@ + 3) as nat, 0x10000);
                }
                match self.memory.read_range(self.i, digits.as_slice()) {
                    Ok(_) => {},
                    Err(e) => {
                        return Err(e);
                    },
                }
            },
            Opcode::LdIVx { x } => {
                let cnt = x.index() + 1;
                let mut data: Vec<u8> = Vec::new();
                let mut j: usize = 0;
                while j < cnt
                    invariant
                        j <= cnt,
                        cnt <= 16,
                        data@.len() == j,
                        forall|t: int| 0 <= t < j ==> data@[t] == self.registers@[t],
                    decreases cnt - j,
                {
                    let b = self.registers.get(RegisterIndex::new(j as u8));
                    data.push(b);
                    j = j + 1;
                }
                proof {
                    use_type_invariant(&self.i);
                    vstd::arithmetic::div_mod::lemma_small_mod((self.i@ + data@.len()) as nat, 0x10000);
                }
                match self.memory.read_range(self.i, data.as_slice()) {
                    Ok(_) => {},
                    Err(e) => {
                        return Err(e);
                    },
                }
            },
            Opcode::LdVxI { x } => {
                let cnt = x.index() + 1;
                proof {
                    use_type_invariant(&self.i);
                }
                let iv = self.i.inner();
                if iv as usize + cnt > 0x1000 {
                    return Err(EmulatorError::OutOfBounds(iv + cnt as u16));
                }
                let mut j: usize = 0;
                while j < cnt
                    invariant
                        j <= cnt,
                        cnt <= 16,
                        iv == self.i@,
                        iv as int + cnt <= 0x1000,
                        self.pc@ == old(self).pc@ + 2,
                        x@ + 1 == cnt,
                        self.i == old(self).i,
                        self.sound_timer == old(self).sound_timer,
                        self.delay_timer == old(self).delay_timer,
                        self.stack == old(self).stack,
                        self.memory == old(self).memory,
                        self.display == old(self).display,
                        self.keyboard == old(self).keyboard,
                        self.rand == old(self).rand,
                        self.state == old(self).state,
                        self.registers@.len() == 16,
                        forall|t: int|
                            0 <= t < 16 ==> self.registers@[t] == (if t < j {
                                old(self).memory@[iv + t]
                            } else {
                                old(self).registers@[t]
                            }),
                    decreases cnt - j,
                {
                    let b = self.memory.get(Address::new(iv + j as u16));
                    self.registers.set(RegisterIndex::new(j as u8), b);
                    j = j + 1;
                }
            },
            Opcode::Invalid(_) => {},
        }
        Ok(())
    }

    /// Draw an `n`-row sprite fetched from `memory[I]` at the position
    /// in `V[x]`, `V[y]`: zero VF, XOR each row into the frame, and set
    /// VF when a lit pixel was erased.  A row past the end of RAM stops
    /// the drawing with `InvalidAddress`.
    fn draw_sprite(&mut self, x: RegisterIndex, y: RegisterIndex, n: u8) -> (r: Result<
        (),
        EmulatorError,
    >)
        requires
            n <= 0xF,
        ensures
            final(self).pc == old(self).pc,
            final(self).i == old(self).i,
            final(self).delay_timer == old(self).delay_timer,
            final(self).sound_timer == old(self).sound_timer,
            final(self).stack == old(self).stack,
            final(self).memory == old(self).memory,
            final(self).keyboard == old(self).keyboard,
            final(self).rand == old(self).rand,
            final(self).state == old(self).state,
            drw_effect_core(*old(self), old(self).registers@, *final(self), x, y, n, r),
    {
        self.registers.set(RegisterIndex::flag(), 0);
        let px = self.registers.get(x);
        let py = self.registers.get(y);
        let ghost regs1 = self.registers@;
        proof {
            use_type_invariant(&self.i);
        }
        let iv = self.i.inner();
        let mut row: u8 = 0;
        while row < n
            invariant
                n <= 0xF,
                row <= n,
                iv == self.i@,
                iv <= 0xFFF,
                iv as int + row <= 0x1000,
                px == regs1[x@ as int],
                py == regs1[y@ as int],
                regs1 =~= old(self).registers@.update(0xF, 0u8),
                regs1.len() == 16,
                self.pc == old(self).pc,
                self.i == old(self).i,
                self.delay_timer == old(self).delay_timer,
                self.sound_timer == old(self).sound_timer,
                self.stack == old(self).stack,
                self.memory == old(self).memory,
                self.keyboard == old(self).keyboard,
                self.rand == old(self).rand,
                self.state == old(self).state,
                self.registers@ =~= regs1.update(
                    0xF,
                    if exists|rr: int, b: int|
                        0 <= rr < row && 0 <= b < 8 && sprite_bit(
                            old(self).memory@[iv + rr],
                            b,
                        ) && old(self).display.pixel(blit_column(px, b), sprite_row(py, rr)) {
                        1u8
                    } else {
                        0u8
                    },
                ),
                forall|rr: int, b: int|
                    0 <= rr < row && 0 <= b < 8 ==> self.display.pixel(
                        blit_column(px, b),
                        sprite_row(py, rr),
                    ) == (old(self).display.pixel(blit_column(px, b), sprite_row(py, rr))
                        != sprite_bit(old(self).memory@[iv + rr], b)),
                forall|cx: int, cy: int|
                    0 <= cx < 64 && 0 <= cy < 32 && !((exists|rr: int|
                        0 <= rr < row && cy == sprite_row(py, rr)) && touches(px, cx))
                        ==> self.display.pixel(cx, cy) == old(self).display.pixel(cx, cy),
                row > 0 ==> self.display.spec_updated(),
                row == 0 ==> self.display == old(self).display,
            decreases n - row,
        {
            let addr = iv + row as u16;
            if addr > 0xFFF {
                return Err(EmulatorError::InvalidAddress(addr));
            }
            let byte = self.memory.get(Address::new(addr));
            let yy = (py % 32) + row;
            proof {
                lemma_sprite_row_form(py, row as int);
                assert forall|rr: int| 0 <= rr < row implies sprite_row(py, rr) != sprite_row(
                    py,
                    row as int,
                ) by {
                    lemma_sprite_rows_distinct(py, rr, row as int);
                }
            }
            let collision = self.display.set(px, yy, byte);
            if collision == 1 {
                self.registers.set(RegisterIndex::flag(), 1);
            }
            row = row + 1;
        }
        Ok(())
    }

    /// The program counter.
    pub fn pc(&self) -> (r: Address)
        ensures
            r == self.pc,
    {
        self.pc
    }

    /// The index register I.
    pub fn i(&self) -> (r: Address)
        ensures
            r == self.i,
    {
        self.i
    }

    /// The V register file.
    pub fn v_registers(&self) -> (r: &VRegisters)
        ensures
            r == self.registers,
    {
        &self.registers
    }

    /// The sound timer value; non-zero means the tone is on.
    pub fn sound_timer(&self) -> (r: u8)
        ensures
            r == self.sound_timer@,
    {
        self.sound_timer.get()
    }

    /// The delay timer value.
    pub fn delay_timer(&self) -> (r: u8)
        ensures
            r == self.delay_timer@,
    {
        self.delay_timer.get()
    }

    /// The call stack.
    pub fn stack(&self) -> (r: &Stack<Address>)
        ensures
            r == self.stack,
    {
        &self.stack
    }

    /// The lifecycle state.
    pub fn state(&self) -> (r: &State)
        ensures
            r == self.state,
    {
        &self.state
    }

    /// The framebuffer.
    pub fn display(&self) -> (r: &Display)
        ensures
            r == self.display,
    {
        &self.display
    }
}

impl Default for Emulator {
    /// A fresh machine, as `new` builds it.
    fn default() -> (r: Self)
        ensures
            r.pc@ == 0x200,
            r.i@ == 0,
            r.registers@.len() == 16,
            forall|j: int| 0 <= j < 16 ==> r.registers@[j] == 0u8,
            r.sound_timer@ == 0,
            r.delay_timer@ == 0,
            r.stack@.len() == 0,
            forall|j: int| 0 <= j < 0x1000 ==> r.memory@[j] == 0u8,
            forall|x: int, y: int| 0 <= x < 64 && 0 <= y < 32 ==> !r.display.pixel(x, y),
            !r.display.spec_updated(),
            forall|k: u8| !r.keyboard.spec_is_set(k),
            r.state == State::New,
    {
        Emulator::new()
    }
}

} // verus!
