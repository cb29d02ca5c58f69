//! The instruction interpreter: a 16-bit instruction word is fetched from
//! byte-addressable memory, decoded into a tagged opcode value, and executed
//! against the register file, index register, program counter and
//! framebuffer. Unknown opcodes are absorbed as no-ops; only a true
//! out-of-range memory access is escalated to the caller.

use vstd::prelude::*;
use crate::display::{
    blank_grid,
    draw_erases,
    draw_grid,
    grid_of,
    with_grid,
    DisplayBuffer,
    DisplayView,
};

verus! {

/// The raw fields of a 16-bit instruction word.
pub struct Instruction {
    pub opcode: u16,
    pub nnn: u16,
    pub nn: u8,
    pub n: u8,
    pub x: u8,
    pub y: u8,
}

impl Instruction {
    /// Split an instruction word into its fields: the 12-bit address nnn, the
    /// low byte nn, the low nibble n, and the register indices x (bits 8-11)
    /// and y (bits 4-7).
    pub fn parse_u16(opcode: u16) -> (ins: Instruction)
        ensures
            ins.opcode == opcode,
            ins.nnn == opcode & 0x0FFF,
            ins.nn == (opcode & 0x00FF) as u8,
            ins.n == (opcode & 0x000F) as u8,
            ins.x == ((opcode & 0x0F00) >> 8) as u8,
            ins.y == ((opcode & 0x00F0) >> 4) as u8,
            ins.nnn <= 0xFFF,
            ins.n <= 0xF,
            ins.x <= 0xF,
            ins.y <= 0xF,
            ins.nn == opcode & 0x00FF,
            ins.n == opcode & 0x000F,
            ins.x == (opcode & 0x0F00) >> 8,
            ins.y == (opcode & 0x00F0) >> 4,
    {
        proof {
            assert(opcode & 0x0FFF <= 0xFFF && opcode & 0x00FF <= 0xFF && opcode & 0x000F <= 0xF
                && (opcode & 0x0F00) >> 8 <= 0xF && (opcode & 0x00F0) >> 4 <= 0xF) by (bit_vector);
        }
        let nnn = opcode & 0x0FFF;
        let nn = (opcode & 0x00FF) as u8;
        let n = (opcode & 0x000F) as u8;
        let x = ((opcode & 0x0F00) >> 8) as u8;
        let y = ((opcode & 0x00F0) >> 4) as u8;
        Instruction { opcode, nnn, nn, n, x, y }
    }
}

/// A decoded instruction: one variant per opcode family the machine
/// implements, plus an explicit variant for the zero-word no-op and one for
/// everything unrecognized (absorbed as a no-op, never a halt).
#[derive(Clone, Copy, PartialEq, Eq, Structural, Debug)]
pub enum Opcode {
    /// The zero instruction word, short-circuited before dispatch.
    Noop,
    /// 0x00E0: clear both framebuffer grids.
    ClearScreen,
    /// 0x1NNN: absolute jump.
    Jump(u16),
    /// 0x3XNN: skip the next instruction if V[x] == nn.
    SkipEqImm(u8, u8),
    /// 0x4XNN: skip the next instruction if V[x] != nn.
    SkipNeImm(u8, u8),
    /// 0x5XY_: skip the next instruction if V[x] == V[y].
    SkipEqReg(u8, u8),
    /// 0x6XNN: V[x] := nn.
    SetImm(u8, u8),
    /// 0x7XNN: V[x] := V[x] + nn, clamped at 255, no flag.
    AddImm(u8, u8),
    /// 0x8XY0: V[x] := V[y].
    Assign(u8, u8),
    /// 0x8XY1: V[x] |= V[y].
    Or(u8, u8),
    /// 0x8XY2: V[x] &= V[y].
    And(u8, u8),
    /// 0x8XY3: V[x] ^= V[y].
    Xor(u8, u8),
    /// 0x8XY4: 9-bit add; on overflow V[F] := 1 and V[x] saturates at 255.
    AddCarry(u8, u8),
    /// 0x8XY5: if V[x] > V[y] subtract with V[F] := 1, else V[x] := 0, V[F] := 0.
    SubBorrow(u8, u8),
    /// 0x8XY6: V[x] := V[y] >> 1, V[F] := the bit shifted out.
    ShiftRight(u8, u8),
    /// 0x8XY7: V[x] := V[y] - V[x], floored at 0; V[F] := 1 exactly when V[y] > V[x].
    SubReverse(u8, u8),
    /// 0x8XYE: V[x] := V[y] << 1, V[F] := V[y] & 0x80 (the raw masked bit).
    ShiftLeft(u8, u8),
    /// 0x9XY_: skip the next instruction if V[x] != V[y].
    SkipNeReg(u8, u8),
    /// 0xANNN: idx := nnn.
    SetIndex(u16),
    /// 0xCXNN: V[x] := random byte & nn.
    Random(u8, u8),
    /// 0xDXYN: draw an n-row sprite read from memory at idx.
    Draw(u8, u8, u8),
    /// 0xFX1E: idx += V[x].
    AddIndex(u8),
    /// 0xFX65: load V[0..=x] from memory starting at idx.
    LoadRegisters(u8),
    /// Any other word: logged by the driver, executed as a no-op.
    Unknown(u16),
}

/// Register and nibble fields of a decoded opcode are in range.
pub open spec fn opcode_wf(op: Opcode) -> bool {
    match op {
        Opcode::Noop => true,
        Opcode::ClearScreen => true,
        Opcode::Jump(nnn) => nnn <= 0xFFF,
        Opcode::SkipEqImm(x, _nn) => x < 16,
        Opcode::SkipNeImm(x, _nn) => x < 16,
        Opcode::SkipEqReg(x, y) => x < 16 && y < 16,
        Opcode::SetImm(x, _nn) => x < 16,
        Opcode::AddImm(x, _nn) => x < 16,
        Opcode::Assign(x, y) => x < 16 && y < 16,
        Opcode::Or(x, y) => x < 16 && y < 16,
        Opcode::And(x, y) => x < 16 && y < 16,
        Opcode::Xor(x, y) => x < 16 && y < 16,
        Opcode::AddCarry(x, y) => x < 16 && y < 16,
        Opcode::SubBorrow(x, y) => x < 16 && y < 16,
        Opcode::ShiftRight(x, y) => x < 16 && y < 16,
        Opcode::SubReverse(x, y) => x < 16 && y < 16,
        Opcode::ShiftLeft(x, y) => x < 16 && y < 16,
        Opcode::SkipNeReg(x, y) => x < 16 && y < 16,
        Opcode::SetIndex(nnn) => nnn <= 0xFFF,
        Opcode::Random(x, _nn) => x < 16,
        Opcode::Draw(x, y, n) => x < 16 && y < 16 && n < 16,
        Opcode::AddIndex(x) => x < 16,
        Opcode::LoadRegisters(x) => x < 16,
        Opcode::Unknown(_w) => true,
    }
}

/// The decode function: total over all 16-bit words. The zero word is an
/// explicit no-op; within class 0x0 only the low byte 0xE0 clears the screen;
/// classes 0x8 and 0xF dispatch a second time on the low nibble or byte.
pub open spec fn decode_spec(w: u16) -> Opcode {
    let nnn = w & 0x0FFF;
    let nn = (w & 0x00FF) as u8;
    let n = (w & 0x000F) as u8;
    let x = ((w & 0x0F00) >> 8) as u8;
    let y = ((w & 0x00F0) >> 4) as u8;
    if w == 0 {
        Opcode::Noop
    } else if w & 0xF000 == 0x0000 {
        if w & 0x00FF == 0x00E0 {
            Opcode::ClearScreen
        } else {
            Opcode::Unknown(w)
        }
    } else if w & 0xF000 == 0x1000 {
        Opcode::Jump(nnn)
    } else if w & 0xF000 == 0x3000 {
        Opcode::SkipEqImm(x, nn)
    } else if w & 0xF000 == 0x4000 {
        Opcode::SkipNeImm(x, nn)
    } else if w & 0xF000 == 0x5000 {
        Opcode::SkipEqReg(x, y)
    } else if w & 0xF000 == 0x6000 {
        Opcode::SetImm(x, nn)
    } else if w & 0xF000 == 0x7000 {
        Opcode::AddImm(x, nn)
    } else if w & 0xF000 == 0x8000 {
        if n == 0x0 {
            Opcode::Assign(x, y)
        } else if n == 0x1 {
            Opcode::Or(x, y)
        } else if n == 0x2 {
            Opcode::And(x, y)
        } else if n == 0x3 {
            Opcode::Xor(x, y)
        } else if n == 0x4 {
            Opcode::AddCarry(x, y)
        } else if n == 0x5 {
            Opcode::SubBorrow(x, y)
        } else if n == 0x6 {
            Opcode::ShiftRight(x, y)
        } else if n == 0x7 {
            Opcode::SubReverse(x, y)
        } else if n == 0xE {
            Opcode::ShiftLeft(x, y)
        } else {
            Opcode::Unknown(w)
        }
    } else if w & 0xF000 == 0x9000 {
        Opcode::SkipNeReg(x, y)
    } else if w & 0xF000 == 0xA000 {
        Opcode::SetIndex(nnn)
    } else if w & 0xF000 == 0xC000 {
        Opcode::Random(x, nn)
    } else if w & 0xF000 == 0xD000 {
        Opcode::Draw(x, y, n)
    } else if w & 0xF000 == 0xF000 {
        if nn == 0x1E {
            Opcode::AddIndex(x)
        } else if nn == 0x65 {
            Opcode::LoadRegisters(x)
        } else {
            Opcode::Unknown(w)
        }
    } else {
        Opcode::Unknown(w)
    }
}

/// Decode an instruction word into its tagged opcode value.
pub fn decode(w: u16) -> (op: Opcode)
    ensures
        op == decode_spec(w),
        opcode_wf(op),
{
    let ins = Instruction::parse_u16(w);
    if w == 0 {
        return Opcode::Noop;
    }
    match w & 0xF000 {
        0x0000 => if ins.nn == 0xE0 {
            Opcode::ClearScreen
        } else {
            Opcode::Unknown(w)
        },
        0x1000 => Opcode::Jump(ins.nnn),
        0x3000 => Opcode::SkipEqImm(ins.x, ins.nn),
        0x4000 => Opcode::SkipNeImm(ins.x, ins.nn),
        0x5000 => Opcode::SkipEqReg(ins.x, ins.y),
        0x6000 => Opcode::SetImm(ins.x, ins.nn),
        0x7000 => Opcode::AddImm(ins.x, ins.nn),
        0x8000 => match ins.n {
            0x0 => Opcode::Assign(ins.x, ins.y),
            0x1 => Opcode::Or(ins.x, ins.y),
            0x2 => Opcode::And(ins.x, ins.y),
            0x3 => Opcode::Xor(ins.x, ins.y),
            0x4 => Opcode::AddCarry(ins.x, ins.y),
            0x5 => Opcode::SubBorrow(ins.x, ins.y),
            0x6 => Opcode::ShiftRight(ins.x, ins.y),
            0x7 => Opcode::SubReverse(ins.x, ins.y),
            0xE => Opcode::ShiftLeft(ins.x, ins.y),
            _ => Opcode::Unknown(w),
        },
        0x9000 => Opcode::SkipNeReg(ins.x, ins.y),
        0xA000 => Opcode::SetIndex(ins.nnn),
        0xC000 => Opcode::Random(ins.x, ins.nn),
        0xD000 => Opcode::Draw(ins.x, ins.y, ins.n),
        0xF000 => match ins.nn {
            0x1E => Opcode::AddIndex(ins.x),
            0x65 => Opcode::LoadRegisters(ins.x),
            _ => Opcode::Unknown(w),
        },
        _ => Opcode::Unknown(w),
    }
}

/// The abstract state of the interpreter: index register, program counter,
/// current instruction register, call stack, register file, memory, and the
/// double-buffered framebuffer.
#[verifier::ext_equal]
pub ghost struct CpuView {
    pub idx: u16,
    pub pc: u16,
    pub cir: u16,
    pub stack: Seq<u16>,
    pub v: Seq<u8>,
    pub mem: Seq<u8>,
    pub disp: DisplayView,
}

/// The errors that escalate out of a cycle: a fetch that would read past the
/// end of memory, an indexed read past the end of memory, and an index
/// register addition that would not fit in 16 bits.
#[derive(Clone, Copy, PartialEq, Eq, Structural, Debug)]
pub enum ExecError {
    FetchOutOfBounds,
    MemoryOutOfBounds,
    IndexOverflow,
}

/// The state with register i set to val.
pub open spec fn set_v(s: CpuView, i: int, val: u8) -> CpuView {
    CpuView { v: s.v.update(i, val), ..s }
}

/// The state with the program counter advanced past one instruction.
pub open spec fn skip(s: CpuView) -> CpuView {
    CpuView { pc: (s.pc + 2) as u16, ..s }
}

/// Addition clamped at 255.
pub open spec fn sat_add(a: u8, b: u8) -> u8 {
    if a + b <= 255 {
        (a + b) as u8
    } else {
        255u8
    }
}

/// Whether a fetch at the current program counter stays in bounds: both bytes
/// of the word must exist, even at the final valid word.
pub open spec fn fetch_ok(s: CpuView) -> bool {
    s.pc + 1 < 4096
}

/// The big-endian 16-bit word at address a.
pub open spec fn word_at(mem: Seq<u8>, a: int) -> u16 {
    ((mem[a] as u16) << 8) | (mem[a + 1] as u16)
}

/// The state after a successful fetch: the current instruction register holds
/// the word at pc and pc has advanced by 2.
pub open spec fn fetch_step(s: CpuView) -> CpuView {
    CpuView { cir: word_at(s.mem, s.pc as int), pc: (s.pc + 2) as u16, ..s }
}

/// Whether executing the decoded opcode succeeds: only the sprite draw, the
/// indexed register load, and the index addition can fail, each on an
/// out-of-range access.
pub open spec fn exec_ok(s: CpuView, op: Opcode) -> bool {
    match op {
        Opcode::Draw(_x, _y, n) => s.idx + n <= 4096,
        Opcode::AddIndex(x) => s.idx + s.v[x as int] <= 0xFFFF,
        Opcode::LoadRegisters(x) => s.idx + x < 4096,
        _ => true,
    }
}

/// The error reported when executing the opcode fails.
pub open spec fn exec_err(op: Opcode) -> ExecError {
    match op {
        Opcode::AddIndex(_x) => ExecError::IndexOverflow,
        _ => ExecError::MemoryOutOfBounds,
    }
}

/// The state after a sprite draw: the flags register is first cleared, the
/// origin is read from the (possibly just-cleared) registers, the sprite rows
/// are the n bytes at idx, the current grid takes the draw, and the flags
/// register becomes 1 exactly when a pixel was erased.
pub open spec fn draw_step(s: CpuView, x: u8, y: u8, n: u8) -> CpuView {
    let v1 = s.v.update(0xF, 0u8);
    let x0 = v1[x as int] % 64;
    let y0 = 31 - (v1[y as int] % 32);
    let sprite = s.mem.subrange(s.idx as int, s.idx + n);
    let g = grid_of(s.disp, s.disp.cur);
    let v2 = if draw_erases(g, x0 as int, y0 as int, sprite) {
        v1.update(0xF, 1u8)
    } else {
        v1
    };
    CpuView {
        v: v2,
        disp: with_grid(s.disp, s.disp.cur, draw_grid(g, x0 as int, y0 as int, sprite)),
        ..s
    }
}

/// The state after executing one decoded opcode, assuming it succeeds. `rnd`
/// is the byte the random source produced; only the Random opcode reads it.
pub open spec fn exec_step(s: CpuView, op: Opcode, rnd: u8) -> CpuView {
    match op {
        Opcode::Noop => s,
        Opcode::Unknown(_w) => s,
        Opcode::ClearScreen => CpuView {
            disp: DisplayView { g0: blank_grid(), g1: blank_grid(), cur: s.disp.cur },
            ..s
        },
        Opcode::Jump(nnn) => CpuView { pc: nnn, ..s },
        Opcode::SkipEqImm(x, nn) => if s.v[x as int] == nn {
            skip(s)
        } else {
            s
        },
        Opcode::SkipNeImm(x, nn) => if s.v[x as int] != nn {
            skip(s)
        } else {
            s
        },
        Opcode::SkipEqReg(x, y) => if s.v[x as int] == s.v[y as int] {
            skip(s)
        } else {
            s
        },
        Opcode::SkipNeReg(x, y) => if s.v[x as int] != s.v[y as int] {
            skip(s)
        } else {
            s
        },
        Opcode::SetImm(x, nn) => set_v(s, x as int, nn),
        Opcode::AddImm(x, nn) => set_v(s, x as int, sat_add(s.v[x as int], nn)),
        Opcode::Assign(x, y) => set_v(s, x as int, s.v[y as int]),
        Opcode::Or(x, y) => set_v(s, x as int, s.v[x as int] | s.v[y as int]),
        Opcode::And(x, y) => set_v(s, x as int, s.v[x as int] & s.v[y as int]),
        Opcode::Xor(x, y) => set_v(s, x as int, s.v[x as int] ^ s.v[y as int]),
        Opcode::AddCarry(x, y) => if s.v[x as int] + s.v[y as int] > 255 {
            set_v(set_v(s, 0xF, 1u8), x as int, 255u8)
        } else {
            set_v(set_v(s, 0xF, 0u8), x as int, (s.v[x as int] + s.v[y as int]) as u8)
        },
        Opcode::SubBorrow(x, y) => if s.v[x as int] > s.v[y as int] {
            set_v(set_v(s, 0xF, 1u8), x as int, (s.v[x as int] - s.v[y as int]) as u8)
        } else {
            set_v(set_v(s, 0xF, 0u8), x as int, 0u8)
        },
        Opcode::ShiftRight(x, y) => set_v(
            set_v(s, x as int, s.v[y as int] >> 1u8),
            0xF,
            s.v[y as int] & 1,
        ),
        Opcode::SubReverse(x, y) => if s.v[y as int] > s.v[x as int] {
            set_v(set_v(s, 0xF, 1u8), x as int, (s.v[y as int] - s.v[x as int]) as u8)
        } else {
            set_v(set_v(s, 0xF, 0u8), x as int, 0u8)
        },
        Opcode::ShiftLeft(x, y) => set_v(
            set_v(s, x as int, s.v[y as int] << 1u8),
            0xF,
            s.v[y as int] & 0x80,
        ),
        Opcode::SetIndex(nnn) => CpuView { idx: nnn, ..s },
        Opcode::Random(x, nn) => set_v(s, x as int, rnd & nn),
        Opcode::Draw(x, y, n) => draw_step(s, x, y, n),
        Opcode::AddIndex(x) => CpuView { idx: (s.idx + s.v[x as int]) as u16, ..s },
        Opcode::LoadRegisters(x) => CpuView {
            v: Seq::new(
                16,
                |i: int|
                    if i <= x as int {
                        s.mem[s.idx + i]
                    } else {
                        s.v[i]
                    },
            ),
            ..s
        },
    }
}

/// Relies on rand::random::<u8>: a byte from the thread-local generator.
/// Nothing is assumed of its value.
#[verifier::external_body]
fn random_byte() -> u8 {
    rand::random::<u8>()
}

/// A vector of `count` zero bytes.
fn zero_bytes(count: usize) -> (v: Vec<u8>)
    ensures
        v@ == Seq::new(count as nat, |i: int| 0u8),
{
    let mut v: Vec<u8> = Vec::new();
    let mut k: usize = 0;
    while k < count
        invariant
            k <= count,
            v@.len() == k,
            forall|t: int| 0 <= t < k ==> v@[t] == 0u8,
        decreases count - k,
    {
        v.push(0);
        k = k + 1;
    }
    assert(v@ =~= Seq::new(count as nat, |i: int| 0u8));
    v
}

/// The interpreter state: memory and registers are owned here and shared with
/// nothing else; the framebuffer is owned here and read by the presentation
/// layer through the accessors of `DisplayBuffer`.
pub struct CPU {
    pub idx: u16,
    pub pc: u16,
    pub cir: u16,
    pub stack: Vec<u16>,
    pub v_reg: Vec<u8>,
    pub memory: Vec<u8>,
    pub display: DisplayBuffer,
}

impl View for CPU {
    type V = CpuView;

    open spec fn view(&self) -> CpuView {
        CpuView {
            idx: self.idx,
            pc: self.pc,
            cir: self.cir,
            stack: self.stack@,
            v: self.v_reg@,
            mem: self.memory@,
            disp: self.display@,
        }
    }
}

impl CPU {
    /// Sixteen registers, 4096 bytes of memory, a well-formed framebuffer.
    pub open spec fn wf(self) -> bool {
        &&& self@.v.len() == 16
        &&& self@.mem.len() == 4096
        &&& self.display.wf()
    }

    /// A zeroed machine: empty stack, zero registers and memory, both
    /// framebuffer grids cleared with slot 0 current.
    pub fn new() -> (c: CPU)
        ensures
            c.wf(),
            c@.idx == 0,
            c@.pc == 0,
            c@.cir == 0,
            c@.stack == Seq::<u16>::empty(),
            c@.v == Seq::new(16, |i: int| 0u8),
            c@.mem == Seq::new(4096, |i: int| 0u8),
            c@.disp.g0 == blank_grid(),
            c@.disp.g1 == blank_grid(),
            c@.disp.cur == 0,
    {
        CPU {
            idx: 0,
            pc: 0,
            cir: 0,
            stack: Vec::new(),
            v_reg: zero_bytes(16),
            memory: zero_bytes(4096),
            display: DisplayBuffer::new(),
        }
    }

    /// Read the big-endian word at pc into the current instruction register
    /// and advance pc by 2. Fails, leaving the state untouched, if the word
    /// would read past the end of memory.
    pub fn fetch(&mut self) -> (r: Result<(), ExecError>)
        requires
            old(self).wf(),
        ensures
            final(self).wf(),
            fetch_ok(old(self)@) ==> r is Ok && final(self)@ == fetch_step(old(self)@),
            !fetch_ok(old(self)@) ==> r == Err::<(), ExecError>(ExecError::FetchOutOfBounds)
                && final(self)@ == old(self)@,
    {
        if self.pc >= 4095 {
            return Err(ExecError::FetchOutOfBounds);
        }
        let hi = self.memory[self.pc as usize];
        let lo = self.memory[self.pc as usize + 1];
        self.cir = ((hi as u16) << 8u16) | (lo as u16);
        self.pc = self.pc + 2;
        Ok(())
    }

    /// Decode the current instruction register and execute the result. On
    /// success the state is exactly `exec_step` of the decoded opcode (for
    /// the Random opcode, for some byte the random source produced); on an
    /// out-of-range access nothing changes and the matching error comes back.
    pub fn decode_execute(&mut self) -> (r: Result<(), ExecError>)
        requires
            old(self).wf(),
            old(self).pc + 2 <= 0xFFFF,
        ensures
            final(self).wf(),
            ({
                let op = decode_spec(old(self).cir);
                &&& (r is Ok <==> exec_ok(old(self)@, op))
                &&& (r is Ok && !(op is Random) ==> final(self)@ == exec_step(old(self)@, op, 0))
                &&& (r is Ok && op is Random ==> exists|b: u8|
                    final(self)@ == exec_step(old(self)@, op, b))
                &&& (r is Err ==> final(self)@ == old(self)@ && r == Err::<(), ExecError>(
                    exec_err(op),
                ))
            }),
    {
        let op = decode(self.cir);
        match op {
            Opcode::Noop => Ok(()),
            Opcode::Unknown(_) => Ok(()),
            Opcode::ClearScreen => {
                self.display.clear(0);
                self.display.clear(1);
                Ok(())
            },
            Opcode::Jump(nnn) => {
                self.pc = nnn;
                Ok(())
            },
            Opcode::SkipEqImm(x, nn) => {
                if self.v_reg[x as usize] == nn {
                    self.pc = self.pc + 2;
                }
                Ok(())
            },
            Opcode::SkipNeImm(x, nn) => {
                if self.v_reg[x as usize] != nn {
                    self.pc = self.pc + 2;
                }
                Ok(())
            },
            Opcode::SkipEqReg(x, y) => {
                if self.v_reg[x as usize] == self.v_reg[y as usize] {
                    self.pc = self.pc + 2;
                }
                Ok(())
            },
            Opcode::SkipNeReg(x, y) => {
                if self.v_reg[x as usize] != self.v_reg[y as usize] {
                    self.pc = self.pc + 2;
                }
                Ok(())
            },
            Opcode::SetImm(x, nn) => {
                self.v_reg.set(x as usize, nn);
                Ok(())
            },
            Opcode::AddImm(x, nn) => {
                let vx = self.v_reg[x as usize];
                let sum: u16 = vx as u16 + nn as u16;
                if sum <= 255 {
                    self.v_reg.set(x as usize, sum as u8);
                } else {
                    self.v_reg.set(x as usize, 255);
                }
                Ok(())
            },
            Opcode::Assign(x, y) => {
                let vy = self.v_reg[y as usize];
                self.v_reg.set(x as usize, vy);
                Ok(())
            },
            Opcode::Or(x, y) => {
                let vx = self.v_reg[x as usize];
                let vy = self.v_reg[y as usize];
                self.v_reg.set(x as usize, vx | vy);
                Ok(())
            },
            Opcode::And(x, y) => {
                let vx = self.v_reg[x as usize];
                let vy = self.v_reg[y as usize];
                self.v_reg.set(x as usize, vx & vy);
                Ok(())
            },
            Opcode::Xor(x, y) => {
                let vx = self.v_reg[x as usize];
                let vy = self.v_reg[y as usize];
                self.v_reg.set(x as usize, vx ^ vy);
                Ok(())
            },
            Opcode::AddCarry(x, y) => {
                let vx = self.v_reg[x as usize];
                let vy = self.v_reg[y as usize];
                let sum: u16 = vx as u16 + vy as u16;
                if sum > 255 {
                    self.v_reg.set(15, 1);
                    self.v_reg.set(x as usize, 255);
                } else {
                    self.v_reg.set(15, 0);
                    self.v_reg.set(x as usize, sum as u8);
                }
                Ok(())
            },
            Opcode::SubBorrow(x, y) => {
                let vx = self.v_reg[x as usize];
                let vy = self.v_reg[y as usize];
                if vx > vy {
                    self.v_reg.set(15, 1);
                    self.v_reg.set(x as usize, vx - vy);
                } else {
                    self.v_reg.set(15, 0);
                    self.v_reg.set(x as usize, 0);
                }
                Ok(())
            },
            Opcode::ShiftRight(x, y) => {
                let vy = self.v_reg[y as usize];
                let least = vy & 1;
                self.v_reg.set(x as usize, vy >> 1u8);
                self.v_reg.set(15, least);
                Ok(())
            },
            Opcode::SubReverse(x, y) => {
                let vx = self.v_reg[x as usize];
                let vy = self.v_reg[y as usize];
                if vy > vx {
                    self.v_reg.set(15, 1);
                    self.v_reg.set(x as usize, vy - vx);
                } else {
                    self.v_reg.set(15, 0);
                    self.v_reg.set(x as usize, 0);
                }
                Ok(())
            },
            Opcode::ShiftLeft(x, y) => {
                let vy = self.v_reg[y as usize];
                let most = vy & 0x80;
                self.v_reg.set(x as usize, vy << 1u8);
                self.v_reg.set(15, most);
                Ok(())
            },
            Opcode::SetIndex(nnn) => {
                self.idx = nnn;
                Ok(())
            },
            Opcode::Random(x, nn) => {
                let b = random_byte();
                self.v_reg.set(x as usize, b & nn);
                proof {
                    assert(self@ =~= exec_step(old(self)@, op, b));
                }
                Ok(())
            },
            Opcode::Draw(x, y, n) => {
                if self.idx as usize + n as usize > 4096 {
                    return Err(ExecError::MemoryOutOfBounds);
                }
                let base: usize = self.idx as usize;
                let n_us: usize = n as usize;
                let mut sprite: Vec<u8> = Vec::new();
                let mut k: usize = 0;
                while k < n_us
                    invariant
                        k <= n_us,
                        base == self.idx as usize,
                        base + n_us <= 4096,
                        self@.mem.len() == 4096,
                        sprite@.len() == k,
                        forall|t: int| 0 <= t < k ==> sprite@[t] == self@.mem[base + t],
                        self@ == old(self)@,
                        self.wf(),
                    decreases n_us - k,
                {
                    let b = self.memory[base + k];
                    sprite.push(b);
                    k = k + 1;
                }
                proof {
                    assert(sprite@ =~= old(self)@.mem.subrange(
                        old(self)@.idx as int,
                        old(self)@.idx + n,
                    ));
                }
                self.v_reg.set(15, 0);
                let vx = self.v_reg[x as usize];
                let vy = self.v_reg[y as usize];
                let erased = self.display.draw(-1, vx, vy, &sprite);
                if erased {
                    self.v_reg.set(15, 1);
                }
                proof {
                    assert(self@ =~= exec_step(old(self)@, op, 0));
                }
                Ok(())
            },
            Opcode::AddIndex(x) => {
                let vx = self.v_reg[x as usize];
                if self.idx as u32 + vx as u32 > 0xFFFF {
                    return Err(ExecError::IndexOverflow);
                }
                self.idx = self.idx + vx as u16;
                Ok(())
            },
            Opcode::LoadRegisters(x) => {
                if self.idx as usize + x as usize >= 4096 {
                    return Err(ExecError::MemoryOutOfBounds);
                }
                let base: usize = self.idx as usize;
                let mut k: usize = 0;
                while k <= x as usize
                    invariant
                        k <= x as usize + 1,
                        x < 16,
                        base == self.idx as usize,
                        base + x < 4096,
                        self@.mem.len() == 4096,
                        self@.v.len() == 16,
                        self.wf(),
                        self.idx == old(self).idx,
                        self.pc == old(self).pc,
                        self.cir == old(self).cir,
                        self.stack@ == old(self).stack@,
                        self.memory@ == old(self).memory@,
                        self.display@ == old(self).display@,
                        forall|i: int|
                            0 <= i < 16 ==> self@.v[i] == (if i < k {
                                old(self)@.mem[old(self)@.idx + i]
                            } else {
                                old(self)@.v[i]
                            }),
                    decreases x as usize + 1 - k,
                {
                    let b = self.memory[base + k];
                    self.v_reg.set(k, b);
                    k = k + 1;
                }
                proof {
                    assert(self@.v =~= exec_step(old(self)@, op, 0).v);
                    assert(self@ =~= exec_step(old(self)@, op, 0));
                }
                Ok(())
            },
        }
    }
}

/// For all registers x and y with x not the flags register and x != y:
/// executing 0x8XY4 on a state where V[x] is 0xFF and V[y] is 0x01 saturates
/// V[x] at 0xFF and sets the carry flag.
pub proof fn lemma_add_carry_saturates(s: CpuView, x: u8, y: u8, w: u16)
    requires
        s.v.len() == 16,
        x < 16,
        y < 16,
        x != y,
        x != 0xF,
        w == 0x8004u16 | ((x as u16) << 8u16) | ((y as u16) << 4u16),
        s.v[x as int] == 0xFF,
        s.v[y as int] == 0x01,
    ensures
        decode_spec(w) == Opcode::AddCarry(x, y),
        exec_step(s, decode_spec(w), 0).v[x as int] == 0xFF,
        exec_step(s, decode_spec(w), 0).v[0xF] == 1,
{
    lemma_decode_add_carry(x, y, w);
}

/// For all registers x and y with x not the flags register: executing 0x8XY4
/// on a state where V[x] and V[y] are both 0x01 stores 0x02 and clears the
/// carry flag.
pub proof fn lemma_add_carry_no_overflow(s: CpuView, x: u8, y: u8, w: u16)
    requires
        s.v.len() == 16,
        x < 16,
        y < 16,
        x != 0xF,
        w == 0x8004u16 | ((x as u16) << 8u16) | ((y as u16) << 4u16),
        s.v[x as int] == 0x01,
        s.v[y as int] == 0x01,
    ensures
        decode_spec(w) == Opcode::AddCarry(x, y),
        exec_step(s, decode_spec(w), 0).v[x as int] == 0x02,
        exec_step(s, decode_spec(w), 0).v[0xF] == 0,
{
    lemma_decode_add_carry(x, y, w);
}

/// The word 0x8XY4 decodes to the add-with-carry opcode on registers x and y.
proof fn lemma_decode_add_carry(x: u8, y: u8, w: u16)
    requires
        x < 16,
        y < 16,
        w == 0x8004u16 | ((x as u16) << 8u16) | ((y as u16) << 4u16),
    ensures
        decode_spec(w) == Opcode::AddCarry(x, y),
{
    assert(w != 0 && w & 0xF000 == 0x8000 && (w & 0x000F) as u8 == 0x4 && ((w & 0x0F00) >> 8)
        as u8 == x && ((w & 0x00F0) >> 4) as u8 == y) by (bit_vector)
        requires
            x < 16,
            y < 16,
            w == 0x8004u16 | ((x as u16) << 8u16) | ((y as u16) << 4u16),
    ;
}

} // verus!
