//! The machine around the interpreter: construction with the preloaded
//! hexadecimal font, program-image loading at the fixed base address 0x200,
//! and the fetch/decode/execute cycle the driver invokes at its configured
//! rate.

use vstd::prelude::*;
use crate::cpu::{
    decode_spec,
    exec_err,
    exec_ok,
    exec_step,
    fetch_ok,
    fetch_step,
    CpuView,
    ExecError,
    Opcode,
    CPU,
};

verus! {

/// The fixed 16-glyph bitmap font preloaded at 0x000-0x04F: 5 bytes per
/// glyph, hexadecimal digits 0 through F.
pub open spec fn font_sprites() -> Seq<u8> {
    seq![
        0xF0u8, 0x90, 0x90, 0x90, 0xF0,  // 0
        0x20, 0x60, 0x20, 0x20, 0x70,  // 1
        0xF0, 0x10, 0xF0, 0x80, 0xF0,  // 2
        0xF0, 0x10, 0xF0, 0x10, 0xF0,  // 3
        0x90, 0x90, 0xF0, 0x10, 0x10,  // 4
        0xF0, 0x80, 0xF0, 0x10, 0xF0,  // 5
        0xF0, 0x80, 0xF0, 0x90, 0xF0,  // 6
        0xF0, 0x10, 0x20, 0x40, 0x40,  // 7
        0xF0, 0x90, 0xF0, 0x90, 0xF0,  // 8
        0xF0, 0x90, 0xF0, 0x10, 0xF0,  // 9
        0xF0, 0x90, 0xF0, 0x90, 0x90,  // A
        0xE0, 0x90, 0xE0, 0x90, 0xE0,  // B
        0xF0, 0x80, 0x80, 0x80, 0xF0,  // C
        0xE0, 0x90, 0x90, 0x90, 0xE0,  // D
        0xF0, 0x80, 0xF0, 0x80, 0xF0,  // E
        0xF0, 0x80, 0xF0, 0x80, 0x80,  // F
    ]
}

/// The font as an executable vector.
fn font_bytes() -> (f: Vec<u8>)
    ensures
        f@ == font_sprites(),
{
    let f: Vec<u8> = vec![
        0xF0, 0x90, 0x90, 0x90, 0xF0,
        0x20, 0x60, 0x20, 0x20, 0x70,
        0xF0, 0x10, 0xF0, 0x80, 0xF0,
        0xF0, 0x10, 0xF0, 0x10, 0xF0,
        0x90, 0x90, 0xF0, 0x10, 0x10,
        0xF0, 0x80, 0xF0, 0x10, 0xF0,
        0xF0, 0x80, 0xF0, 0x90, 0xF0,
        0xF0, 0x10, 0x20, 0x40, 0x40,
        0xF0, 0x90, 0xF0, 0x90, 0xF0,
        0xF0, 0x90, 0xF0, 0x10, 0xF0,
        0xF0, 0x90, 0xF0, 0x90, 0x90,
        0xE0, 0x90, 0xE0, 0x90, 0xE0,
        0xF0, 0x80, 0x80, 0x80, 0xF0,
        0xE0, 0x90, 0x90, 0x90, 0xE0,
        0xF0, 0x80, 0xF0, 0x80, 0xF0,
        0xF0, 0x80, 0xF0, 0x80, 0x80,
    ];
    assert(f@ =~= font_sprites());
    f
}

/// Whether one full cycle (fetch, then execute the fetched word) succeeds
/// from this state.
pub open spec fn cycle_ok(s: CpuView) -> bool {
    &&& fetch_ok(s)
    &&& exec_ok(fetch_step(s), decode_spec(fetch_step(s).cir))
}

/// The interpreter together with its caller-configured clock rate in
/// instructions per second.
pub struct Emulator {
    pub cpu: CPU,
    pub clock_speed: u32,
}

impl Emulator {
    pub open spec fn wf(self) -> bool {
        self.cpu.wf()
    }

    /// A fresh machine: zeroed registers and framebuffer, the font preloaded
    /// at 0x000-0x04F, every other memory byte zero, and the default clock
    /// speed of 10 instructions per second.
    pub fn new() -> (e: Emulator)
        ensures
            e.wf(),
            e.clock_speed == 10,
            e.cpu@.idx == 0,
            e.cpu@.pc == 0,
            e.cpu@.cir == 0,
            e.cpu@.stack == Seq::<u16>::empty(),
            e.cpu@.v == Seq::new(16, |i: int| 0u8),
            forall|i: int| 0 <= i < 80 ==> e.cpu@.mem[i] == font_sprites()[i],
            forall|i: int| 80 <= i < 4096 ==> e.cpu@.mem[i] == 0u8,
            e.cpu@.disp.g0 == crate::display::blank_grid(),
            e.cpu@.disp.g1 == crate::display::blank_grid(),
            e.cpu@.disp.cur == 0,
    {
        let mut cpu = CPU::new();
        let font = font_bytes();
        let mut i: usize = 0;
        while i < 80
            invariant
                i <= 80,
                font@ == font_sprites(),
                font@.len() == 80,
                cpu.wf(),
                cpu.memory@.len() == 4096,
                forall|t: int| 0 <= t < i ==> cpu.memory@[t] == font_sprites()[t],
                forall|t: int| i <= t < 4096 ==> cpu.memory@[t] == 0u8,
                cpu.idx == 0,
                cpu.pc == 0,
                cpu.cir == 0,
                cpu.stack@ == Seq::<u16>::empty(),
                cpu.v_reg@ == Seq::new(16, |k: int| 0u8),
                cpu.display@.g0 == crate::display::blank_grid(),
                cpu.display@.g1 == crate::display::blank_grid(),
                cpu.display@.cur == 0,
            decreases 80 - i,
        {
            let b = font[i];
            cpu.memory.set(i, b);
            i = i + 1;
        }
        Emulator { cpu, clock_speed: 10 }
    }

    /// Copy a program image into memory starting at the fixed base offset
    /// 0x200. Exactly the image's bytes are written; all memory outside
    /// [0x200, 0x200 + len), the font region included, and every register
    /// are left untouched.
    pub fn load_rom(&mut self, rom: Vec<u8>)
        requires
            old(self).wf(),
            rom@.len() <= 4096 - 0x200,
        ensures
            final(self).wf(),
            forall|i: int|
                0x200 <= i < 0x200 + rom@.len() ==> final(self).cpu@.mem[i] == rom@[i - 0x200],
            forall|i: int|
                (0 <= i < 0x200 || 0x200 + rom@.len() <= i < 4096) ==> final(self).cpu@.mem[i]
                    == old(self).cpu@.mem[i],
            final(self).cpu@.idx == old(self).cpu@.idx,
            final(self).cpu@.pc == old(self).cpu@.pc,
            final(self).cpu@.cir == old(self).cpu@.cir,
            final(self).cpu@.stack == old(self).cpu@.stack,
            final(self).cpu@.v == old(self).cpu@.v,
            final(self).cpu@.disp == old(self).cpu@.disp,
            final(self).clock_speed == old(self).clock_speed,
    {
        let len = rom.len();
        let mut k: usize = 0;
        while k < len
            invariant
                k <= len,
                len == rom@.len(),
                len <= 4096 - 0x200,
                self.cpu.wf(),
                self.cpu.memory@.len() == 4096,
                forall|t: int|
                    0x200 <= t < 0x200 + k ==> self.cpu.memory@[t] == rom@[t - 0x200],
                forall|t: int|
                    (0 <= t < 0x200 || 0x200 + k <= t < 4096)
                        ==> self.cpu.memory@[t] == old(self).cpu.memory@[t],
                self.cpu.idx == old(self).cpu.idx,
                self.cpu.pc == old(self).cpu.pc,
                self.cpu.cir == old(self).cpu.cir,
                self.cpu.stack@ == old(self).cpu.stack@,
                self.cpu.v_reg@ == old(self).cpu.v_reg@,
                self.cpu.display@ == old(self).cpu.display@,
                self.clock_speed == old(self).clock_speed,
            decreases len - k,
        {
            let b = rom[k];
            self.cpu.memory.set(0x200 + k, b);
            k = k + 1;
        }
    }

    /// Point the program counter at the program base, load the image, and
    /// adopt the caller's clock speed.
    pub fn initialize(&mut self, rom: Vec<u8>, clock_speed: u32)
        requires
            old(self).wf(),
            rom@.len() <= 4096 - 0x200,
        ensures
            final(self).wf(),
            final(self).cpu@.pc == 0x200,
            final(self).clock_speed == clock_speed,
            forall|i: int|
                0x200 <= i < 0x200 + rom@.len() ==> final(self).cpu@.mem[i] == rom@[i - 0x200],
            forall|i: int|
                (0 <= i < 0x200 || 0x200 + rom@.len() <= i < 4096) ==> final(self).cpu@.mem[i]
                    == old(self).cpu@.mem[i],
            final(self).cpu@.idx == old(self).cpu@.idx,
            final(self).cpu@.cir == old(self).cpu@.cir,
            final(self).cpu@.stack == old(self).cpu@.stack,
            final(self).cpu@.v == old(self).cpu@.v,
            final(self).cpu@.disp == old(self).cpu@.disp,
    {
        self.cpu.pc = 0x200;
        self.load_rom(rom);
        self.clock_speed = clock_speed;
    }

    /// One interpreter cycle: fetch the word at pc (advancing pc by 2), then
    /// decode and execute it. A failed fetch leaves the state untouched; a
    /// failed execute leaves the state as the fetch left it; otherwise the
    /// state is exactly the step function of the fetched word.
    pub fn cycle(&mut self) -> (r: Result<(), ExecError>)
        requires
            old(self).wf(),
        ensures
            final(self).wf(),
            final(self).clock_speed == old(self).clock_speed,
            ({
                let s0 = old(self).cpu@;
                &&& (r is Ok <==> cycle_ok(s0))
                &&& (!fetch_ok(s0) ==> r == Err::<(), ExecError>(ExecError::FetchOutOfBounds)
                    && final(self).cpu@ == s0)
                &&& (fetch_ok(s0) ==> ({
                    let s1 = fetch_step(s0);
                    let op = decode_spec(s1.cir);
                    &&& (!exec_ok(s1, op) ==> r == Err::<(), ExecError>(exec_err(op))
                        && final(self).cpu@ == s1)
                    &&& (exec_ok(s1, op) && !(op is Random)
                        ==> final(self).cpu@ == exec_step(s1, op, 0))
                    &&& (exec_ok(s1, op) && op is Random ==> exists|b: u8|
                        final(self).cpu@ == exec_step(s1, op, b))
                }))
            }),
    {
        match self.cpu.fetch() {
            Ok(()) => {},
            Err(e) => {
                return Err(e);
            },
        }
        self.cpu.decode_execute()
    }
}

} // verus!
