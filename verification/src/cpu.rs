//! The machine state: register file, memory image, stack, timer, keypad
//! latches and framebuffer, together with its construction, ROM loading and
//! the small accessors the embedding application uses between cycles.

use vstd::prelude::*;

use crate::Chip8Error;

verus! {

/// Drawing mode tag. The extended (Super-CHIP) mode only stubs out the draw
/// instruction; everything else behaves identically in both modes.
#[derive(Clone, Copy, Debug, PartialEq, Eq, Structural)]
pub enum VideoMode {
    Schip8,
    Chip8,
}

/// The mathematical model of the machine state: one field per `Cpu` field,
/// with the vectors abstracted to sequences. All contracts speak of this view.
pub ghost struct CpuView {
    pub v: Seq<u8>,
    pub index: u16,
    pub mem: Seq<u8>,
    pub pc: u16,
    pub stack: Seq<u16>,
    pub display: Seq<u8>,
    pub keypad: Seq<u8>,
    pub keypressed: bool,
    pub draw: bool,
    pub vmode: VideoMode,
    pub dt: u8,
}

impl CpuView {
    /// Well-formedness of the machine state. Constructors establish it and
    /// every operation preserves it: the register file has 16 slots, memory
    /// 4096 bytes, the framebuffer 64*32 one-bit pixels, the keypad 16
    /// latches; the stack never exceeds 16 return addresses and only holds
    /// addresses from which a return (popped + 2) cannot overflow the
    /// program counter.
    pub open spec fn wf(self) -> bool {
        &&& self.v.len() == 16
        &&& self.mem.len() == 4096
        &&& self.stack.len() <= 16
        &&& self.display.len() == 2048
        &&& self.keypad.len() == 16
        &&& forall|i: int| 0 <= i < 2048 ==> self.display[i] <= 1
        &&& forall|i: int| 0 <= i < self.stack.len() ==> self.stack[i] < 4095
    }
}

/// The CHIP-8 machine state. Created once by `init`, mutated exclusively by
/// `cycle` and by the caller's key-state, timer-tick and loading operations.
pub struct Cpu {
    pub v: Vec<u8>,
    pub index: u16,

    pub mem: Vec<u8>,

    pub pc: u16,

    pub display: Vec<u8>,

    pub keypad: Vec<u8>,
    pub keypressed: bool,

    pub draw: bool,

    pub vmode: VideoMode,

    pub stack: Vec<u16>,

    pub dt: u8,
}

impl View for Cpu {
    type V = CpuView;

    open spec fn view(&self) -> CpuView {
        CpuView {
            v: self.v@,
            index: self.index,
            mem: self.mem@,
            pc: self.pc,
            stack: self.stack@,
            display: self.display@,
            keypad: self.keypad@,
            keypressed: self.keypressed,
            draw: self.draw,
            vmode: self.vmode,
            dt: self.dt,
        }
    }
}

/// The community-standard font table: 16 glyphs of 5 bytes each, one per
/// hexadecimal digit, written into the low 80 bytes of memory.
pub open spec fn font_seq() -> Seq<u8> {
    seq![
        0xF0, 0x90, 0x90, 0x90, 0xF0, // 0
        0x20, 0x60, 0x20, 0x20, 0x70, // 1
        0xF0, 0x10, 0xF0, 0x80, 0xF0, // 2
        0xF0, 0x10, 0xF0, 0x10, 0xF0, // 3
        0x90, 0x90, 0xF0, 0x10, 0x10, // 4
        0xF0, 0x80, 0xF0, 0x10, 0xF0, // 5
        0xF0, 0x80, 0xF0, 0x90, 0xF0, // 6
        0xF0, 0x10, 0x20, 0x40, 0x40, // 7
        0xF0, 0x90, 0xF0, 0x90, 0xF0, // 8
        0xF0, 0x90, 0xF0, 0x10, 0xF0, // 9
        0xF0, 0x90, 0xF0, 0x90, 0x90, // A
        0xE0, 0x90, 0xE0, 0x90, 0xE0, // B
        0xF0, 0x80, 0x80, 0x80, 0xF0, // C
        0xE0, 0x90, 0x90, 0x90, 0xE0, // D
        0xF0, 0x80, 0xF0, 0x80, 0xF0, // E
        0xF0, 0x80, 0xF0, 0x80, 0x80, // F
    ]
}

/// The executable font table, equal byte for byte to `font_seq`.
fn font_table() -> (r: Vec<u8>)
    ensures
        r@ == font_seq(),
{
    let r: Vec<u8> = vec![
        0xF0, 0x90, 0x90, 0x90, 0xF0, // 0
        0x20, 0x60, 0x20, 0x20, 0x70, // 1
        0xF0, 0x10, 0xF0, 0x80, 0xF0, // 2
        0xF0, 0x10, 0xF0, 0x10, 0xF0, // 3
        0x90, 0x90, 0xF0, 0x10, 0x10, // 4
        0xF0, 0x80, 0xF0, 0x10, 0xF0, // 5
        0xF0, 0x80, 0xF0, 0x90, 0xF0, // 6
        0xF0, 0x10, 0x20, 0x40, 0x40, // 7
        0xF0, 0x90, 0xF0, 0x90, 0xF0, // 8
        0xF0, 0x90, 0xF0, 0x10, 0xF0, // 9
        0xF0, 0x90, 0xF0, 0x90, 0x90, // A
        0xE0, 0x90, 0xE0, 0x90, 0xE0, // B
        0xF0, 0x80, 0x80, 0x80, 0xF0, // C
        0xE0, 0x90, 0x90, 0x90, 0xE0, // D
        0xF0, 0x80, 0xF0, 0x80, 0xF0, // E
        0xF0, 0x80, 0xF0, 0x80, 0x80, // F
    ];
    proof {
        assert(r@ =~= font_seq());
    }
    r
}

/// A vector of `n` zero bytes.
pub(crate) fn zero_bytes(n: usize) -> (r: Vec<u8>)
    ensures
        r@.len() == n,
        forall|i: int| 0 <= i < n ==> r@[i] == 0,
{
    let mut r: Vec<u8> = Vec::new();
    let mut k: usize = 0;
    while k < n
        invariant
            k <= n,
            r@.len() == k,
            forall|i: int| 0 <= i < k ==> r@[i] == 0,
        decreases n - k,
    {
        r.push(0);
        k = k + 1;
    }
    r
}

impl Cpu {
    /// A pristine machine: zero registers, stack and framebuffer, the
    /// program counter at 0x200, and the font glyphs pre-written into the
    /// low 80 bytes of an otherwise zero memory.
    pub fn init() -> (r: Self)
        ensures
            r@.wf(),
            r@.pc == 0x200,
            r@.index == 0,
            r@.dt == 0,
            r@.stack.len() == 0,
            !r@.draw,
            !r@.keypressed,
            r@.vmode == VideoMode::Chip8,
            forall|i: int| 0 <= i < 16 ==> r@.v[i] == 0,
            forall|i: int| 0 <= i < 16 ==> r@.keypad[i] == 0,
            forall|i: int| 0 <= i < 2048 ==> r@.display[i] == 0,
            forall|i: int| 0 <= i < 80 ==> r@.mem[i] == font_seq()[i],
            forall|i: int| 80 <= i < 4096 ==> r@.mem[i] == 0,
    {
        let mut mem = zero_bytes(4096);
        let fonts = font_table();
        let mut k: usize = 0;
        while k < 80
            invariant
                k <= 80,
                mem@.len() == 4096,
                fonts@ == font_seq(),
                forall|i: int| 0 <= i < k ==> mem@[i] == font_seq()[i],
                forall|i: int| k <= i < 4096 ==> mem@[i] == 0,
            decreases 80 - k,
        {
            mem[k] = fonts[k];
            k = k + 1;
        }
        Cpu {
            v: zero_bytes(16),
            mem,
            pc: 0x200,
            index: 0,
            display: zero_bytes(2048),
            vmode: VideoMode::Chip8,
            keypad: zero_bytes(16),
            keypressed: false,
            stack: Vec::new(),
            draw: false,
            dt: 0,
        }
    }

    /// Copies a ROM image into memory starting at 0x200 and (re)writes the
    /// font table into the low bytes. Rejects an image that does not fit in
    /// the 3584 bytes past 0x200, leaving the state untouched.
    pub fn load(&mut self, content: &[u8]) -> (r: Result<(), Chip8Error>)
        requires
            old(self)@.wf(),
        ensures
            final(self)@.wf(),
            r is Ok <==> content@.len() <= 3584,
            r is Err ==> r == Result::<(), Chip8Error>::Err(Chip8Error::RomTooLarge)
                && final(self)@ == old(self)@,
            r is Ok ==> {
                &&& final(self)@ == (CpuView { mem: final(self)@.mem, ..old(self)@ })
                &&& final(self)@.mem.len() == 4096
                &&& forall|i: int| 0 <= i < 80 ==> final(self)@.mem[i] == font_seq()[i]
                &&& forall|i: int|
                    0x200 <= i < 0x200 + content@.len() ==> final(self)@.mem[i] == content@[i
                        - 0x200]
                &&& forall|i: int|
                    (80 <= i < 0x200 || 0x200 + content@.len() <= i < 4096)
                        ==> final(self)@.mem[i] == old(self)@.mem[i]
            },
    {
        if content.len() > 3584 {
            return Err(Chip8Error::RomTooLarge);
        }
        let mut k: usize = 0;
        while k < content.len()
            invariant
                old(self)@.wf(),
                k <= content@.len() <= 3584,
                self@ == (CpuView { mem: self@.mem, ..old(self)@ }),
                self@.mem.len() == 4096,
                forall|i: int| 0x200 <= i < 0x200 + k ==> self@.mem[i] == content@[i - 0x200],
                forall|i: int|
                    (0 <= i < 0x200 || 0x200 + k <= i < 4096) ==> self@.mem[i] == old(self)@.mem[i],
            decreases content@.len() - k,
        {
            self.mem[k + 0x200] = content[k];
            k = k + 1;
        }
        let fonts = font_table();
        let mut j: usize = 0;
        while j < 80
            invariant
                old(self)@.wf(),
                j <= 80,
                content@.len() <= 3584,
                fonts@ == font_seq(),
                self@ == (CpuView { mem: self@.mem, ..old(self)@ }),
                self@.mem.len() == 4096,
                forall|i: int| 0 <= i < j ==> self@.mem[i] == font_seq()[i],
                forall|i: int|
                    0x200 <= i < 0x200 + content@.len() ==> self@.mem[i] == content@[i - 0x200],
                forall|i: int|
                    (j <= i < 0x200 || 0x200 + content@.len() <= i < 4096) ==> self@.mem[i]
                        == old(self)@.mem[i],
            decreases 80 - j,
        {
            self.mem[j] = fonts[j];
            j = j + 1;
        }
        Ok(())
    }

    /// Sets one keypad latch; the input backend calls this between cycles.
    pub fn set_key(&mut self, key: u8, pressed: u8)
        requires
            old(self)@.wf(),
            key < 16,
        ensures
            final(self)@.wf(),
            final(self)@ == (CpuView { keypad: old(self)@.keypad.update(key as int, pressed), ..old(
                self,
            )@ }),
    {
        self.keypad[key as usize] = pressed;
    }

    /// Writes one byte directly into memory, a debugging aid for placing
    /// data outside the ROM image.
    pub fn load_byte_to_memory(&mut self, v: u8, pos: usize)
        requires
            old(self)@.wf(),
            pos < 4096,
        ensures
            final(self)@.wf(),
            final(self)@ == (CpuView { mem: old(self)@.mem.update(pos as int, v), ..old(self)@ }),
    {
        self.mem[pos] = v;
    }

    /// A copy of the 64*32 framebuffer, row-major, one byte (0 or 1) per
    /// pixel; the presentation layer polls this once per rendered frame.
    pub fn get_graphics(&self) -> (r: Vec<u8>)
        requires
            self@.wf(),
        ensures
            r@ == self@.display,
    {
        let mut r: Vec<u8> = Vec::new();
        let mut k: usize = 0;
        while k < 2048
            invariant
                self@.wf(),
                k <= 2048,
                r@.len() == k,
                forall|i: int| 0 <= i < k ==> r@[i] == self@.display[i],
            decreases 2048 - k,
        {
            r.push(self.display[k]);
            k = k + 1;
        }
        proof {
            assert(r@ =~= self@.display);
        }
        r
    }

    /// The 60 Hz timer edge, owned by the caller's scheduler and decoupled
    /// from the instruction-cycle rate: decrements the delay timer if it is
    /// nonzero.
    pub fn tick_timer(&mut self)
        ensures
            final(self)@ == (CpuView {
                dt: if old(self)@.dt > 0 {
                    (old(self)@.dt - 1) as u8
                } else {
                    0
                },
                ..old(self)@
            }),
    {
        if self.dt > 0 {
            self.dt = self.dt - 1;
        }
    }
}

} // verus!
