use vstd::prelude::*;

verus! {

/// Number of addressable bytes of machine memory.
pub const MEM_SIZE: usize = 4096;

/// Lowest address at which a program image is placed; everything below is
/// reserved for system data such as the font sprites.
pub const PROGRAM_START: u16 = 0x200;

/// Number of general-purpose byte registers.
pub const NUM_REGS: usize = 16;

/// Capacity of the call stack, in return addresses.
pub const STACK_SIZE: usize = 16;

/// Number of keys on the input pad.
pub const NUM_KEYS: usize = 16;

/// Width of the display, in pixels.
pub const DISPLAY_WIDTH: usize = 64;

/// Height of the display, in pixels.
pub const DISPLAY_HEIGHT: usize = 32;

/// Number of pixels in the display buffer.
pub const DISPLAY_SIZE: usize = 2048;

/// Base address of the font sprites, inside the reserved region below
/// `PROGRAM_START`; each glyph is five bytes.
pub const FONT_BASE: u16 = 0;

/// Microseconds per timer tick: the two timers decay at 60 Hz.
pub const MICROS_PER_TICK: u64 = 16667;

/// The whole machine: memory, registers, timers, input latch and display
/// buffer, owned as one aggregate and driven by `cycle` and `tick_timer`.
pub struct Cpu {
    /// Flat byte-addressable memory, `MEM_SIZE` bytes.
    pub memory: Vec<u8>,
    /// The sixteen general registers `V0` through `VF`.
    pub v: Vec<u8>,
    /// The index register `I`.
    pub i: u16,
    /// The program counter.
    pub pc: u16,
    /// The display buffer, row-major, `DISPLAY_SIZE` single-bit pixels;
    /// row 0 is the top.
    pub display: Vec<bool>,
    /// Countdown timer readable by programs.
    pub delay_timer: u8,
    /// Countdown timer driving the host's tone.
    pub sound_timer: u8,
    /// The call stack of return addresses.
    pub stack: Vec<u16>,
    /// Stack pointer: the index of the next free stack slot.
    pub sp: u8,
    /// The input latch: one flag per key, written by the host.
    pub keypad: Vec<bool>,
    /// Set whenever an instruction changes the display buffer; cleared by
    /// the host once it has consumed the buffer.
    pub redraw: bool,
    /// Wall-clock time, in microseconds, handed to `tick_timer` but not yet
    /// converted into whole ticks; kept so that decay does not drift.
    pub tick_remainder: u64,
}

/// The mathematical value of a `Cpu`: the same fields with the collections
/// as sequences.
#[verifier::ext_equal]
pub ghost struct CpuView {
    pub memory: Seq<u8>,
    pub v: Seq<u8>,
    pub i: u16,
    pub pc: u16,
    pub display: Seq<bool>,
    pub delay_timer: u8,
    pub sound_timer: u8,
    pub stack: Seq<u16>,
    pub sp: u8,
    pub keypad: Seq<bool>,
    pub redraw: bool,
    pub tick_remainder: u64,
}

impl View for Cpu {
    type V = CpuView;

    open spec fn view(&self) -> CpuView {
        CpuView {
            memory: self.memory@,
            v: self.v@,
            i: self.i,
            pc: self.pc,
            display: self.display@,
            delay_timer: self.delay_timer,
            sound_timer: self.sound_timer,
            stack: self.stack@,
            sp: self.sp,
            keypad: self.keypad@,
            redraw: self.redraw,
            tick_remainder: self.tick_remainder,
        }
    }
}

impl CpuView {
    /// Well-formedness: every component has its declared size and the stack
    /// pointer stays within the stack.
    pub open spec fn wf(self) -> bool {
        &&& self.memory.len() == MEM_SIZE
        &&& self.v.len() == NUM_REGS
        &&& self.stack.len() == STACK_SIZE
        &&& self.keypad.len() == NUM_KEYS
        &&& self.display.len() == DISPLAY_SIZE
        &&& self.sp <= STACK_SIZE
        &&& self.tick_remainder < MICROS_PER_TICK
    }

    /// The state a machine is constructed in: memory zeroed, registers
    /// zeroed, `PC` at `PROGRAM_START`, empty stack, timers at zero, no key
    /// pressed, display clear.
    pub open spec fn is_initial(self) -> bool {
        &&& self.memory =~= Seq::new(MEM_SIZE as nat, |a: int| 0u8)
        &&& self.v =~= Seq::new(NUM_REGS as nat, |r: int| 0u8)
        &&& self.i == 0
        &&& self.pc == PROGRAM_START
        &&& self.display =~= Seq::new(DISPLAY_SIZE as nat, |p: int| false)
        &&& self.delay_timer == 0
        &&& self.sound_timer == 0
        &&& self.stack =~= Seq::new(STACK_SIZE as nat, |s: int| 0u16)
        &&& self.sp == 0
        &&& self.keypad =~= Seq::new(NUM_KEYS as nat, |k: int| false)
        &&& self.redraw == false
        &&& self.tick_remainder == 0
    }
}

impl Cpu {
    /// Well-formedness of the machine, stated on its view.
    pub open spec fn wf(&self) -> bool {
        self@.wf()
    }

    /// Builds a machine in the initial state.
    pub fn new() -> (cpu: Cpu)
        ensures
            cpu.wf(),
            cpu@.is_initial(),
    {
        let cpu = Cpu {
            memory: filled_bytes(MEM_SIZE),
            v: filled_bytes(NUM_REGS),
            i: 0,
            pc: PROGRAM_START,
            display: filled_flags(DISPLAY_SIZE),
            delay_timer: 0,
            sound_timer: 0,
            stack: filled_words(STACK_SIZE),
            sp: 0,
            keypad: filled_flags(NUM_KEYS),
            redraw: false,
            tick_remainder: 0,
        };
        cpu
    }

    /// Writes one key of the input latch; the host calls this for each key
    /// it maps, once per frame, before `cycle`.
    pub fn set_key(&mut self, key: u8, pressed: bool)
        requires
            old(self).wf(),
            key < NUM_KEYS,
        ensures
            final(self).wf(),
            final(self)@ == (CpuView { keypad: old(self)@.keypad.update(key as int, pressed), ..old(self)@ }),
    {
        self.keypad.set(key as usize, pressed);
        assert(self@ =~= (CpuView { keypad: old(self)@.keypad.update(key as int, pressed), ..old(self)@ }));
    }

    /// Clears the redraw flag; the host calls this after consuming the
    /// display buffer.
    pub fn clear_redraw(&mut self)
        requires
            old(self).wf(),
        ensures
            final(self).wf(),
            final(self)@ == (CpuView { redraw: false, ..old(self)@ }),
    {
        self.redraw = false;
        assert(self@ =~= (CpuView { redraw: false, ..old(self)@ }));
    }

    /// Reads one pixel of the display buffer; row 0, column 0 is the top
    /// left corner.  The renderer boundary: the host reads the whole grid
    /// through this after observing the redraw flag.
    pub fn pixel(&self, row: usize, col: usize) -> (on: bool)
        requires
            self.wf(),
            row < DISPLAY_HEIGHT,
            col < DISPLAY_WIDTH,
        ensures
            on == self@.display[row * DISPLAY_WIDTH + col],
    {
        self.display[row * DISPLAY_WIDTH + col]
    }

    /// True while the sound timer is running; the host plays a tone for as
    /// long as this holds.
    pub fn sound_active(&self) -> (active: bool)
        ensures
            active == (self@.sound_timer > 0),
    {
        self.sound_timer > 0
    }
}

impl Default for Cpu {
    /// A machine in the initial state.
    fn default() -> (cpu: Cpu)
        ensures
            cpu.wf(),
            cpu@.is_initial(),
    {
        Cpu::new()
    }
}

/// A vector of `n` zero bytes.
fn filled_bytes(n: usize) -> (out: Vec<u8>)
    ensures
        out@ =~= Seq::new(n as nat, |j: int| 0u8),
{
    let mut out: Vec<u8> = Vec::new();
    let mut j: usize = 0;
    while j < n
        invariant
            j <= n,
            out@ =~= Seq::new(j as nat, |k: int| 0u8),
        decreases n - j,
    {
        out.push(0);
        j += 1;
    }
    out
}

/// A vector of `n` zero words.
fn filled_words(n: usize) -> (out: Vec<u16>)
    ensures
        out@ =~= Seq::new(n as nat, |j: int| 0u16),
{
    let mut out: Vec<u16> = Vec::new();
    let mut j: usize = 0;
    while j < n
        invariant
            j <= n,
            out@ =~= Seq::new(j as nat, |k: int| 0u16),
        decreases n - j,
    {
        out.push(0);
        j += 1;
    }
    out
}

/// A vector of `n` cleared flags.
pub(crate) fn filled_flags(n: usize) -> (out: Vec<bool>)
    ensures
        out@ =~= Seq::new(n as nat, |j: int| false),
{
    let mut out: Vec<bool> = Vec::new();
    let mut j: usize = 0;
    while j < n
        invariant
            j <= n,
            out@ =~= Seq::new(j as nat, |k: int| false),
        decreases n - j,
    {
        out.push(false);
        j += 1;
    }
    out
}

} // verus!
