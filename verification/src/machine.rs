//! The CHIP-8 machine state: memory, registers, stack, timers, keypad and
//! display, together with the operations the host drives directly (creating
//! a machine, loading a program, ticking the timers, delivering key events).
use vstd::prelude::*;

verus! {

/// Size of the addressable memory in bytes.
pub const MEM_SIZE: usize = 4096;

/// First address a program may occupy; everything below is interpreter data.
pub const ROM_BASE: usize = 512;

/// Largest program that fits between `ROM_BASE` and the end of memory.
pub const ROM_CAPACITY: usize = 3584;

/// Number of pixels on the 64 x 32 monochrome display.
pub const DISPLAY_CELLS: usize = 2048;

/// Execution mode of the interpreter: either ready to fetch the next
/// instruction, or suspended until a key is pressed, remembering which
/// register receives the key index.
#[derive(Clone, Copy, Debug, PartialEq, Eq, Structural)]
pub enum Mode {
    Running,
    AwaitingKey { target: u8 },
}

/// Defined error conditions of a single interpreter step.
#[derive(Clone, Copy, Debug, PartialEq, Eq, Structural)]
pub enum StepError {
    /// A call was executed with all sixteen stack slots in use.
    StackOverflow,
    /// A return was executed with no return address on the stack.
    StackUnderflow,
    /// The program counter or a memory operand points past address 4095.
    MemoryOutOfRange,
}

/// Error conditions of loading a program.
#[derive(Clone, Copy, Debug, PartialEq, Eq, Structural)]
pub enum LoadError {
    /// The program does not fit in the 3584-byte window above `ROM_BASE`.
    RomTooLarge,
}

/// The mathematical model of a machine state.
#[verifier::ext_equal]
pub ghost struct MachineView {
    pub mem: Seq<u8>,
    pub v: Seq<u8>,
    pub i: u16,
    pub pc: u16,
    pub stack: Seq<u16>,
    pub sp: int,
    pub delay: u8,
    pub sound: u8,
    pub keys: Seq<bool>,
    pub disp: Seq<u8>,
    pub waiting: Option<u8>,
}

/// Well-formedness of a machine state: the fixed sizes of every component,
/// the stack pointer within its sixteen slots, every display cell holding
/// 0 or 1, and a suspended machine remembering a real register while its
/// program counter still addresses a whole instruction.
pub open spec fn wf_view(m: MachineView) -> bool {
    &&& m.mem.len() == 4096
    &&& m.v.len() == 16
    &&& m.stack.len() == 16
    &&& m.keys.len() == 16
    &&& m.disp.len() == 2048
    &&& 0 <= m.sp <= 16
    &&& forall|p: int| 0 <= p < 2048 ==> m.disp[p] == 0 || m.disp[p] == 1
    &&& match m.waiting {
        Some(x) => x < 16 && m.pc <= 4094,
        None => true,
    }
}

/// The machine state of the virtual machine. Every field is plain data;
/// the interpreter step and the timer tick are its only mutators.
pub struct Chippy {
    /// 4096 bytes of addressable memory.
    pub memory: Vec<u8>,
    /// The sixteen general registers V0 through VF.
    pub v: Vec<u8>,
    /// The index register.
    pub i: u16,
    /// The program counter.
    pub pc: u16,
    /// The sixteen return-address slots.
    pub stack: Vec<u16>,
    /// The stack pointer: number of slots in use.
    pub sp: usize,
    /// The delay timer, decremented at the timer-clock rate.
    pub delay_timer: u8,
    /// The sound timer; a tone is audible while it is nonzero.
    pub sound_timer: u8,
    /// The sixteen key states, written only by the host.
    pub keypad: Vec<bool>,
    /// The 64 x 32 display, row-major, each cell 0 or 1.
    pub display: Vec<u8>,
    /// Whether the machine is running or suspended awaiting a key.
    pub mode: Mode,
}

impl View for Chippy {
    type V = MachineView;

    open spec fn view(&self) -> MachineView {
        MachineView {
            mem: self.memory@,
            v: self.v@,
            i: self.i,
            pc: self.pc,
            stack: self.stack@,
            sp: self.sp as int,
            delay: self.delay_timer,
            sound: self.sound_timer,
            keys: self.keypad@,
            disp: self.display@,
            waiting: match self.mode {
                Mode::Running => None,
                Mode::AwaitingKey { target } => Some(target),
            },
        }
    }
}

/// The state of a freshly created machine: everything zero, no key pressed,
/// the program counter at `ROM_BASE`.
pub open spec fn initial_view() -> MachineView {
    MachineView {
        mem: Seq::new(4096, |p: int| 0u8),
        v: Seq::new(16, |p: int| 0u8),
        i: 0,
        pc: 512,
        stack: Seq::new(16, |p: int| 0u16),
        sp: 0,
        delay: 0,
        sound: 0,
        keys: Seq::new(16, |p: int| false),
        disp: Seq::new(2048, |p: int| 0u8),
        waiting: None,
    }
}

/// One timer decrement: down by one, stopping at zero.
pub open spec fn dec_timer(t: u8) -> u8 {
    if t > 0 {
        (t - 1) as u8
    } else {
        0
    }
}

/// The built-in font: sixteen glyphs of five bytes each, one per hex digit.
pub open spec fn font_seq() -> Seq<u8> {
    seq![
        0xF0u8, 0x90, 0x90, 0x90, 0xF0, 0x20, 0x60, 0x20, 0x20, 0x70, 0xF0, 0x10, 0xF0, 0x80,
        0xF0, 0xF0, 0x10, 0xF0, 0x10, 0xF0, 0x90, 0x90, 0xF0, 0x10, 0x10, 0xF0, 0x80, 0xF0,
        0x10, 0xF0, 0xF0, 0x80, 0xF0, 0x90, 0xF0, 0xF0, 0x10, 0x20, 0x40, 0x40, 0xF0, 0x90,
        0xF0, 0x90, 0xF0, 0xF0, 0x90, 0xF0, 0x10, 0xF0, 0xF0, 0x90, 0xF0, 0x90, 0x90, 0xE0,
        0x90, 0xE0, 0x90, 0xE0, 0xF0, 0x80, 0x80, 0x80, 0xF0, 0xE0, 0x90, 0x90, 0x90, 0xE0,
        0xF0, 0x80, 0xF0, 0x80, 0xF0, 0xF0, 0x80, 0xF0, 0x80, 0x80,
    ]
}

/// Memory after a successful load: the font at address 0, the program at
/// `ROM_BASE`, and every other byte as it was.
pub open spec fn loaded_mem(mem: Seq<u8>, rom: Seq<u8>) -> Seq<u8> {
    Seq::new(
        4096,
        |p: int|
            if 0 <= p < 80 {
                font_seq()[p]
            } else if 512 <= p < 512 + rom.len() {
                rom[p - 512]
            } else {
                mem[p]
            },
    )
}

fn zero_bytes(n: usize) -> (r: Vec<u8>)
    ensures
        r@ == Seq::new(n as nat, |p: int| 0u8),
{
    let mut r: Vec<u8> = Vec::new();
    let mut k: usize = 0;
    while k < n
        invariant
            k <= n,
            r@.len() == k,
            forall|p: int| 0 <= p < k ==> r@[p] == 0u8,
        decreases n - k,
    {
        r.push(0);
        k += 1;
    }
    proof {
        assert(r@ =~= Seq::new(n as nat, |p: int| 0u8));
    }
    r
}

fn zero_words(n: usize) -> (r: Vec<u16>)
    ensures
        r@ == Seq::new(n as nat, |p: int| 0u16),
{
    let mut r: Vec<u16> = Vec::new();
    let mut k: usize = 0;
    while k < n
        invariant
            k <= n,
            r@.len() == k,
            forall|p: int| 0 <= p < k ==> r@[p] == 0u16,
        decreases n - k,
    {
        r.push(0);
        k += 1;
    }
    proof {
        assert(r@ =~= Seq::new(n as nat, |p: int| 0u16));
    }
    r
}

fn released_keys(n: usize) -> (r: Vec<bool>)
    ensures
        r@ == Seq::new(n as nat, |p: int| false),
{
    let mut r: Vec<bool> = Vec::new();
    let mut k: usize = 0;
    while k < n
        invariant
            k <= n,
            r@.len() == k,
            forall|p: int| 0 <= p < k ==> r@[p] == false,
        decreases n - k,
    {
        r.push(false);
        k += 1;
    }
    proof {
        assert(r@ =~= Seq::new(n as nat, |p: int| false));
    }
    r
}

fn font_table() -> (r: Vec<u8>)
    ensures
        r@ == font_seq(),
{
    let r: Vec<u8> = vec![
        0xF0u8, 0x90, 0x90, 0x90, 0xF0, 0x20, 0x60, 0x20, 0x20, 0x70, 0xF0, 0x10, 0xF0, 0x80,
        0xF0, 0xF0, 0x10, 0xF0, 0x10, 0xF0, 0x90, 0x90, 0xF0, 0x10, 0x10, 0xF0, 0x80, 0xF0,
        0x10, 0xF0, 0xF0, 0x80, 0xF0, 0x90, 0xF0, 0xF0, 0x10, 0x20, 0x40, 0x40, 0xF0, 0x90,
        0xF0, 0x90, 0xF0, 0xF0, 0x90, 0xF0, 0x10, 0xF0, 0xF0, 0x90, 0xF0, 0x90, 0x90, 0xE0,
        0x90, 0xE0, 0x90, 0xE0, 0xF0, 0x80, 0x80, 0x80, 0xF0, 0xE0, 0x90, 0x90, 0x90, 0xE0,
        0xF0, 0x80, 0xF0, 0x80, 0xF0, 0xF0, 0x80, 0xF0, 0x80, 0x80,
    ];
    proof {
        assert(r@ =~= font_seq());
    }
    r
}

impl Chippy {
    /// Well-formedness of this machine; established by `new` and preserved
    /// by every operation.
    pub open spec fn wf(&self) -> bool {
        wf_view(self@)
    }

    /// Create a machine in its startup state: all-zero memory, registers,
    /// stack, timers, display and keypad, with the program counter at
    /// `ROM_BASE` and the machine running.
    pub fn new() -> (m: Chippy)
        ensures
            m.wf(),
            m@ == initial_view(),
    {
        let m = Chippy {
            memory: zero_bytes(MEM_SIZE),
            v: zero_bytes(16),
            i: 0,
            pc: 512,
            stack: zero_words(16),
            sp: 0,
            delay_timer: 0,
            sound_timer: 0,
            keypad: released_keys(16),
            display: zero_bytes(DISPLAY_CELLS),
            mode: Mode::Running,
        };
        proof {
            assert(m@ =~= initial_view());
        }
        m
    }

    /// Install the font and copy the program into memory at `ROM_BASE`.
    /// A program larger than `ROM_CAPACITY` bytes is rejected and the
    /// machine is left exactly as it was.
    pub fn load_rom(&mut self, rom: &Vec<u8>) -> (res: Result<(), LoadError>)
        requires
            old(self).wf(),
        ensures
            final(self).wf(),
            rom@.len() > 3584 ==> res == Err::<(), LoadError>(LoadError::RomTooLarge)
                && final(self)@ == old(self)@,
            rom@.len() <= 3584 ==> res == Ok::<(), LoadError>(()) && final(self)@
                == (MachineView { mem: loaded_mem(old(self)@.mem, rom@), ..old(self)@ }),
    {
        if rom.len() > ROM_CAPACITY {
            return Err(LoadError::RomTooLarge);
        }
        let font = font_table();
        let mut j: usize = 0;
        while j < 80
            invariant
                old(self).wf(),
                j <= 80,
                font@ == font_seq(),
                self.memory@.len() == 4096,
                forall|p: int| 0 <= p < j ==> self.memory@[p] == font_seq()[p],
                forall|p: int| j <= p < 4096 ==> self.memory@[p] == old(self)@.mem[p],
                self.v == old(self).v,
                self.i == old(self).i,
                self.pc == old(self).pc,
                self.stack == old(self).stack,
                self.sp == old(self).sp,
                self.delay_timer == old(self).delay_timer,
                self.sound_timer == old(self).sound_timer,
                self.keypad == old(self).keypad,
                self.display == old(self).display,
                self.mode == old(self).mode,
            decreases 80 - j,
        {
            self.memory.set(j, font[j]);
            j += 1;
        }
        let mut k: usize = 0;
        while k < rom.len()
            invariant
                old(self).wf(),
                k <= rom@.len() <= 3584,
                self.memory@.len() == 4096,
                forall|p: int| 0 <= p < 80 ==> self.memory@[p] == font_seq()[p],
                forall|p: int| 80 <= p < 512 ==> self.memory@[p] == old(self)@.mem[p],
                forall|p: int| 512 <= p < 512 + k ==> self.memory@[p] == rom@[p - 512],
                forall|p: int| 512 + k <= p < 4096 ==> self.memory@[p] == old(self)@.mem[p],
                self.v == old(self).v,
                self.i == old(self).i,
                self.pc == old(self).pc,
                self.stack == old(self).stack,
                self.sp == old(self).sp,
                self.delay_timer == old(self).delay_timer,
                self.sound_timer == old(self).sound_timer,
                self.keypad == old(self).keypad,
                self.display == old(self).display,
                self.mode == old(self).mode,
            decreases rom@.len() - k,
        {
            self.memory.set(ROM_BASE + k, rom[k]);
            k += 1;
        }
        proof {
            assert(self.memory@ =~= loaded_mem(old(self)@.mem, rom@));
            assert(self@ =~= (MachineView { mem: loaded_mem(old(self)@.mem, rom@), ..old(self)@ }));
        }
        Ok(())
    }

    /// One tick of the timer clock: each timer goes down by one, stopping
    /// at zero. The host calls this at the fixed 60 Hz cadence, however
    /// many instruction steps run in between.
    pub fn tick_timers(&mut self)
        requires
            old(self).wf(),
        ensures
            final(self).wf(),
            final(self)@ == (MachineView {
                delay: dec_timer(old(self)@.delay),
                sound: dec_timer(old(self)@.sound),
                ..old(self)@
            }),
    {
        if self.delay_timer > 0 {
            self.delay_timer = self.delay_timer - 1;
        }
        if self.sound_timer > 0 {
            self.sound_timer = self.sound_timer - 1;
        }
        proof {
            assert(self@ =~= (MachineView {
                delay: dec_timer(old(self)@.delay),
                sound: dec_timer(old(self)@.sound),
                ..old(self)@
            }));
        }
    }

    /// Record a key press or release delivered by the host.
    pub fn set_key(&mut self, key: u8, pressed: bool)
        requires
            old(self).wf(),
            key < 16,
        ensures
            final(self).wf(),
            final(self)@ == (MachineView {
                keys: old(self)@.keys.update(key as int, pressed),
                ..old(self)@
            }),
    {
        self.keypad.set(key as usize, pressed);
        proof {
            assert(self@ =~= (MachineView {
                keys: old(self)@.keys.update(key as int, pressed),
                ..old(self)@
            }));
        }
    }

    /// Whether a tone should be audible: exactly when the sound timer is
    /// nonzero.
    pub fn sound_active(&self) -> (r: bool)
        requires
            self.wf(),
        ensures
            r == (self@.sound > 0),
    {
        self.sound_timer > 0
    }

    /// Read one display cell; `x` counts columns, `y` counts rows.
    pub fn pixel(&self, x: u8, y: u8) -> (r: u8)
        requires
            self.wf(),
            x < 64,
            y < 32,
        ensures
            r == self@.disp[y as int * 64 + x as int],
            r == 0 || r == 1,
    {
        self.display[(y as usize) * 64 + (x as usize)]
    }
}

} // verus!
