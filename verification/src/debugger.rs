//! The debugger's state and the text it shows: register values, flags,
//! instruction bytes, breakpoints and the stepping protocol.

use vstd::prelude::*;
use std::collections::HashSet;
use crate::rom::{ROM, MAX_ROM_SIZE};
use crate::text::{
    hex2, hex_digits, hex_value, parses_as_hex_usize, push_hex2, string_push, usize_from_hex,
};

verus! {

/// The RGB picture shared between the emulation and the display.
pub struct FrameBuffer {
    pub buffer: Vec<u8>,
    pub needs_update: bool,
}

// Protocol between the emulation loop and a debugger.
#[derive(Clone, Copy, PartialEq, Eq, Structural, Debug)]
pub enum StepControl {
    // Ignore all breakpoint and do a normal run of the emulation
    Run,
    // Halt the emulation
    Halt,
    // If in Halt continue Run.
    Resume,
    // Do one step and set to to 'Halt' after this step.
    NextStep,
}

/// What the emulation loop does next: whether it runs a step, and the step
/// control to keep afterwards.
pub open spec fn spec_control(c: StepControl) -> (bool, StepControl) {
    match c {
        StepControl::Halt => (false, StepControl::Halt),
        StepControl::NextStep => (true, StepControl::Halt),
        StepControl::Run => (true, StepControl::Run),
        StepControl::Resume => (true, StepControl::Resume),
    }
}

/// The emulation loop's decision for the current step control: a halted
/// emulation waits, a single step halts again afterwards, otherwise it runs.
pub fn emulation_control(control: StepControl) -> (r: (bool, StepControl))
    ensures
        r == spec_control(control),
{
    match control {
        StepControl::Halt => (false, StepControl::Halt),
        StepControl::NextStep => (true, StepControl::Halt),
        StepControl::Run => (true, StepControl::Run),
        StepControl::Resume => (true, StepControl::Resume),
    }
}

/// Whether the Step and the Resume buttons are enabled: only while halted.
pub fn step_buttons_enabled(control: StepControl) -> (r: (bool, bool))
    ensures
        r == (if control == StepControl::Halt {
            (true, true)
        } else {
            (false, false)
        }),
{
    match control {
        StepControl::Run => (false, false),
        StepControl::Halt => (true, true),
        StepControl::NextStep => (false, false),
        StepControl::Resume => (false, false),
    }
}

/// The Resume button, enabled only while halted: the step control to set,
/// or `None` for any other control (the button cannot be pressed then).
pub fn resume_control(control: StepControl) -> (r: Option<StepControl>)
    ensures
        r == (if control == StepControl::Halt {
            Some(StepControl::Resume)
        } else {
            None
        }),
{
    match control {
        StepControl::Halt => Some(StepControl::Resume),
        _ => None,
    }
}

#[derive(PartialEq, Eq, Structural, Clone, Copy)]
pub enum RegValueDisplay {
    Hex,
    Decimal,
    Binary,
}

pub struct JumpToDialogState {
    pub show: bool,
    pub input_text: String,
}

pub enum AsmViewAt {
    // follow the program counter of the emulator
    PC,
    // show a fixed address and ignore the program counter
    FixedPos(usize),
}

pub struct DebuggerState {
    pub reg_value_display: RegValueDisplay,
    pub asm_view_at: AsmViewAt,
    pub jump_to_dialog_state: JumpToDialogState,
}

/// Where the assembly view goes when the jump dialog is confirmed with
/// `text`: the address it gives in hex, or no change when it is not one.
pub open spec fn spec_jump_target(text: Seq<char>) -> Option<usize> {
    if parses_as_hex_usize(text) {
        Some(hex_value(hex_digits(text)) as usize)
    } else {
        None
    }
}

impl DebuggerState {
    /// Shows the jump dialog.
    pub fn open_jump_dialog(&mut self)
        ensures
            final(self).jump_to_dialog_state.show,
            final(self).jump_to_dialog_state.input_text@ == old(self).jump_to_dialog_state.input_text@,
            final(self).reg_value_display == old(self).reg_value_display,
            final(self).asm_view_at == old(self).asm_view_at,
    {
        self.jump_to_dialog_state.show = true;
    }

    /// The Jump button: a hex address moves the view there; the dialog is
    /// closed and its text cleared either way.
    pub fn confirm_jump(&mut self)
        ensures
            match spec_jump_target(old(self).jump_to_dialog_state.input_text@) {
                Some(addr) => final(self).asm_view_at == AsmViewAt::FixedPos(addr),
                None => final(self).asm_view_at == old(self).asm_view_at,
            },
            !final(self).jump_to_dialog_state.show,
            final(self).jump_to_dialog_state.input_text@ == Seq::<char>::empty(),
            final(self).reg_value_display == old(self).reg_value_display,
    {
        let may_addr = usize_from_hex(self.jump_to_dialog_state.input_text.as_str());
        if let Ok(addr) = may_addr {
            self.asm_view_at = AsmViewAt::FixedPos(addr);
        }
        // TODO show an error somewhere if address is invalid
        self.jump_to_dialog_state.input_text = String::new();
        self.jump_to_dialog_state.show = false;
    }

    /// The Cancel button: the dialog is closed and its text cleared.
    pub fn cancel_jump(&mut self)
        ensures
            final(self).asm_view_at == old(self).asm_view_at,
            !final(self).jump_to_dialog_state.show,
            final(self).jump_to_dialog_state.input_text@ == Seq::<char>::empty(),
            final(self).reg_value_display == old(self).reg_value_display,
    {
        self.jump_to_dialog_state.input_text = String::new();
        self.jump_to_dialog_state.show = false;
    }

    /// Where the assembly view is centred, and whether an instruction decoded
    /// there is confirmed: only when the view follows the program counter.
    pub fn view_position(&self, pc: u16) -> (r: (usize, bool))
        ensures
            r == match self.asm_view_at {
                AsmViewAt::PC => (pc as usize, true),
                AsmViewAt::FixedPos(pos) => (pos, false),
            },
    {
        match self.asm_view_at {
            AsmViewAt::PC => (pc as usize, true),
            AsmViewAt::FixedPos(pos) => (pos, false),
        }
    }

    /// The Step button: the emulation makes one step and the view follows
    /// the program counter again. Returns the step control to set.
    pub fn step_clicked(&mut self) -> (c: StepControl)
        ensures
            c == StepControl::NextStep,
            final(self).asm_view_at is PC,
            final(self).reg_value_display == old(self).reg_value_display,
            final(self).jump_to_dialog_state.show == old(self).jump_to_dialog_state.show,
            final(self).jump_to_dialog_state.input_text@ == old(self).jump_to_dialog_state.input_text@,
    {
        // re-sync with the PC on next step
        self.asm_view_at = AsmViewAt::PC;
        StepControl::NextStep
    }

    /// Hex display, following the program counter, no dialog shown.
    pub fn new() -> (s: DebuggerState)
        ensures
            s.reg_value_display == RegValueDisplay::Hex,
            s.asm_view_at is PC,
            !s.jump_to_dialog_state.show,
            s.jump_to_dialog_state.input_text@ == Seq::<char>::empty(),
    {
        proof {
            reveal_strlit("");
        }
        DebuggerState {
            reg_value_display: RegValueDisplay::Hex,
            asm_view_at: AsmViewAt::PC,
            jump_to_dialog_state: JumpToDialogState { show: false, input_text: String::from_str("") },
        }
    }
}

/// "1" when the bit `m` is set in `v`, "0" otherwise.
pub fn flag(v: u8, m: u8) -> (s: &'static str)
    ensures
        s@ == (if v & m == 0 {
            seq!['0']
        } else {
            seq!['1']
        }),
{
    proof {
        reveal_strlit("0");
        reveal_strlit("1");
    }
    if v & m == 0 {
        "0"
    } else {
        "1"
    }
}

/// `n` spaces.
pub open spec fn spaces(n: nat) -> Seq<char> {
    Seq::new(n, |i: int| ' ')
}

/// The instruction bytes column: up to three bytes in upper case hex,
/// padded, followed by a gap of eleven spaces.
pub open spec fn byte_text_spec(rom: Seq<u8>, loc: int, instr_len: int) -> Seq<char> {
    let txt = if instr_len == 1 {
        hex2(rom[loc], true) + spaces(6)
    } else if instr_len == 2 {
        hex2(rom[loc], true) + spaces(1) + hex2(rom[loc + 1], true) + spaces(3)
    } else if instr_len == 3 {
        hex2(rom[loc], true) + spaces(1) + hex2(rom[loc + 1], true) + spaces(1) + hex2(
            rom[loc + 2],
            true,
        )
    } else {
        spaces(8)
    };
    txt + spaces(11)
}

/// Appends `n` spaces.
fn push_spaces(s: &mut String, n: usize)
    ensures
        final(s)@ == old(s)@ + spaces(n as nat),
{
    let mut i: usize = 0;
    while i < n
        invariant
            i <= n,
            s@ == old(s)@ + spaces(i as nat),
        decreases n - i,
    {
        string_push(s, ' ');
        i = i + 1;
        assert(s@ =~= old(s)@ + spaces(i as nat));
    }
}

/// The bytes of the instruction at `loc` in the ROM, as the assembly view
/// shows them; the bytes must lie inside the ROM buffer.
pub fn byte_text(loc: usize, instr_len: usize, rom: &ROM) -> (s: String)
    requires
        1 <= instr_len <= 3 ==> loc + instr_len <= MAX_ROM_SIZE,
    ensures
        s@ == byte_text_spec(rom.buffer(), loc as int, instr_len as int),
{
    let mut txt = String::new();
    if instr_len == 1 {
        push_hex2(&mut txt, rom.read_u8(loc).unwrap(), true);
        push_spaces(&mut txt, 6);
    } else if instr_len == 2 {
        push_hex2(&mut txt, rom.read_u8(loc).unwrap(), true);
        push_spaces(&mut txt, 1);
        push_hex2(&mut txt, rom.read_u8(loc + 1).unwrap(), true);
        push_spaces(&mut txt, 3);
    } else if instr_len == 3 {
        push_hex2(&mut txt, rom.read_u8(loc).unwrap(), true);
        push_spaces(&mut txt, 1);
        push_hex2(&mut txt, rom.read_u8(loc + 1).unwrap(), true);
        push_spaces(&mut txt, 1);
        push_hex2(&mut txt, rom.read_u8(loc + 2).unwrap(), true);
    } else {
        push_spaces(&mut txt, 8);
    }
    push_spaces(&mut txt, 11);
    proof {
        assert(txt@ =~= byte_text_spec(rom.buffer(), loc as int, instr_len as int));
    }
    txt
}

// ---------------------------------------------------------------------------
// register values

/// The decimal digit (or binary digit) for `n` below 10.
pub open spec fn digit(n: int) -> char {
    (('0' as int) + n) as char
}

/// `v` in decimal, without leading zeros.
pub open spec fn decimal(v: nat) -> Seq<char>
    decreases v,
{
    if v < 10 {
        seq![digit(v as int)]
    } else {
        decimal(v / 10).push(digit((v % 10) as int))
    }
}

/// The `width` lowest binary digits of `v`, most significant first.
pub open spec fn binary(v: nat, width: nat) -> Seq<char>
    decreases width,
{
    if width == 0 {
        Seq::<char>::empty()
    } else {
        binary(v / 2, (width - 1) as nat).push(digit((v % 2) as int))
    }
}

/// A byte register as the debugger shows it: `{:08b}`, `{:02X}` or `{}`.
pub open spec fn spec_val_u8(display: RegValueDisplay, v: u8) -> Seq<char> {
    match display {
        RegValueDisplay::Binary => binary(v as nat, 8),
        RegValueDisplay::Hex => hex2(v, true),
        RegValueDisplay::Decimal => decimal(v as nat),
    }
}

/// A word register as the debugger shows it: `{:016b}`, `{:04X}` or `{}`.
pub open spec fn spec_val_u16(display: RegValueDisplay, v: u16) -> Seq<char> {
    match display {
        RegValueDisplay::Binary => binary(v as nat, 16),
        RegValueDisplay::Hex => hex2((v / 256) as u8, true) + hex2((v % 256) as u8, true),
        RegValueDisplay::Decimal => decimal(v as nat),
    }
}

fn push_decimal(s: &mut String, v: u16)
    ensures
        final(s)@ == old(s)@ + decimal(v as nat),
    decreases v,
{
    if v >= 10 {
        push_decimal(s, v / 10);
    }
    string_push(s, ((v % 10) as u8 + '0' as u8) as char);
    assert(s@ =~= old(s)@ + decimal(v as nat));
}

fn push_binary(s: &mut String, v: u16, width: u16)
    requires
        width <= 16,
    ensures
        final(s)@ == old(s)@ + binary(v as nat, width as nat),
    decreases width,
{
    if width > 0 {
        push_binary(s, v / 2, width - 1);
        string_push(s, ((v % 2) as u8 + '0' as u8) as char);
    }
    assert(s@ =~= old(s)@ + binary(v as nat, width as nat));
}

/// The text for a byte register in the chosen display.
pub fn val_u8(display: RegValueDisplay, v: u8) -> (s: String)
    ensures
        s@ == spec_val_u8(display, v),
{
    let mut s = String::new();
    match display {
        RegValueDisplay::Binary => push_binary(&mut s, v as u16, 8),
        RegValueDisplay::Hex => push_hex2(&mut s, v, true),
        RegValueDisplay::Decimal => push_decimal(&mut s, v as u16),
    }
    assert(s@ =~= spec_val_u8(display, v));
    s
}

/// The text for a word register in the chosen display.
pub fn val_u16(display: RegValueDisplay, v: u16) -> (s: String)
    ensures
        s@ == spec_val_u16(display, v),
{
    let mut s = String::new();
    match display {
        RegValueDisplay::Binary => push_binary(&mut s, v, 16),
        RegValueDisplay::Hex => {
            let (lo, hi) = crate::bytes::u16_to_le(v);
            push_hex2(&mut s, hi, true);
            push_hex2(&mut s, lo, true);
        },
        RegValueDisplay::Decimal => push_decimal(&mut s, v),
    }
    assert(s@ =~= spec_val_u16(display, v));
    s
}

// ---------------------------------------------------------------------------
// breakpoints

/// The addresses at which the debugger stops.
pub struct Breakpoints {
    set: HashSet<u16>,
}

impl View for Breakpoints {
    type V = Set<u16>;

    closed spec fn view(&self) -> Set<u16> {
        self.set@
    }
}

/// The set after toggling `loc`: removed if present, added otherwise.
pub open spec fn toggled(s: Set<u16>, loc: u16) -> Set<u16> {
    if s.contains(loc) {
        s.remove(loc)
    } else {
        s.insert(loc)
    }
}

impl Breakpoints {
    pub fn new() -> (b: Breakpoints)
        ensures
            b@ == Set::<u16>::empty(),
    {
        Breakpoints { set: HashSet::new() }
    }

    pub fn toggle_breakpoint(&mut self, loc: u16)
        ensures
            final(self)@ == toggled(old(self)@, loc),
    {
        broadcast use vstd::std_specs::hash::group_hash_axioms;

        if self.set.contains(&loc) {
            self.set.remove(&loc);
        } else {
            self.set.insert(loc);
        }
    }

    pub fn has_breakpoint_at(&self, loc: u16) -> (r: bool)
        ensures
            r == self@.contains(loc),
    {
        broadcast use vstd::std_specs::hash::group_hash_axioms;

        self.set.contains(&loc)
    }
}

/// Toggling a breakpoint twice leaves the breakpoints as they were.
pub proof fn law_toggle_twice(s: Set<u16>, loc: u16)
    ensures
        toggled(toggled(s, loc), loc) == s,
        toggled(s, loc).contains(loc) == !s.contains(loc),
{
    assert(toggled(toggled(s, loc), loc) =~= s);
}

} // verus!
