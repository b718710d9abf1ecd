//! Interrupt dispatch.

use vstd::prelude::*;
use crate::memory::MemoryController;
use crate::semantics::call_to;
use crate::sm83::{call_to_addr, completes, ExecErr, SM83};

verus! {

pub const INTERRUPT_VBLANK_MASK: u8 = 0b00000001;

/// The V-Blank interrupt is taken: interrupts are enabled and so is V-Blank.
pub open spec fn vblank_taken(s: SM83) -> bool {
    s.reg.ime && s.reg.ie & INTERRUPT_VBLANK_MASK != 0
}

/// Raises the V-Blank interrupt: when it is taken, calls 0x40 (the current
/// program counter is pushed as the return address); otherwise nothing
/// happens.
pub fn vblank_interrupt(sm83: &mut SM83, mc: &mut MemoryController) -> (res: Result<(), ExecErr>)
    requires
        vblank_taken(*old(sm83)) ==> !(call_to(old(sm83).reg, old(mc)@, 0x40, 0) is Panic),
    ensures
        vblank_taken(*old(sm83)) ==> completes(
            call_to(old(sm83).reg, old(mc)@, 0x40, 0),
            *old(sm83),
            *final(sm83),
            final(mc)@,
            res,
        ),
        !vblank_taken(*old(sm83)) ==> res == Ok::<(), ExecErr>(()) && *final(sm83) == *old(sm83)
            && final(mc)@ == old(mc)@,
{
    if !sm83.reg.ime {
        return Ok(());
    }
    if (sm83.reg.ie & INTERRUPT_VBLANK_MASK) == 0 {
        return Ok(());
    }
    call_to_addr(sm83, mc, 0x40, 0)
}

} // verus!

verus! {

/// V-Blank is taken exactly when interrupts are enabled (IME) and bit 0 of
/// IE is set, whatever the other enable bits hold.
pub proof fn law_vblank_taken_by_bit0(s: SM83)
    ensures
        vblank_taken(s) <==> (s.reg.ime && s.reg.ie % 2 == 1),
{
    let ie = s.reg.ie;
    assert((ie & 1u8 != 0) == (ie % 2 == 1)) by (bit_vector);
}

} // verus!
