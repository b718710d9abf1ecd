//! The disassembly cache of the debugger's assembly view.
//!
//! Decoding is done by the `psy` assembler; here its decode table comes in
//! as an argument: entry `b` holds the op code and the length of the
//! instruction that `psy` decodes from the byte `b`.

use vstd::prelude::*;
use std::collections::HashMap;
use crate::dmg::DMG;
use crate::memory::MemView;
use crate::text::{hex2, hex_digit, hex_digit_char, push_hex2, string_push};

verus! {

/// The op code that `psy` gives the instruction it cannot decode.
pub const INVALID_OP_CODE: u8 = 0xD3;

/// The longest instruction, in bytes.
pub const MAX_INSTRUCTION_BYTE_LENGTH: usize = 3;

#[derive(Clone, Copy)]
pub struct DisassembleInstr {
    /// Decoded at an address the program counter reached.
    pub confirmed: bool,
    /// The op code of the decoded instruction.
    pub op_code: u8,
    /// The length of the decoded instruction in bytes.
    pub len: u8,
}

/// A decode table: one entry (op code, length) for every byte, with lengths
/// from 1 to 3.
pub open spec fn table_wf(t: Seq<(u8, u8)>) -> bool {
    &&& t.len() == 256
    &&& forall|i: int| 0 <= i < 256 ==> 1 <= #[trigger] t[i].1 <= MAX_INSTRUCTION_BYTE_LENGTH
}

/// Every cached instruction is 1 to 3 bytes long.
pub open spec fn cache_wf(c: Map<u16, DisassembleInstr>) -> bool {
    forall|a: u16| #[trigger] c.contains_key(a) ==> 1 <= c[a].len <= MAX_INSTRUCTION_BYTE_LENGTH
}

/// A well-formed instruction is cached at `i`.
pub open spec fn cached_at(c: Map<u16, DisassembleInstr>, i: int) -> bool {
    c.contains_key(i as u16) && 1 <= c[i as u16].len <= MAX_INSTRUCTION_BYTE_LENGTH
}

/// The entries the view lists from `i` up to `end`: a cached instruction
/// and then the address after it, or an unknown byte and then the next
/// address.
pub open spec fn range_walk(c: Map<u16, DisassembleInstr>, i: int, end: int) -> Seq<(u16, Option<DisassembleInstr>)>
    decreases 0x10003 - i,
{
    if i >= end || i < 0 || i > 0xFFFF {
        Seq::empty()
    } else if cached_at(c, i) {
        seq![(i as u16, Some(c[i as u16]))] + range_walk(c, i + c[i as u16].len, end)
    } else {
        seq![(i as u16, None::<DisassembleInstr>)] + range_walk(c, i + 1, end)
    }
}

/// Walking from `i` up to `end` never moves past the address space.
pub open spec fn range_walk_fits(c: Map<u16, DisassembleInstr>, i: int, end: int) -> bool
    decreases 0x10003 - i,
{
    if i >= end || i < 0 || i > 0xFFFF {
        true
    } else if cached_at(c, i) {
        i + c[i as u16].len <= 0xFFFF && range_walk_fits(c, i + c[i as u16].len, end)
    } else {
        range_walk_fits(c, i + 1, end)
    }
}

// Collect all confirmed instructions in the given memory range
pub fn instr_in_range(cache: &HashMap<u16, DisassembleInstr>, start: u16, end: u16) -> (r: Vec<(u16, Option<DisassembleInstr>)>)
    requires
        start <= end,
        cache_wf(cache@),
        range_walk_fits(cache@, start as int, end as int),
    ensures
        r@ == range_walk(cache@, start as int, end as int),
{
    broadcast use vstd::std_specs::hash::group_hash_axioms;

    let mut result = Vec::with_capacity((end - start) as usize);
    let mut i = start;
    while i < end
        invariant
            start <= i,
            cache_wf(cache@),
            range_walk_fits(cache@, i as int, end as int),
            result@ + range_walk(cache@, i as int, end as int) == range_walk(cache@, start as int, end as int),
        decreases 0x10000 - i,
    {
        let loc = i;
        let may_instr = cache.get(&loc);
        if let Some(instr) = may_instr {
            result.push((loc, Some(*instr)));
            i += instr.len as u16;
        } else {
            result.push((loc, None));
            i += 1;
        }
        assert(result@ + range_walk(cache@, i as int, end as int) =~= range_walk(cache@, start as int, end as int));
    }
    result
}

/// The instruction the byte at `pc` decodes to, as the cache keeps it.
pub open spec fn decoded_at(m: MemView, t: Seq<(u8, u8)>, pc: u16, confirmed: bool) -> DisassembleInstr {
    let op = m.read(pc)->Ok_0;
    DisassembleInstr { confirmed, op_code: t[op as int].0, len: t[op as int].1 }
}

/// The cache keeps a confirmed instruction at `pc` as it is; otherwise
/// the instruction at `pc` is decoded into it.
pub open spec fn spec_disassemble_pc(c: Map<u16, DisassembleInstr>, m: MemView, t: Seq<(u8, u8)>, pc: u16, confirmed: bool) -> Map<u16, DisassembleInstr> {
    if c.contains_key(pc) && c[pc].confirmed {
        c
    } else {
        c.insert(pc, decoded_at(m, t, pc, confirmed))
    }
}

// make sure that the instruction at the current pc is disassembled
// and in the disassembly cache
pub fn disassemble_pc(
    pc: u16,
    dmg: &DMG,
    cache: &mut HashMap<u16, DisassembleInstr>,
    confirmed: bool,
    decode: &Vec<(u8, u8)>,
)
    requires
        table_wf(decode@),
        cache_wf(old(cache)@),
        !(old(cache)@.contains_key(pc) && old(cache)@[pc].confirmed) ==> dmg.mc@.read_defined(pc)
            && dmg.mc@.read(pc) is Ok,
    ensures
        final(cache)@ == spec_disassemble_pc(old(cache)@, dmg.mc@, decode@, pc, confirmed),
        cache_wf(final(cache)@),
{
    broadcast use vstd::std_specs::hash::group_hash_axioms;

    let keep = match cache.get(&pc) {
        Some(instr) => instr.confirmed,
        None => false,
    };
    if keep {
        // do nothing and keep the confirmed instruction as is
    } else {
        let op = match dmg.mc.read(pc) {
            Ok(op) => op,
            Err(_) => 0,
        };
        let (op_code, len) = decode[op as usize];
        let dis = DisassembleInstr { confirmed, op_code, len };
        cache.insert(pc, dis);
    }
}

/// A confirmed instruction is cached at `a`.
pub open spec fn confirmed_at(c: Map<u16, DisassembleInstr>, a: int) -> bool {
    0 <= a <= 0xFFFF && c.contains_key(a as u16) && c[a as u16].confirmed
}

/// The last address inside an instruction of `len` bytes at `pc` (not
/// counting `pc` itself) that holds a confirmed instruction.
pub open spec fn last_confirmed(c: Map<u16, DisassembleInstr>, pc: int, len: int) -> Option<int> {
    if len >= 3 && confirmed_at(c, pc + 2) {
        Some(pc + 2)
    } else if len >= 2 && confirmed_at(c, pc + 1) {
        Some(pc + 1)
    } else {
        None
    }
}

/// The placeholder for addresses whose decoding went wrong: the invalid
/// instruction, unconfirmed.
pub open spec fn invalid_entry(t: Seq<(u8, u8)>) -> DisassembleInstr {
    DisassembleInstr {
        confirmed: false,
        op_code: t[INVALID_OP_CODE as int].0,
        len: t[INVALID_OP_CODE as int].1,
    }
}

/// The cache after an instruction decoded at `pc` ran into the confirmed
/// instruction at `target`, after `k` rounds of the marking loop: the first
/// round marks `pc` with the invalid instruction `inv` and moves on to
/// `target`; round `i` then marks `target + i`. Confirmed instructions at
/// those addresses are overwritten too.
pub open spec fn invalidated(c: Map<u16, DisassembleInstr>, pc: int, target: int, k: int, inv: DisassembleInstr) -> Map<u16, DisassembleInstr> {
    c.insert(pc as u16, inv).union_prefer_right(
        Map::new(|a: u16| target < a < target + k, |a: u16| inv),
    )
}

/// Predicting the disassembly from `pc` on until `pc_max`: the cache that
/// results, or `None` when the prediction cannot go on (an address
/// overflow or an unreadable byte).
pub open spec fn spec_predict(
    c: Map<u16, DisassembleInstr>,
    pc: int,
    pc_max: int,
    m: MemView,
    t: Seq<(u8, u8)>,
) -> Option<Map<u16, DisassembleInstr>>
    decreases 0x10000 - pc,
{
    if pc > pc_max || pc < 0 || pc > 0xFFFF {
        Some(c)
    } else if c.contains_key(pc as u16) {
        let n = pc + c[pc as u16].len;
        if n <= pc || n > 0xFFFF {
            None
        } else {
            spec_predict(c, n, pc_max, m, t)
        }
    } else if !(m.read_defined(pc as u16) && m.read(pc as u16) is Ok) {
        None
    } else {
        let e = t[m.read(pc as u16)->Ok_0 as int];
        let len = e.1 as int;
        if len < 1 || len > 3 || pc + len - 1 > 0xFFFF {
            None
        } else {
            match last_confirmed(c, pc, len) {
                Some(target) => if 2 * target - 1 > 0xFFFF {
                    None
                } else {
                    spec_predict(
                        invalidated(c, pc, target, target, invalid_entry(t)),
                        target,
                        pc_max,
                        m,
                        t,
                    )
                },
                None => if pc + len > 0xFFFF {
                    None
                } else {
                    spec_predict(
                        c.insert(pc as u16, DisassembleInstr { confirmed: false, op_code: e.0, len: e.1 }),
                        pc + len,
                        pc_max,
                        m,
                        t,
                    )
                },
            }
        }
    }
}

/// Every entry that predicting adds to the cache or changes in it is
/// unconfirmed.
pub proof fn law_predict_adds_unconfirmed(
    c: Map<u16, DisassembleInstr>,
    pc: int,
    pc_max: int,
    m: MemView,
    t: Seq<(u8, u8)>,
    k: u16,
)
    requires
        spec_predict(c, pc, pc_max, m, t) is Some,
    ensures
        ({
            let r = spec_predict(c, pc, pc_max, m, t)->0;
            r.contains_key(k) && !(c.contains_key(k) && r[k] == c[k]) ==> !r[k].confirmed
        }),
    decreases 0x10000 - pc,
{
    if pc > pc_max || pc < 0 || pc > 0xFFFF {
    } else if c.contains_key(pc as u16) {
        let n = pc + c[pc as u16].len;
        law_predict_adds_unconfirmed(c, n, pc_max, m, t, k);
    } else {
        let e = t[m.read(pc as u16)->Ok_0 as int];
        let len = e.1 as int;
        match last_confirmed(c, pc, len) {
            Some(target) => {
                let c1 = invalidated(c, pc, target, target, invalid_entry(t));
                law_predict_adds_unconfirmed(c1, target, pc_max, m, t, k);
            },
            None => {
                let c1 = c.insert(
                    pc as u16,
                    DisassembleInstr { confirmed: false, op_code: e.0, len: e.1 },
                );
                law_predict_adds_unconfirmed(c1, pc + len, pc_max, m, t, k);
            },
        }
    }
}

/// Predicting from `pc` on leaves the entries for the addresses below
/// `pc` as they were.
pub proof fn lemma_predict_keeps_below(
    c: Map<u16, DisassembleInstr>,
    pc: int,
    pc_max: int,
    m: MemView,
    t: Seq<(u8, u8)>,
    a: u16,
)
    requires
        spec_predict(c, pc, pc_max, m, t) is Some,
        a < pc,
    ensures
        spec_predict(c, pc, pc_max, m, t)->0.contains_key(a) == c.contains_key(a),
        c.contains_key(a) ==> spec_predict(c, pc, pc_max, m, t)->0[a] == c[a],
    decreases 0x10000 - pc,
{
    if pc > pc_max || pc < 0 || pc > 0xFFFF {
    } else if c.contains_key(pc as u16) {
        lemma_predict_keeps_below(c, pc + c[pc as u16].len, pc_max, m, t, a);
    } else {
        let e = t[m.read(pc as u16)->Ok_0 as int];
        let len = e.1 as int;
        match last_confirmed(c, pc, len) {
            Some(target) => {
                let c1 = invalidated(c, pc, target, target, invalid_entry(t));
                lemma_predict_keeps_below(c1, target, pc_max, m, t, a);
            },
            None => {
                let c1 = c.insert(
                    pc as u16,
                    DisassembleInstr { confirmed: false, op_code: e.0, len: e.1 },
                );
                lemma_predict_keeps_below(c1, pc + len, pc_max, m, t, a);
            },
        }
    }
}

/// An instruction that prediction decodes never covers a confirmed one:
/// when the instruction decoded at an uncached `pc` would span an address
/// `pc + 1 .. pc + len - 1` that holds a confirmed instruction, `pc` is
/// marked as the invalid instruction; otherwise the decoded instruction,
/// unconfirmed, is cached at `pc`.
pub proof fn law_decoded_never_covers_confirmed(
    c: Map<u16, DisassembleInstr>,
    pc: int,
    pc_max: int,
    m: MemView,
    t: Seq<(u8, u8)>,
)
    requires
        0 <= pc <= pc_max,
        pc <= 0xFFFF,
        !c.contains_key(pc as u16),
        spec_predict(c, pc, pc_max, m, t) is Some,
    ensures
        ({
            let r = spec_predict(c, pc, pc_max, m, t)->0;
            let e = t[m.read(pc as u16)->Ok_0 as int];
            let len = e.1 as int;
            &&& r.contains_key(pc as u16)
            &&& (exists|a: int| pc < a < pc + len && #[trigger] confirmed_at(c, a)) ==> r[pc as u16]
                == invalid_entry(t)
            &&& (forall|a: int| pc < a < pc + len ==> !#[trigger] confirmed_at(c, a)) ==> r[pc as u16]
                == (DisassembleInstr { confirmed: false, op_code: e.0, len: e.1 })
        }),
{
    let e = t[m.read(pc as u16)->Ok_0 as int];
    let len = e.1 as int;
    match last_confirmed(c, pc, len) {
        Some(target) => {
            let c1 = invalidated(c, pc, target, target, invalid_entry(t));
            lemma_predict_keeps_below(c1, target, pc_max, m, t, pc as u16);
            assert(confirmed_at(c, target));
        },
        None => {
            let c1 = c.insert(pc as u16, DisassembleInstr { confirmed: false, op_code: e.0, len: e.1 });
            lemma_predict_keeps_below(c1, pc + len, pc_max, m, t, pc as u16);
            assert forall|a: int| pc < a < pc + len implies !#[trigger] confirmed_at(c, a) by {
                assert(a == pc + 1 || a == pc + 2);
            }
        },
    }
}

// pc must be in the pc_min, pc_max range
pub fn predict_disassemble_around_pc(
    pc_min: u16,
    pc_max: u16,
    dmg: &DMG,
    cache: &mut HashMap<u16, DisassembleInstr>,
    decode: &Vec<(u8, u8)>,
)
    requires
        table_wf(decode@),
        cache_wf(old(cache)@),
        spec_predict(old(cache)@, pc_min as int, pc_max as int, dmg.mc@, decode@) is Some,
    ensures
        final(cache)@ == spec_predict(old(cache)@, pc_min as int, pc_max as int, dmg.mc@, decode@)->0,
        forall|k: u16|
            #[trigger] final(cache)@.contains_key(k) && !(old(cache)@.contains_key(k) && final(cache)@[k]
                == old(cache)@[k]) ==> !final(cache)@[k].confirmed,
{
    try_predict_disassemble_around_pc(pc_min, pc_max, dmg, cache, decode);
    assert forall|k: u16|
        #[trigger] cache@.contains_key(k) && !(old(cache)@.contains_key(k) && cache@[k] == old(
            cache,
        )@[k]) implies !cache@[k].confirmed by {
        law_predict_adds_unconfirmed(old(cache)@, pc_min as int, pc_max as int, dmg.mc@, decode@, k);
    }
}

/// Predicts the disassembly from `pc_min` to `pc_max` as
/// `predict_disassemble_around_pc` does, and tells whether it got through:
/// `false` where the prediction runs past the address space or meets a
/// byte that cannot be read, the cache then holding what was predicted up
/// to there.
pub fn try_predict_disassemble_around_pc(
    pc_min: u16,
    pc_max: u16,
    dmg: &DMG,
    cache: &mut HashMap<u16, DisassembleInstr>,
    decode: &Vec<(u8, u8)>,
) -> (ok: bool)
    requires
        table_wf(decode@),
        cache_wf(old(cache)@),
    ensures
        ok == (spec_predict(old(cache)@, pc_min as int, pc_max as int, dmg.mc@, decode@) is Some),
        ok ==> final(cache)@ == spec_predict(old(cache)@, pc_min as int, pc_max as int, dmg.mc@, decode@)->0,
        cache_wf(final(cache)@),
{
    broadcast use vstd::std_specs::hash::group_hash_axioms;

    let ghost goal = spec_predict(old(cache)@, pc_min as int, pc_max as int, dmg.mc@, decode@);
    let mut pc = pc_min;
    while pc <= pc_max
        invariant
            table_wf(decode@),
            cache_wf(cache@),
            spec_predict(cache@, pc as int, pc_max as int, dmg.mc@, decode@) == goal,
            goal == spec_predict(old(cache)@, pc_min as int, pc_max as int, dmg.mc@, decode@),
        decreases 0x10000 - pc,
    {
        let may_instr = cache.get(&pc);
        if let Some(instr) = may_instr {
            if pc as u32 + instr.len as u32 > 0xFFFF {
                return false;
            }
            pc += instr.len as u16;
        } else {
            if !dmg.mc.readable(pc) {
                return false;
            }
            let op = match dmg.mc.read(pc) {
                Ok(v) => v,
                Err(_) => {
                    return false;
                },
            };
            let (op_code, len) = decode[op as usize];
            if pc as u32 + len as u32 - 1 > 0xFFFF {
                return false;
            }
            // check that we do not "override" a confirmed instruction as this decoded
            // instruction might be a false positive one
            let mut overrides_confirmed: (bool, u16) = (false, 0);
            let mut i: u16 = 1;
            while i < len as u16
                invariant
                    1 <= i <= len,
                    1 <= len <= 3,
                    pc + len - 1 <= 0xFFFF,
                    overrides_confirmed.0 ==> (last_confirmed(cache@, pc as int, i as int) == Some(
                        overrides_confirmed.1 as int,
                    )),
                    !overrides_confirmed.0 ==> last_confirmed(cache@, pc as int, i as int) is None,
                decreases len - i,
            {
                let may_instr = cache.get(&(pc + i));
                if let Some(instr) = may_instr {
                    if instr.confirmed {
                        overrides_confirmed = (true, pc + i);
                    }
                }
                i += 1;
            }

            if overrides_confirmed.0 {
                let target = overrides_confirmed.1;
                if 2 * (target as u32) - 1 > 0xFFFF {
                    return false;
                }
                let inv = DisassembleInstr {
                    confirmed: false,
                    op_code: decode[INVALID_OP_CODE as usize].0,
                    len: decode[INVALID_OP_CODE as usize].1,
                };
                let ghost pc0 = pc;
                let ghost c0 = cache@;
                let mut i: u16 = 0;
                while i < target
                    invariant
                        pc0 < target,
                        2 * target - 1 <= 0xFFFF,
                        i <= target,
                        inv == invalid_entry(decode@),
                        i == 0 ==> pc == pc0 && cache@ == c0,
                        i >= 1 ==> pc == target && cache@ == invalidated(c0, pc0 as int, target as int, i as int, inv),
                    decreases target - i,
                {
                    // add invalid instructions, as something is wrong with the decode state
                    cache.insert(pc + i, inv);
                    proof {
                        if i >= 1 {
                            assert(cache@ =~= invalidated(c0, pc0 as int, target as int, i + 1, inv));
                        } else {
                            assert(cache@ =~= invalidated(c0, pc0 as int, target as int, 1, inv));
                        }
                    }
                    // resync pc with the confirmed instrution and continue from there
                    pc = target;
                    i += 1;
                }
            } else {
                if pc as u32 + len as u32 > 0xFFFF {
                    return false;
                }
                cache.insert(pc, DisassembleInstr { confirmed: false, op_code, len });
                pc += len as u16;
            }
        }
    }
    true
}

/// The address range the assembly view disassembles around `viewport_pos`:
/// `rows` instructions of the longest length on either side, not below 0
/// and not past the ROM.
pub fn viewport_range(viewport_pos: usize, rows: usize, rom_size: usize) -> (r: (usize, usize))
    requires
        viewport_pos + rows * MAX_INSTRUCTION_BYTE_LENGTH <= usize::MAX,
    ensures
        r.0 == (if viewport_pos >= rows * 3 { viewport_pos - rows * 3 } else { 0int }),
        r.1 == (if viewport_pos + rows * 3 <= rom_size { viewport_pos + rows * 3 } else { rom_size as int }),
{
    let span = rows * MAX_INSTRUCTION_BYTE_LENGTH;
    let viewport_min = viewport_pos.saturating_sub(span);
    let viewport_max = if viewport_pos + span <= rom_size {
        viewport_pos + span
    } else {
        rom_size
    };
    (viewport_min, viewport_max)
}

/// The index of the entry for `pos` in the listed entries, or 0 when it is
/// not listed.
pub fn centre_index(instrs: &Vec<(u16, Option<DisassembleInstr>)>, pos: u16) -> (ix: usize)
    ensures
        (exists|j: int| 0 <= j < instrs@.len() && instrs@[j].0 == pos) ==> ix < instrs@.len()
            && instrs@[ix as int].0 == pos && forall|j: int| 0 <= j < ix ==> instrs@[j].0 != pos,
        (forall|j: int| 0 <= j < instrs@.len() ==> instrs@[j].0 != pos) ==> ix == 0,
{
    let mut viewport_pos_ix: usize = 0;
    // find the ix of the centred pos
    let mut i: usize = 0;
    while i < instrs.len()
        invariant
            i <= instrs@.len(),
            viewport_pos_ix == 0,
            forall|j: int| 0 <= j < i ==> instrs@[j].0 != pos,
        decreases instrs@.len() - i,
    {
        if instrs[i].0 == pos {
            viewport_pos_ix = i;
            return viewport_pos_ix;
        }
        i += 1;
    }
    viewport_pos_ix
}

/// The rows of the listing the view shows: half the rows on either side of
/// the centre entry, moved on when one side is short. The end may pass
/// the listing only up to the ROM size.
pub open spec fn spec_visible_rows(centre: int, rows: int, listed: int, rom_size: int) -> (int, int) {
    let half = rows / 2;
    let start0 = if centre >= half { centre - half } else { 0 };
    let end0 = if centre + half <= listed { centre + half } else { listed };
    let dist_start = centre - start0;
    let dist_end = end0 - centre;
    let end = if dist_start < half {
        if end0 + (half - dist_start) <= rom_size { end0 + (half - dist_start) } else { rom_size }
    } else {
        end0
    };
    let start = if dist_end < half {
        if start0 >= half - dist_end { start0 - (half - dist_end) } else { 0 }
    } else {
        start0
    };
    (start, end)
}

/// Which rows of the listing the view shows; the centre must lie inside
/// the listing.
pub fn visible_rows(viewport_pos_ix: usize, num_asm_rows: usize, listed: usize, rom_size: usize) -> (r: (usize, usize))
    requires
        viewport_pos_ix <= listed,
        viewport_pos_ix + num_asm_rows <= usize::MAX,
    ensures
        (r.0 as int, r.1 as int) == spec_visible_rows(
            viewport_pos_ix as int,
            num_asm_rows as int,
            listed as int,
            rom_size as int,
        ),
{
    let max_rows_half = num_asm_rows / 2;

    let mut start = viewport_pos_ix.saturating_sub(max_rows_half);
    let mut end = if viewport_pos_ix + max_rows_half <= listed {
        viewport_pos_ix + max_rows_half
    } else {
        listed
    };

    let dist_start = viewport_pos_ix - start;
    let dist_end = end - viewport_pos_ix;

    if dist_start < max_rows_half {
        let grown = end + (max_rows_half - dist_start);
        end = if grown <= rom_size { grown } else { rom_size };
    }
    if dist_end < max_rows_half {
        start = start.saturating_sub(max_rows_half - dist_end)
    }
    (start, end)
}

/// Walking a well-formed cache up to an end well below the top of the
/// address space never moves past it.
pub proof fn lemma_range_walk_fits(c: Map<u16, DisassembleInstr>, i: int, end: int)
    requires
        cache_wf(c),
        end <= 0xFFFD,
    ensures
        range_walk_fits(c, i, end),
    decreases 0x10003 - i,
{
    if i >= end || i < 0 || i > 0xFFFF {
    } else if cached_at(c, i) {
        lemma_range_walk_fits(c, i + c[i as u16].len, end);
    } else {
        lemma_range_walk_fits(c, i + 1, end);
    }
}

/// Each entry of a walk covers at least one address.
pub proof fn lemma_range_walk_len(c: Map<u16, DisassembleInstr>, i: int, end: int)
    requires
        cache_wf(c),
    ensures
        range_walk(c, i, end).len() <= if end > i { end - i } else { 0 },
    decreases 0x10003 - i,
{
    if i >= end || i < 0 || i > 0xFFFF {
    } else if cached_at(c, i) {
        lemma_range_walk_len(c, i + c[i as u16].len, end);
    } else {
        lemma_range_walk_len(c, i + 1, end);
    }
}

/// `ix` is the index of the first listed entry for `pos`, or 0 when `pos`
/// is not listed.
pub open spec fn is_centre(listing: Seq<(u16, Option<DisassembleInstr>)>, pos: u16, ix: int) -> bool {
    &&& (exists|j: int| 0 <= j < listing.len() && listing[j].0 == pos) ==> 0 <= ix < listing.len()
        && listing[ix].0 == pos && forall|j: int| 0 <= j < ix ==> listing[j].0 != pos
    &&& (forall|j: int| 0 <= j < listing.len() ==> listing[j].0 != pos) ==> ix == 0
}

/// What the assembly view lists around `pos` (in the ROM of size
/// `rom_size`, `rows` rows high): the instruction at `pos` is decoded into
/// the cache (as confirmed when the view follows the program counter), the
/// instructions around it are predicted, and the cache is walked from the
/// start to the end of the viewport (addresses taken modulo 2^16). The
/// cache and the listing that result, or `None` when the byte at `pos` or
/// the prediction cannot be read, or the viewport starts after its end.
pub open spec fn spec_asm_view(
    c: Map<u16, DisassembleInstr>,
    m: MemView,
    t: Seq<(u8, u8)>,
    pos: int,
    confirmed: bool,
    rows: int,
    rom_size: int,
) -> Option<(Map<u16, DisassembleInstr>, Seq<(u16, Option<DisassembleInstr>)>)> {
    let vmin = if pos >= rows * 3 { pos - rows * 3 } else { 0 };
    let vmax = if pos + rows * 3 <= rom_size { pos + rows * 3 } else { rom_size };
    let lo = (vmin as u16) as int;
    let hi = (vmax as u16) as int;
    let pc = pos as u16;
    if !(c.contains_key(pc) && c[pc].confirmed) && !(m.read_defined(pc) && m.read(pc) is Ok) {
        None
    } else {
        match spec_predict(spec_disassemble_pc(c, m, t, pc, confirmed), lo, hi, m, t) {
            None => None,
            Some(c2) => if lo > hi {
                None
            } else {
                Some((c2, range_walk(c2, lo, hi)))
            },
        }
    }
}

/// The rows the assembly view shows around `viewport_pos`: the listing of
/// the viewport and the range of it that is visible, with the cache
/// updated on the way; `None` (the cache then partly updated) when the
/// instructions cannot be read.
pub fn asm_view_listing(
    viewport_pos: usize,
    confirmed: bool,
    num_asm_rows: usize,
    dmg: &DMG,
    cache: &mut HashMap<u16, DisassembleInstr>,
    decode: &Vec<(u8, u8)>,
) -> (r: Option<(Vec<(u16, Option<DisassembleInstr>)>, usize, usize)>)
    requires
        table_wf(decode@),
        cache_wf(old(cache)@),
        dmg.mc.rom_image_size() is Some,
        viewport_pos + num_asm_rows * MAX_INSTRUCTION_BYTE_LENGTH <= usize::MAX,
    ensures
        cache_wf(final(cache)@),
        match spec_asm_view(
            old(cache)@,
            dmg.mc@,
            decode@,
            viewport_pos as int,
            confirmed,
            num_asm_rows as int,
            dmg.mc.rom_image_size()->0 as int,
        ) {
            None => r is None,
            Some((c2, listing)) => r matches Some((v, start, end)) && final(cache)@ == c2 && v@
                == listing && exists|ix: int|
                is_centre(listing, viewport_pos as u16, ix) && (start as int, end as int)
                    == spec_visible_rows(
                    ix,
                    num_asm_rows as int,
                    listing.len() as int,
                    dmg.mc.rom_image_size()->0 as int,
                ),
        },
{
    let rom_size = match dmg.mc.rom_size() {
        Some(n) => n,
        None => 0,
    };
    let (viewport_min, viewport_max) = viewport_range(viewport_pos, num_asm_rows, rom_size);
    let pc = viewport_pos as u16;

    // disassemble the instruction the view revolves around into the cache
    let keeps = match cache.get(&pc) {
        Some(instr) => instr.confirmed,
        None => false,
    };
    if !keeps {
        if !dmg.mc.readable(pc) {
            return None;
        }
        if dmg.mc.read(pc).is_err() {
            return None;
        }
    }
    disassemble_pc(pc, dmg, cache, confirmed, decode);
    if !try_predict_disassemble_around_pc(
        viewport_min as u16,
        viewport_max as u16,
        dmg,
        cache,
        decode,
    ) {
        return None;
    }
    let start_addr = viewport_min as u16;
    let end_addr = viewport_max as u16;
    if start_addr > end_addr {
        return None;
    }
    // extract enough instructions from the cache
    proof {
        lemma_range_walk_fits(cache@, start_addr as int, end_addr as int);
        lemma_range_walk_len(cache@, start_addr as int, end_addr as int);
    }
    let instrs = instr_in_range(cache, start_addr, end_addr);

    let viewport_pos_ix = centre_index(&instrs, pc);
    let (start, end) = visible_rows(viewport_pos_ix, num_asm_rows, instrs.len(), rom_size);
    proof {
        let ix = viewport_pos_ix as int;
        assert(spec_asm_view(
            old(cache)@,
            dmg.mc@,
            decode@,
            viewport_pos as int,
            confirmed,
            num_asm_rows as int,
            rom_size as int,
        ) == Some((cache@, instrs@)));
        assert(is_centre(instrs@, pc, ix) && (start as int, end as int) == spec_visible_rows(
            ix,
            num_asm_rows as int,
            instrs@.len() as int,
            rom_size as int,
        ));
        let rr: Option<(Vec<(u16, Option<DisassembleInstr>)>, usize, usize)> = Some((instrs, start, end));
        assert(match spec_asm_view(
            old(cache)@,
            dmg.mc@,
            decode@,
            viewport_pos as int,
            confirmed,
            num_asm_rows as int,
            dmg.mc.rom_image_size()->0 as int,
        ) {
            None => rr is None,
            Some((c2, listing)) => rr matches Some((v, st, en)) && cache@ == c2 && v@
                == listing && exists|ix: int|
                is_centre(listing, viewport_pos as u16, ix) && (st as int, en as int)
                    == spec_visible_rows(
                    ix,
                    num_asm_rows as int,
                    listing.len() as int,
                    dmg.mc.rom_image_size()->0 as int,
                ),
        });
    }
    Some((instrs, start, end))
}

/// `v` in lower case hexadecimal without leading zeros (as `{:x}`).
pub open spec fn hex_short(v: u8) -> Seq<char> {
    if v < 16 {
        seq![hex_digit(v as int, false)]
    } else {
        hex2(v, false)
    }
}

/// The text of an entry of the assembly view and whether it is shown as
/// confirmed: the decoded instruction's text (`text`, as the assembler
/// writes it), followed by the op code byte `first_byte` found there when
/// the instruction is the invalid one; `???` where nothing is decoded.
/// Only confirmed, valid instructions are shown as confirmed.
pub fn instr_label(instr: Option<DisassembleInstr>, text: &str, first_byte: u8) -> (r: (String, bool))
    ensures
        match instr {
            None => r.0@ == "???"@ && !r.1,
            Some(i) => if i.op_code == INVALID_OP_CODE {
                r.0@ == text@ + " op_code=0x"@ + hex_short(first_byte) && !r.1
            } else {
                r.0@ == text@ && r.1 == i.confirmed
            },
        },
{
    match instr {
        None => (String::from_str("???"), false),
        Some(i) => {
            let mut s = String::from_str(text);
            if i.op_code == INVALID_OP_CODE {
                s.append(" op_code=0x");
                if first_byte < 16 {
                    string_push(&mut s, hex_digit_char(first_byte, false));
                } else {
                    push_hex2(&mut s, first_byte, false);
                }
                proof {
                    assert(s@ =~= text@ + " op_code=0x"@ + hex_short(first_byte));
                }
                (s, false)
            } else {
                (s, i.confirmed)
            }
        },
    }
}

} // verus!
