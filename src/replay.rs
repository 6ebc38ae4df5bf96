use vstd::prelude::*;

verus! {

/// Whether `c` is an instruction of a compiled proof.
pub open spec fn is_instruction(c: u8) -> bool {
    c == 0x4cu8 || c == 0x48u8 || c == 0x50u8 || c == 0x51u8 || c == 0x4fu8
}

/// The bytes that instruction `c` takes, its data included: `P`, `Q` and `O`
/// carry 32, 65 and 1 bytes of data.
pub open spec fn instruction_len(c: u8) -> int {
    if c == 0x50u8 {
        33
    } else if c == 0x51u8 {
        66
    } else if c == 0x4fu8 {
        2
    } else {
        1
    }
}

/// The stack depth after instruction `c`: `L` pushes a leaf, `H` merges two
/// entries into one, the others replace the top entry.
pub open spec fn depth_after(c: u8, depth: int) -> int {
    if c == 0x4cu8 {
        depth + 1
    } else if c == 0x48u8 {
        if depth > 0 { depth - 1 } else { 0 }
    } else {
        depth
    }
}

/// The most entries that the replay stack of a compiled proof holds, reading
/// the instructions from `pos` with `depth` entries already on the stack. The
/// replay stops at an unknown instruction.
pub open spec fn stack_peak(p: Seq<u8>, pos: int, depth: int) -> int
    decreases p.len() - pos,
{
    if pos < 0 || pos >= p.len() || !is_instruction(p[pos]) {
        depth
    } else {
        let d = depth_after(p[pos], depth);
        let next = if pos + instruction_len(p[pos]) <= p.len() {
            stack_peak(p, pos + instruction_len(p[pos]), d)
        } else {
            d
        };
        if next > depth { next } else { depth }
    }
}

/// Each step of the replay keeps at least the depth it reached.
pub proof fn lemma_stack_peak_at_least(p: Seq<u8>, pos: int, depth: int)
    ensures
        stack_peak(p, pos, depth) >= depth,
    decreases p.len() - pos,
{
}

/// The largest replay stack that a compiled proof may need.
pub const MAX_STACK: usize = 257;

/// Tells whether replaying the proof keeps its stack within `MAX_STACK` entries.
pub fn stack_fits(p: &Vec<u8>) -> (r: bool)
    ensures
        r == (stack_peak(p@, 0, 0) <= MAX_STACK),
{
    let mut pos: usize = 0;
    let mut depth: usize = 0;
    while pos < p.len()
        invariant
            depth <= MAX_STACK,
            stack_peak(p@, 0, 0) <= MAX_STACK <==> stack_peak(p@, pos as int, depth as int) <= MAX_STACK,
        decreases p@.len() - pos,
    {
        let c = p[pos];
        let step: usize = if c == 0x50 {
            33
        } else if c == 0x51 {
            66
        } else if c == 0x4f {
            2
        } else {
            1
        };
        if !(c == 0x4c || c == 0x48 || c == 0x50 || c == 0x51 || c == 0x4f) {
            return true;
        }
        if c == 0x4c && depth == MAX_STACK {
            proof {
                if pos + 1 <= p@.len() {
                    lemma_stack_peak_at_least(p@, pos + 1, depth + 1);
                }
            }
            return false;
        }
        if c == 0x4c {
            depth = depth + 1;
        } else if c == 0x48 && depth > 0 {
            depth = depth - 1;
        }
        if p.len() - pos < step {
            pos = p.len();
        } else {
            pos = pos + step;
        }
    }
    true
}

} // verus!
