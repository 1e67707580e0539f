//! Sequence-number arithmetic and the shape of an incoming segment.

use vstd::prelude::*;

verus! {

/// Sequence-space comparison: `a` is strictly before `b` when their
/// difference modulo two to the thirty-second lies in the upper half.
pub open spec fn seq_lt(a: u32, b: u32) -> bool {
    vstd::wrapping::u32_specs::wrapping_sub(a, b) >= 0x8000_0000
}

/// Sequence-space comparison: `a` is at or before `b`.
pub open spec fn seq_le(a: u32, b: u32) -> bool {
    a == b || seq_lt(a, b)
}

/// `start <= seq < end` in sequence space.
pub open spec fn seq_between(start: u32, seq: u32, end: u32) -> bool {
    !seq_lt(seq, start) && seq_lt(seq, end)
}

/// Sequence-space comparison, executable form.
pub fn seq_lt_exec(a: u32, b: u32) -> (r: bool)
    ensures
        r == seq_lt(a, b),
{
    a.wrapping_sub(b) >= 0x8000_0000
}

/// Sequence-space at-or-before, executable form.
pub fn seq_le_exec(a: u32, b: u32) -> (r: bool)
    ensures
        r == seq_le(a, b),
{
    a == b || seq_lt_exec(a, b)
}

/// `start <= seq < end` in sequence space, executable form.
pub fn seq_between_exec(start: u32, seq: u32, end: u32) -> (r: bool)
    ensures
        r == seq_between(start, seq, end),
{
    !seq_lt_exec(seq, start) && seq_lt_exec(seq, end)
}

/// The fields of an incoming segment, apart from its payload:
/// `len` counts the payload plus one for SYN and one for FIN.
#[derive(Debug, Clone, Copy, PartialEq, Eq, Structural)]
pub struct SegMeta {
    pub seq: u32,
    pub ack: u32,
    pub len: u32,
    pub wnd: u16,
    pub flags: u8,
}

impl SegMeta {
    pub fn new(seq: u32, ack: u32, len: u32, wnd: u16, flags: u8) -> (r: Self)
        ensures
            r == (SegMeta { seq, ack, len, wnd, flags }),
    {
        SegMeta { seq, ack, len, wnd, flags }
    }
}

} // verus!
