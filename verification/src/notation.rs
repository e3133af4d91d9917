//! Move sequences written as text: move names separated by white space.

use vstd::prelude::*;

verus! {

/// Whether a byte is ASCII white space.
pub open spec fn is_space(b: u8) -> bool {
    b == 32 || (9 <= b && b <= 13)
}

/// The end of the run of bytes from `pos` on that are not white space.
pub open spec fn token_end(bytes: Seq<u8>, pos: int) -> int
    decreases bytes.len() - pos,
{
    if pos < 0 || pos >= bytes.len() || is_space(bytes[pos]) {
        pos
    } else {
        token_end(bytes, pos + 1)
    }
}

/// A token ends within the text, and after its first byte if it has one.
pub proof fn lemma_token_end(bytes: Seq<u8>, pos: int)
    requires
        0 <= pos <= bytes.len(),
    ensures
        pos <= token_end(bytes, pos) <= bytes.len(),
        pos < bytes.len() && !is_space(bytes[pos]) ==> pos < token_end(bytes, pos),
    decreases bytes.len() - pos,
{
    if pos < bytes.len() && !is_space(bytes[pos]) {
        lemma_token_end(bytes, pos + 1);
    }
}

/// Whether a byte is ASCII white space.
pub fn space(b: u8) -> (r: bool)
    ensures
        r == is_space(b),
{
    b == 32 || (9 <= b && b <= 13)
}

/// Finds the end of the token that starts at `pos`.
pub fn find_token_end(bytes: &[u8], pos: usize) -> (end: usize)
    requires
        pos <= bytes@.len(),
    ensures
        end == token_end(bytes@, pos as int),
        pos <= end <= bytes@.len(),
{
    let mut end = pos;
    while end < bytes.len() && !space(bytes[end])
        invariant
            pos <= end <= bytes@.len(),
            token_end(bytes@, end as int) == token_end(bytes@, pos as int),
        decreases bytes@.len() - end,
    {
        end = end + 1;
    }
    end
}

/// Whether the bytes from `start` to `end` spell `name`.
pub fn token_is(bytes: &[u8], start: usize, end: usize, name: &[u8]) -> (r: bool)
    requires
        start <= end <= bytes@.len(),
    ensures
        r == (bytes@.subrange(start as int, end as int) == name@),
{
    if end - start != name.len() {
        return false;
    }
    let mut i: usize = 0;
    while i < name.len()
        invariant
            start <= end <= bytes@.len(),
            end - start == name@.len(),
            i <= name@.len(),
            forall|j: int| 0 <= j < i ==> bytes@[start + j] == name@[j],
        decreases name@.len() - i,
    {
        if bytes[start + i] != name[i] {
            assert(bytes@.subrange(start as int, end as int)[i as int] != name@[i as int]);
            return false;
        }
        i = i + 1;
    }
    assert(bytes@.subrange(start as int, end as int) =~= name@);
    true
}

/// The letter `B`.
pub const UPPER_B: u8 = 66;

/// The letter `F`.
pub const UPPER_F: u8 = 70;

/// The letter `L`.
pub const UPPER_L: u8 = 76;

/// The letter `M`.
pub const UPPER_M: u8 = 77;

/// The letter `R`.
pub const UPPER_R: u8 = 82;

/// The letter `U`.
pub const UPPER_U: u8 = 85;

/// The letter `r`.
pub const LOWER_R: u8 = 114;

/// The digit `2`.
pub const DIGIT_2: u8 = 50;

/// The apostrophe that marks a turn the other way.
pub const PRIME: u8 = 39;

/// A move name that names no move.
#[derive(Debug, Clone, Copy, PartialEq, Eq)]
pub struct InvalidMove;

} // verus!
