//! The cube written out as a ksolve state: the permutations counted from
//! 1, the orientations from 0, one line each.

use vstd::prelude::*;
use vstd::string::StringExecFns;
use crate::cube_3x3_u_r::cube::{Cube, CubeState};

verus! {

/// The character for a digit.
pub open spec fn digit_char(d: int) -> char {
    if d == 0 {
        '0'
    } else if d == 1 {
        '1'
    } else if d == 2 {
        '2'
    } else if d == 3 {
        '3'
    } else if d == 4 {
        '4'
    } else if d == 5 {
        '5'
    } else if d == 6 {
        '6'
    } else if d == 7 {
        '7'
    } else if d == 8 {
        '8'
    } else {
        '9'
    }
}

/// The entries of `v`, each raised by `plus`, as digits with a space
/// between one and the next.
pub open spec fn spaced(v: Seq<u8>, plus: int) -> Seq<char>
    decreases v.len(),
{
    if v.len() == 0 {
        Seq::empty()
    } else if v.len() == 1 {
        seq![digit_char(v[0] + plus)]
    } else {
        spaced(v.drop_last(), plus) + seq![' ', digit_char(v.last() + plus)]
    }
}

/// The text of a cube.
pub open spec fn ksolve_text(s: CubeState) -> Seq<char> {
    "corners\n"@ + spaced(s.cp, 1) + "\n"@ + spaced(s.co, 0) + "\nedges\n"@ + spaced(s.ep, 1)
        + "\n"@ + spaced(s.eo, 0) + "\ncenters\n1\n"@ + seq![digit_char(s.centers as int)]
}

/// The text of a digit.
pub fn digit_text(d: u8) -> (text: &'static str)
    requires
        d <= 9,
    ensures
        text@ == seq![digit_char(d as int)],
{
    proof {
        reveal_strlit("0");
        reveal_strlit("1");
        reveal_strlit("2");
        reveal_strlit("3");
        reveal_strlit("4");
        reveal_strlit("5");
        reveal_strlit("6");
        reveal_strlit("7");
        reveal_strlit("8");
        reveal_strlit("9");
    }
    let text = if d == 0 {
        "0"
    } else if d == 1 {
        "1"
    } else if d == 2 {
        "2"
    } else if d == 3 {
        "3"
    } else if d == 4 {
        "4"
    } else if d == 5 {
        "5"
    } else if d == 6 {
        "6"
    } else if d == 7 {
        "7"
    } else if d == 8 {
        "8"
    } else {
        "9"
    };
    assert(text@ =~= seq![digit_char(d as int)]);
    text
}

/// Appends the entries of `v`, each raised by `plus`, as digits with a
/// space between one and the next.
pub fn append_spaced<const N: usize>(text: &mut String, v: &[u8; N], plus: u8)
    requires
        N >= 1,
        forall|i: int| 0 <= i < N ==> #[trigger] v@[i] + plus <= 9,
    ensures
        final(text)@ == old(text)@ + spaced(v@, plus as int),
{
    assert(v@[0] + plus <= 9);
    text.append(digit_text(v[0] + plus));
    let mut i: usize = 1;
    proof {
        assert(v@.take(1).len() == 1);
        assert(v@.take(1)[0] == v@[0]);
    }
    while i < N
        invariant
            1 <= i <= N,
            forall|i: int| 0 <= i < N ==> #[trigger] v@[i] + plus <= 9,
            text@ == old(text)@ + spaced(v@.take(i as int), plus as int),
        decreases N - i,
    {
        proof {
            reveal_strlit(" ");
            assert(v@[i as int] + plus <= 9);
            let next = v@.take(i as int + 1);
            assert(next.drop_last() =~= v@.take(i as int));
            assert(next.last() == v@[i as int]);
        }
        let ghost before = text@;
        text.append(" ");
        text.append(digit_text(v[i] + plus));
        i = i + 1;
        proof {
            assert(text@ =~= before + seq![' ', digit_char(v@[i - 1] + plus)]);
            assert(text@ =~= old(text)@ + spaced(v@.take(i as int), plus as int));
        }
    }
    assert(v@.take(N as int) =~= v@);
}

impl Cube {
    /// Writes the cube out as a ksolve state.
    pub fn to_ksolve_string(&self) -> (text: String)
        requires
            self@.wf(),
        ensures
            text@ == ksolve_text(self@),
    {
        proof {
            assert forall|i: int| 0 <= i < 6 implies #[trigger] self.cp@[i] + 1 <= 9 by {
                assert((self.cp@[i] as int) < 6);
            }
            assert forall|i: int| 0 <= i < 6 implies #[trigger] self.co@[i] + 0 <= 9 by {
                assert((self.co@[i] as nat) < 3);
            }
            assert forall|i: int| 0 <= i < 9 implies #[trigger] self.ep@[i] + 1 <= 9 by {
                assert((self.ep@[i] as int) < 9);
            }
            assert forall|i: int| 0 <= i < 9 implies #[trigger] self.eo@[i] + 0 <= 9 by {
                assert((self.eo@[i] as nat) < 2);
            }
        }
        let mut text = String::from_str("corners\n");
        append_spaced(&mut text, &self.cp, 1);
        text.append("\n");
        append_spaced(&mut text, &self.co, 0);
        text.append("\nedges\n");
        append_spaced(&mut text, &self.ep, 1);
        text.append("\n");
        append_spaced(&mut text, &self.eo, 0);
        text.append("\ncenters\n1\n");
        text.append(digit_text(self.centers));
        text
    }
}

} // verus!
