//! The puzzle as its two coordinates, moved by table lookups.

use vstd::prelude::*;
use vstd::string::StringSliceAdditionalSpecFns;
use crate::megaminx_u_r::minx::{
    lemma_sizes, parse_turn, turn_named, Face, Megaminx, MinxState, Turn, CORNERS_SIZE, EP_SIZE,
    STATE_SIZE,
};
use crate::megaminx_u_r::transposition_tables::{
    r2p_corners, r2p_edges, r_corners, r_edges, u2p_corners, u2p_edges, u_corners, u_edges,
    ur_corners, ur_edges, TranspositionTables,
};
use crate::notation::{find_token_end, is_space, lemma_token_end, space, token_end, InvalidMove};
use crate::table::lookup;

verus! {

#[derive(Clone)]
pub struct CoordMinx<'a> {
    pub corners: u32,
    pub edges: u32,
    pub transposition_tables: &'a TranspositionTables,
}

/// A corner and an edge coordinate.
pub struct Coords {
    pub corners: nat,
    pub edges: nat,
}

impl Coords {
    /// The coordinates that make up a state number.
    pub open spec fn of(state: nat) -> Coords {
        Coords { corners: state / EP_SIZE as nat, edges: state % EP_SIZE as nat }
    }

    /// The coordinates of a puzzle.
    pub open spec fn of_state(s: MinxState) -> Coords {
        Coords { corners: s.corners_coord(), edges: s.ep_coord() }
    }

    /// The state number: corners and edges, the corners in the higher
    /// place.
    pub open spec fn encode(self) -> nat {
        self.corners * EP_SIZE as nat + self.edges
    }

    /// Both coordinates are below their sizes.
    pub open spec fn in_range(self) -> bool {
        self.corners < CORNERS_SIZE && self.edges < EP_SIZE
    }

    /// The coordinates after a fifth of a turn of the upper face.
    pub open spec fn u(self) -> Coords {
        Coords { corners: u_corners(self.corners), edges: u_edges(self.edges) }
    }

    /// The coordinates after three fifths of a turn of the upper face.
    pub open spec fn u2p(self) -> Coords {
        Coords { corners: u2p_corners(self.corners), edges: u2p_edges(self.edges) }
    }

    /// The coordinates after a fifth of a turn of the right face.
    pub open spec fn r(self) -> Coords {
        Coords { corners: r_corners(self.corners), edges: r_edges(self.edges) }
    }

    /// The coordinates after three fifths of a turn of the right face.
    pub open spec fn r2p(self) -> Coords {
        Coords { corners: r2p_corners(self.corners), edges: r2p_edges(self.edges) }
    }

    /// The coordinates after a fifth of a turn of the upper face and then one of the right face.
    pub open spec fn ur(self) -> Coords {
        Coords { corners: ur_corners(self.corners), edges: ur_edges(self.edges) }
    }

    /// A face turned by a number of fifths, one table lookup for each.
    pub open spec fn turned(self, face: Face, fifths: nat) -> Coords
        decreases fifths,
    {
        if fifths == 0 {
            self
        } else {
            match face {
                Face::U => self.turned(face, (fifths - 1) as nat).u(),
                Face::R => self.turned(face, (fifths - 1) as nat).r(),
            }
        }
    }

    /// The coordinates after the turns that `bytes` names from `pos` on,
    /// and whether every name was that of a turn. The first name that is
    /// not stops everything.
    pub open spec fn after_alg(self, bytes: Seq<u8>, pos: int) -> (Coords, bool)
        decreases bytes.len() - pos,
    {
        if pos < 0 || pos >= bytes.len() {
            (self, true)
        } else if is_space(bytes[pos]) {
            self.after_alg(bytes, pos + 1)
        } else {
            let end = token_end(bytes, pos);
            proof {
                lemma_token_end(bytes, pos);
            }
            match turn_named(bytes.subrange(pos, end)) {
                Some(turn) => self.turned(turn.face, turn.fifths as nat).after_alg(bytes, end),
                None => (self, false),
            }
        }
    }
}

impl<'a> View for CoordMinx<'a> {
    type V = Coords;

    open spec fn view(&self) -> Coords {
        Coords { corners: self.corners as nat, edges: self.edges as nat }
    }
}

impl<'a> CoordMinx<'a> {
    /// The coordinates are in range and the tables are what they claim to
    /// be.
    pub open spec fn wf(&self) -> bool {
        &&& self@.in_range()
        &&& self.transposition_tables.wf()
    }

    /// The solved puzzle over the given tables.
    pub fn new(transposition_tables: &'a TranspositionTables) -> (minx: Self)
        requires
            transposition_tables.wf(),
        ensures
            minx.wf(),
            minx@ == Coords::of_state(MinxState::solved()),
            minx.transposition_tables == transposition_tables,
    {
        let minx = Megaminx::new();
        Self { corners: minx.corners_coord(), edges: minx.ep_coord(), transposition_tables }
    }

    /// Whether the coordinates are those of the solved puzzle.
    pub fn is_solved(&self) -> (solved: bool)
        requires
            self@.in_range(),
        ensures
            solved == (MinxState::solved().with_corners_coord(self.corners as nat).with_ep_coord(
                self.edges as nat,
            ) == MinxState::solved()),
    {
        Megaminx::from(self).is_solved()
    }

    /// A fifth of a turn of the upper face, looked up in the tables.
    pub fn u(&mut self)
        requires
            old(self).wf(),
        ensures
            final(self).wf(),
            final(self)@ == old(self)@.u(),
            final(self).transposition_tables == old(self).transposition_tables,
    {
        self.corners = lookup(&self.transposition_tables.u_corners, self.corners);
        self.edges = lookup(&self.transposition_tables.u_edges, self.edges);
    }

    /// U three times, in one lookup.
    pub fn u2p(&mut self)
        requires
            old(self).wf(),
        ensures
            final(self).wf(),
            final(self)@ == old(self)@.u2p(),
            final(self).transposition_tables == old(self).transposition_tables,
    {
        self.corners = lookup(&self.transposition_tables.u2p_corners, self.corners);
        self.edges = lookup(&self.transposition_tables.u2p_edges, self.edges);
    }

    /// A fifth of a turn of the right face, looked up in the tables.
    pub fn r(&mut self)
        requires
            old(self).wf(),
        ensures
            final(self).wf(),
            final(self)@ == old(self)@.r(),
            final(self).transposition_tables == old(self).transposition_tables,
    {
        self.corners = lookup(&self.transposition_tables.r_corners, self.corners);
        self.edges = lookup(&self.transposition_tables.r_edges, self.edges);
    }

    /// R three times, in one lookup.
    pub fn r2p(&mut self)
        requires
            old(self).wf(),
        ensures
            final(self).wf(),
            final(self)@ == old(self)@.r2p(),
            final(self).transposition_tables == old(self).transposition_tables,
    {
        self.corners = lookup(&self.transposition_tables.r2p_corners, self.corners);
        self.edges = lookup(&self.transposition_tables.r2p_edges, self.edges);
    }

    /// U and then R, in one lookup.
    pub fn ur(&mut self)
        requires
            old(self).wf(),
        ensures
            final(self).wf(),
            final(self)@ == old(self)@.ur(),
            final(self).transposition_tables == old(self).transposition_tables,
    {
        self.corners = lookup(&self.transposition_tables.ur_corners, self.corners);
        self.edges = lookup(&self.transposition_tables.ur_edges, self.edges);
    }

    /// Turns a face by a number of fifths.
    pub fn turn(&mut self, turn: Turn)
        requires
            old(self).wf(),
        ensures
            final(self).wf(),
            final(self)@ == old(self)@.turned(turn.face, turn.fifths as nat),
            final(self).transposition_tables == old(self).transposition_tables,
    {
        let mut done: u8 = 0;
        while done < turn.fifths
            invariant
                done <= turn.fifths,
                self.wf(),
                self@ == old(self)@.turned(turn.face, done as nat),
                self.transposition_tables == old(self).transposition_tables,
            decreases turn.fifths - done,
        {
            match turn.face {
                Face::U => self.u(),
                Face::R => self.r(),
            }
            done = done + 1;
        }
    }

    /// Does the turn named `U`, `U2`, `U2'`, `U'`, `R`, `R2`, `R2'` or
    /// `R'`. Any other name is refused and leaves the puzzle as it is.
    pub fn do_move(&mut self, mv: &str) -> (done: Result<(), InvalidMove>)
        requires
            old(self).wf(),
        ensures
            final(self).wf(),
            final(self).transposition_tables == old(self).transposition_tables,
            match turn_named(mv.spec_bytes()) {
                Some(turn) => done is Ok && final(self)@ == old(self)@.turned(
                    turn.face,
                    turn.fifths as nat,
                ),
                None => done is Err && final(self)@ == old(self)@,
            },
    {
        let bytes = mv.as_bytes();
        assert(bytes@.subrange(0, bytes@.len() as int) =~= bytes@);
        match parse_turn(bytes, 0, bytes.len()) {
            Some(turn) => {
                self.turn(turn);
                Ok(())
            },
            None => Err(InvalidMove),
        }
    }

    /// Does the turns named in `alg`, which are separated by white space,
    /// one after the other. The first name that names no turn is refused:
    /// the turns before it have been done, those after it are not.
    pub fn do_alg(&mut self, alg: &str) -> (done: Result<(), InvalidMove>)
        requires
            old(self).wf(),
        ensures
            final(self).wf(),
            final(self).transposition_tables == old(self).transposition_tables,
            final(self)@ == old(self)@.after_alg(alg.spec_bytes(), 0).0,
            done is Ok <==> old(self)@.after_alg(alg.spec_bytes(), 0).1,
    {
        let bytes = alg.as_bytes();
        let mut pos: usize = 0;
        while pos < bytes.len()
            invariant
                pos <= bytes@.len(),
                bytes@ == alg.spec_bytes(),
                self.wf(),
                self.transposition_tables == old(self).transposition_tables,
                self@.after_alg(bytes@, pos as int) == old(self)@.after_alg(bytes@, 0),
            decreases bytes@.len() - pos,
        {
            if space(bytes[pos]) {
                pos = pos + 1;
            } else {
                let end = find_token_end(bytes, pos);
                proof {
                    lemma_token_end(bytes@, pos as int);
                }
                match parse_turn(bytes, pos, end) {
                    Some(turn) => {
                        self.turn(turn);
                        pos = end;
                    },
                    None => {
                        return Err(InvalidMove);
                    },
                }
            }
        }
        Ok(())
    }

    /// The state number.
    pub fn encode(&self) -> (state: u64)
        requires
            self@.in_range(),
        ensures
            state == self@.encode(),
            state < STATE_SIZE,
    {
        proof {
            lemma_sizes();
        }
        self.corners as u64 * EP_SIZE as u64 + self.edges as u64
    }

    /// Takes the puzzle to the state with the given number.
    pub fn decode(&mut self, coord: u64)
        requires
            coord < STATE_SIZE,
        ensures
            final(self)@ == Coords::of(coord as nat),
            final(self)@.in_range(),
            final(self)@.encode() == coord,
            final(self).transposition_tables == old(self).transposition_tables,
    {
        proof {
            lemma_sizes();
        }
        self.corners = (coord / EP_SIZE as u64) as u32;
        self.edges = (coord % EP_SIZE as u64) as u32;
    }
}

} // verus!
