//! The five-flag pattern of one lattice point and the box-drawing glyph that
//! it stands for.
//!
//! A lattice point is drawn from its centre and its four arms. The flags are
//! kept in the order top, left, centre, right, bottom:
//!
//! ```text
//!       top
//!  left  c  right
//!      bottom
//! ```

use core::ops::Index;
use vstd::pervasive::unreached;
use vstd::prelude::*;

verus! {

/// The number of flags in a bitmap.
pub const BITMAP_SIZE: usize = 5;

/// One flag of a bitmap.
#[derive(Debug, Clone, Copy, PartialEq, Eq, Structural)]
pub enum State {
    /// The flag is clear.
    E,
    /// The flag is set.
    N,
}

/// The flag that stands for a boolean.
pub open spec fn state_of(b: bool) -> State {
    if b {
        State::N
    } else {
        State::E
    }
}

/// The five flags that stand for five booleans, in the order of a bitmap.
pub open spec fn pattern(top: bool, left: bool, center: bool, right: bool, bottom: bool) -> Seq<
    State,
> {
    seq![state_of(top), state_of(left), state_of(center), state_of(right), state_of(bottom)]
}

/// Whether the arm towards the row above is set.
pub open spec fn top(bits: Seq<State>) -> bool {
    bits[0] == State::N
}

/// Whether the arm towards the column on the left is set.
pub open spec fn left(bits: Seq<State>) -> bool {
    bits[1] == State::N
}

/// Whether the centre is set.
pub open spec fn center(bits: Seq<State>) -> bool {
    bits[2] == State::N
}

/// Whether the arm towards the column on the right is set.
pub open spec fn right(bits: Seq<State>) -> bool {
    bits[3] == State::N
}

/// Whether the arm towards the row below is set.
pub open spec fn bottom(bits: Seq<State>) -> bool {
    bits[4] == State::N
}

/// The pattern without any flag.
pub open spec fn blank() -> Seq<State> {
    pattern(false, false, false, false, false)
}

/// The flag-wise "or" of two patterns.
pub open spec fn union(a: Seq<State>, b: Seq<State>) -> Seq<State> {
    pattern(
        top(a) || top(b),
        left(a) || left(b),
        center(a) || center(b),
        right(a) || right(b),
        bottom(a) || bottom(b),
    )
}

/// How many of the four arms are set.
pub open spec fn arms(bits: Seq<State>) -> nat {
    (if top(bits) {
        1nat
    } else {
        0nat
    }) + (if left(bits) {
        1nat
    } else {
        0nat
    }) + (if right(bits) {
        1nat
    } else {
        0nat
    }) + (if bottom(bits) {
        1nat
    } else {
        0nat
    })
}

/// Whether a pattern has a glyph. The blank pattern has one, and so has each
/// pattern whose centre is set together with at least two arms: a line, a
/// corner, a T-junction or the cross. That makes twelve patterns of the
/// thirty-two.
pub open spec fn drawable(bits: Seq<State>) -> bool {
    &&& bits.len() == BITMAP_SIZE
    &&& if center(bits) {
        arms(bits) >= 2
    } else {
        arms(bits) == 0
    }
}

/// The box-drawing character that joins the given arms.
pub open spec fn joint(top: bool, left: bool, right: bool, bottom: bool) -> char {
    if top {
        if left {
            if right {
                if bottom {
                    '┼'
                } else {
                    '┴'
                }
            } else {
                if bottom {
                    '┤'
                } else {
                    '┘'
                }
            }
        } else {
            if right {
                if bottom {
                    '├'
                } else {
                    '└'
                }
            } else {
                '│'
            }
        }
    } else {
        if left {
            if right {
                if bottom {
                    '┬'
                } else {
                    '─'
                }
            } else {
                '┐'
            }
        } else {
            if right && bottom {
                '┌'
            } else {
                ' '
            }
        }
    }
}

/// The two characters that a drawable pattern is drawn as: the joint of its
/// arms, then the stretch of line that leads to the next lattice point on the
/// right, which is drawn exactly when the right arm is set.
pub open spec fn glyph(bits: Seq<State>) -> Seq<char> {
    seq![
        joint(top(bits), left(bits), right(bits), bottom(bits)),
        if right(bits) {
            '─'
        } else {
            ' '
        },
    ]
}

/// The occupancy pattern of one lattice point.
pub struct Bitmap {
    bits: [State; BITMAP_SIZE],
}

impl View for Bitmap {
    type V = Seq<State>;

    /// The five flags in the order top, left, centre, right, bottom.
    closed spec fn view(&self) -> Seq<State> {
        self.bits@
    }
}

impl vstd::std_specs::core::IndexSpecImpl<usize> for Bitmap {
    open spec fn index_req(&self, index: &usize) -> bool {
        *index < BITMAP_SIZE
    }
}

impl Index<usize> for Bitmap {
    type Output = State;

    /// The flag at `index`, counted in the order top, left, centre, right,
    /// bottom.
    fn index(&self, index: usize) -> (r: &State)
        ensures
            *r == self@[index as int],
    {
        &self.bits[index]
    }
}

impl Bitmap {
    /// A bitmap always has five flags.
    pub proof fn lemma_len(&self)
        ensures
            self@.len() == BITMAP_SIZE,
    {
    }

    /// The bitmap without any flag.
    pub fn new() -> (r: Bitmap)
        ensures
            r@ == blank(),
    {
        let r = Bitmap { bits: [State::E, State::E, State::E, State::E, State::E] };
        assert(r@ =~= blank());
        r
    }

    /// The bitmap with the given flags.
    pub fn from(bits: [State; BITMAP_SIZE]) -> (r: Bitmap)
        ensures
            r@ == bits@,
    {
        Bitmap { bits }
    }

    /// Sets in `self` every flag that is set in `other`, and leaves the
    /// other flags as they are.
    pub fn combine(&mut self, other: Bitmap)
        ensures
            final(self)@ == union(old(self)@, other@),
    {
        let mut i: usize = 0;
        while i < BITMAP_SIZE
            invariant
                i <= BITMAP_SIZE,
                forall|j: int| 0 <= j < i ==> self.bits@[j] == union(old(self)@, other@)[j],
                forall|j: int| i <= j < BITMAP_SIZE ==> self.bits@[j] == old(self)@[j],
            decreases BITMAP_SIZE - i,
        {
            if other.bits[i] != State::E {
                self.bits[i] = State::N;
            }
            i += 1;
        }
        assert(self@ =~= union(old(self)@, other@));
    }

    /// Whether the pattern has a glyph.
    pub fn is_drawable(&self) -> (r: bool)
        ensures
            r == drawable(self@),
    {
        let t: bool = self.bits[0] == State::N;
        let l: bool = self.bits[1] == State::N;
        let c: bool = self.bits[2] == State::N;
        let r: bool = self.bits[3] == State::N;
        let b: bool = self.bits[4] == State::N;
        if c {
            (t && (l || r || b)) || (l && (r || b)) || (r && b)
        } else {
            !t && !l && !r && !b
        }
    }

    /// The glyph of the pattern, two characters wide.
    ///
    /// Only the twelve drawable patterns have one; to ask for the glyph of
    /// another pattern is a defect of the caller.
    pub fn render(&self) -> (s: String)
        requires
            drawable(self@),
        ensures
            s@ == glyph(self@),
    {
        let t: bool = self.bits[0] == State::N;
        let l: bool = self.bits[1] == State::N;
        let c: bool = self.bits[2] == State::N;
        let r: bool = self.bits[3] == State::N;
        let b: bool = self.bits[4] == State::N;
        proof {
            reveal_strlit("  ");
            reveal_strlit("──");
            reveal_strlit("│ ");
            reveal_strlit("└─");
            reveal_strlit("┌─");
            reveal_strlit("┐ ");
            reveal_strlit("┘ ");
            reveal_strlit("┴─");
            reveal_strlit("├─");
            reveal_strlit("┬─");
            reveal_strlit("┤ ");
            reveal_strlit("┼─");
        }
        let output: &str = match (t, l, c, r, b) {
            (false, false, false, false, false) => "  ",
            (false, true, true, true, false) => "──",
            (true, false, true, false, true) => "│ ",
            (true, false, true, true, false) => "└─",
            (false, false, true, true, true) => "┌─",
            (false, true, true, false, true) => "┐ ",
            (true, true, true, false, false) => "┘ ",
            (true, true, true, true, false) => "┴─",
            (true, false, true, true, true) => "├─",
            (false, true, true, true, true) => "┬─",
            (true, true, true, false, true) => "┤ ",
            (true, true, true, true, true) => "┼─",
            _ => unreached(),
        };
        assert(output@ =~= glyph(self@));
        output.to_owned()
    }
}

/// Combining is commutative, associative and idempotent, and the blank
/// pattern changes nothing: the result of combining several patterns depends
/// neither on their order nor on how often each is combined.
pub proof fn lemma_union_laws(a: Seq<State>, b: Seq<State>, c: Seq<State>)
    requires
        a.len() == BITMAP_SIZE,
    ensures
        union(a, b) == union(b, a),
        union(union(a, b), c) == union(a, union(b, c)),
        union(a, a) == a,
        union(a, blank()) == a,
        union(blank(), a) == a,
{
    assert(union(a, b) =~= union(b, a));
    assert(union(union(a, b), c) =~= union(a, union(b, c)));
    assert(union(a, a) =~= a);
    assert(union(a, blank()) =~= a);
    assert(union(blank(), a) =~= a);
}

/// Combining drawable patterns gives a drawable pattern.
pub proof fn lemma_union_drawable(a: Seq<State>, b: Seq<State>)
    requires
        drawable(a),
        drawable(b),
    ensures
        drawable(union(a, b)),
{
}

} // verus!
