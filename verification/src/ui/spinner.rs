//! A cyclic progress glyph.

use vstd::prelude::*;

verus! {

/// The glyphs a spinner cycles through, in order.
pub open spec fn spinner_frames() -> Seq<char> {
    seq![
        '\u{280B}',
        '\u{2819}',
        '\u{2839}',
        '\u{2838}',
        '\u{283C}',
        '\u{2834}',
        '\u{2826}',
        '\u{2827}',
        '\u{2807}',
        '\u{280F}',
    ]
}

/// Position reached from `position` after `steps` frames were taken.
pub open spec fn position_after(position: nat, steps: nat) -> nat
    decreases steps,
{
    if steps == 0 {
        position
    } else {
        (position_after(position, (steps - 1) as nat) + 1) % 10
    }
}

/// The glyph handed out by the call number `steps` (counted from zero) on a
/// spinner that stands at `position`.
pub open spec fn frame_after(position: nat, steps: nat) -> char {
    spinner_frames()[position_after(position, steps) as int]
}

/// A simple text-based spinner for indicating progress.
#[derive(Debug)]
pub struct Spinner {
    frames: Vec<char>,
    current: usize,
}

impl Spinner {
    /// The frames are the fixed glyph table and the position lies inside it.
    #[verifier::type_invariant]
    pub closed spec fn wf(self) -> bool {
        &&& self.frames@ == spinner_frames()
        &&& self.current < 10
    }

    /// Index of the glyph that the next call of `next_frame` returns.
    pub closed spec fn position(self) -> nat {
        self.current as nat
    }

    /// The position of a spinner always lies inside the table of glyphs.
    pub proof fn lemma_position_in_range(self)
        requires
            self.wf(),
        ensures
            self.position() < 10,
    {
    }

    /// Creates a spinner that stands at the first glyph.
    #[must_use]
    pub fn new() -> (s: Self)
        ensures
            s.wf(),
            s.position() == 0,
    {
        let frames = vec![
            '\u{280B}',
            '\u{2819}',
            '\u{2839}',
            '\u{2838}',
            '\u{283C}',
            '\u{2834}',
            '\u{2826}',
            '\u{2827}',
            '\u{2807}',
            '\u{280F}',
        ];
        assert(frames@ =~= spinner_frames());
        Spinner { frames, current: 0 }
    }

    /// Returns the glyph at the current position and moves one step on,
    /// wrapping round after the tenth glyph.
    pub fn next_frame(&mut self) -> (c: char)
        ensures
            final(self).wf(),
            old(self).position() < 10,
            c == spinner_frames()[old(self).position() as int],
            final(self).position() == (old(self).position() + 1) % 10,
    {
        proof {
            use_type_invariant(&*self);
        }
        let c = self.frames[self.current];
        self.current = (self.current + 1) % 10;
        c
    }
}

impl Default for Spinner {
    fn default() -> (s: Self)
        ensures
            s.wf(),
            s.position() == 0,
    {
        Spinner::new()
    }
}

/// Taking `steps` frames moves the position by `steps`, modulo ten.
pub proof fn lemma_position_after(position: nat, steps: nat)
    requires
        position < 10,
    ensures
        position_after(position, steps) == (position + steps) % 10,
    decreases steps,
{
    if steps > 0 {
        lemma_position_after(position, (steps - 1) as nat);
    }
}

/// The frames a spinner hands out repeat with period ten, and no frame
/// equals the one that follows it.
pub proof fn lemma_frames_periodic(position: nat, steps: nat)
    requires
        position < 10,
    ensures
        frame_after(position, steps + 10) == frame_after(position, steps),
        frame_after(position, steps + 1) != frame_after(position, steps),
{
    lemma_position_after(position, steps);
    lemma_position_after(position, steps + 1);
    lemma_position_after(position, steps + 10);
    let frames = spinner_frames();
    assert(forall|i: int, j: int|
        0 <= i < 10 && 0 <= j < 10 && i != j ==> frames[i] != frames[j]);
}

} // verus!
