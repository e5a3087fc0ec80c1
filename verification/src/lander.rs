//! The craft's attitude: a heading on a dial of 32 steps, and the cooldown
//! that spaces one turn step from the next.
//!
//! Time is counted in whole nanoseconds. Position and velocity are not kept
//! here: a frame tells its caller whether the engine burns, and the caller
//! moves the craft.

use vstd::prelude::*;
use crate::keys::Keys;

verus! {

/// Nanoseconds that a full turn of the dial takes at one step per cooldown.
pub const FULL_TURN_NANOS: u64 = 3_000_000_000;

/// Nanoseconds that have to pass between two turn steps.
pub const TURN_NANOS: u64 = 93_750_000;

/// What a [`Lander`] stands for: its heading as a step of the dial, and the
/// nanoseconds left before the next turn step is let through.
pub struct Attitude {
    pub heading: nat,
    pub cooldown: nat,
}

/// The number of headings on the dial, as a mathematical integer.
pub open spec fn dial() -> int {
    32
}

/// The heading that lies `steps` steps from `heading`, going round the dial
/// in either direction.
pub open spec fn turned(heading: nat, steps: int) -> nat {
    ((heading + steps) % dial()) as nat
}

/// An attitude that a craft can be in.
pub open spec fn valid(a: Attitude) -> bool {
    a.heading < dial() && a.cooldown <= TURN_NANOS
}

/// One request to turn by `steps`, made in a frame that lasted `elapsed`
/// nanoseconds: it is let through when the cooldown has run out within the
/// frame, and then starts the cooldown anew. Otherwise nothing changes.
pub open spec fn after_turn(a: Attitude, steps: int, elapsed: nat) -> Attitude {
    if a.cooldown <= elapsed {
        Attitude { heading: turned(a.heading, steps), cooldown: TURN_NANOS as nat }
    } else {
        a
    }
}

/// The attitude after one frame of `elapsed` nanoseconds with `keys` held:
/// first the left key asks for a step back, then the right key for a step
/// forward, then the frame's time is taken off the cooldown, which stops at
/// zero.
pub open spec fn after_frame(a: Attitude, elapsed: nat, keys: Keys) -> Attitude {
    let l = if keys.left { after_turn(a, -1, elapsed) } else { a };
    let r = if keys.right { after_turn(l, 1, elapsed) } else { l };
    Attitude {
        heading: r.heading,
        cooldown: if r.cooldown >= elapsed { (r.cooldown - elapsed) as nat } else { 0 },
    }
}

/// The attitude after a run of frames, `frames[i]` being the nanoseconds
/// that the i-th of them lasted, with the same `keys` held throughout.
pub open spec fn after_frames(a: Attitude, frames: Seq<nat>, keys: Keys) -> Attitude
    decreases frames.len(),
{
    if frames.len() == 0 {
        a
    } else {
        after_frame(after_frames(a, frames.drop_last(), keys), frames.last(), keys)
    }
}

/// Whether the engine burns while `keys` are held.
pub open spec fn burning(keys: Keys) -> bool {
    keys.space || keys.up
}

/// The craft's discrete state.
#[derive(Clone, Copy, Debug, PartialEq, Eq, Structural)]
pub struct Lander {
    dir: u8,
    turn_cooldown: u64,
}

impl View for Lander {
    type V = Attitude;

    closed spec fn view(&self) -> Attitude {
        Attitude { heading: self.dir as nat, cooldown: self.turn_cooldown as nat }
    }
}

impl Lander {
    /// The heading stays on the dial and the cooldown never exceeds one
    /// turn period.
    pub open spec fn wf(&self) -> bool {
        valid(self@)
    }

    /// Number of headings on the dial.
    pub fn dir_count() -> (n: u8)
        ensures
            n == dial(),
    {
        32
    }

    /// The current heading, a step of the dial counted from east.
    pub fn heading(&self) -> (h: u8)
        ensures
            h == self@.heading,
    {
        self.dir
    }

    /// Nanoseconds left until the next turn step is let through.
    pub fn turn_cooldown(&self) -> (c: u64)
        ensures
            c == self@.cooldown,
    {
        self.turn_cooldown
    }

    /// Points the craft at step `d`, counted round the dial.
    pub fn dir(&mut self, d: u8)
        ensures
            final(self)@.heading == d as int % dial(),
            final(self)@.cooldown == old(self)@.cooldown,
            old(self).wf() ==> final(self).wf(),
    {
        self.dir = d % Self::dir_count();
    }

    /// Asks for a turn by `d` steps in a frame of `elapsed` nanoseconds.
    pub fn change_dir(&mut self, d: i8, elapsed: u128)
        requires
            old(self).wf(),
        ensures
            final(self)@ == after_turn(old(self)@, d as int, elapsed as nat),
            final(self).wf(),
    {
        if self.turn_cooldown as u128 <= elapsed {
            self.turn_cooldown = TURN_NANOS;
            // 128 is a multiple of the dial, so the shift keeps the step
            // and makes the sum non-negative.
            let shifted: u16 = (self.dir as i16 + d as i16 + 128) as u16;
            self.dir((shifted % 32) as u8);
        }
    }

    /// One frame: `elapsed` nanoseconds have passed with `keys` held. Turns
    /// the craft as far as the cooldown allows, runs the cooldown down, and
    /// tells whether the engine burns during this frame.
    pub fn update(&mut self, elapsed: u128, keys: Keys) -> (thrust: bool)
        requires
            old(self).wf(),
        ensures
            final(self)@ == after_frame(old(self)@, elapsed as nat, keys),
            final(self).wf(),
            thrust == burning(keys),
    {
        if keys.left {
            self.change_dir(-1, elapsed);
        }
        if keys.right {
            self.change_dir(1, elapsed);
        }
        self.turn_cooldown = if self.turn_cooldown as u128 >= elapsed {
            (self.turn_cooldown as u128 - elapsed) as u64
        } else {
            0
        };
        keys.space || keys.up
    }
}

impl Default for Lander {
    /// A craft that heads east and may turn at once.
    fn default() -> (lander: Lander)
        ensures
            lander@ == (Attitude { heading: 0, cooldown: 0 }),
            lander.wf(),
    {
        Lander { dir: 0, turn_cooldown: 0 }
    }
}

/// A frame leaves a valid attitude valid, whatever its length and whatever
/// keys are held.
pub proof fn lemma_frame_keeps_valid(a: Attitude, elapsed: nat, keys: Keys)
    requires
        valid(a),
    ensures
        valid(after_frame(a, elapsed, keys)),
{
}

/// The dial's steps share the full turn evenly: 32 cooldowns make up the
/// full turn's time, with nothing left over.
pub proof fn lemma_turn_period()
    ensures
        dial() * TURN_NANOS == FULL_TURN_NANOS,
{
}

/// With neither turn key held the heading stays, however long the frame.
pub proof fn lemma_no_turn_key_keeps_heading(a: Attitude, elapsed: nat, keys: Keys)
    requires
        !keys.left,
        !keys.right,
    ensures
        after_frame(a, elapsed, keys).heading == a.heading,
{
}

/// A frame that took no time changes nothing, as long as no turn is due:
/// either the cooldown is still running or neither turn key is held.
pub proof fn lemma_still_frame(a: Attitude, keys: Keys)
    requires
        a.cooldown > 0 || !(keys.left || keys.right),
    ensures
        after_frame(a, 0, keys) == a,
{
}

/// While the right key alone is held and every frame lasts at least one
/// cooldown, each frame turns the craft by exactly one step.
pub proof fn lemma_steady_turn(a: Attitude, frames: Seq<nat>, keys: Keys)
    requires
        valid(a),
        keys.right,
        !keys.left,
        forall|i: int| 0 <= i < frames.len() ==> frames[i] >= TURN_NANOS,
    ensures
        valid(after_frames(a, frames, keys)),
        after_frames(a, frames, keys).heading == turned(a.heading, frames.len() as int),
    decreases frames.len(),
{
    if frames.len() > 0 {
        lemma_steady_turn(a, frames.drop_last(), keys);
        let before = after_frames(a, frames.drop_last(), keys);
        lemma_frame_keeps_valid(before, frames.last(), keys);
        assert(after_frame(before, frames.last(), keys).heading == turned(before.heading, 1));
    }
}

/// Holding the right key alone through 32 frames of one cooldown each,
/// which is the full turn's time, brings the craft back to the heading it
/// started from.
pub proof fn lemma_full_turn(a: Attitude, keys: Keys)
    requires
        valid(a),
        keys.right,
        !keys.left,
    ensures
        after_frames(a, Seq::new(32, |i: int| TURN_NANOS as nat), keys).heading == a.heading,
        32 * TURN_NANOS == FULL_TURN_NANOS,
{
    lemma_steady_turn(a, Seq::new(32, |i: int| TURN_NANOS as nat), keys);
}

} // verus!
