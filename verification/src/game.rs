//! The game as a whole: one craft over one terrain.

use vstd::prelude::*;
use crate::keys::Keys;
use crate::lander::{after_frame, burning, Attitude, Lander};
use crate::terrain::{generate, gentle, heights_of, lemma_walk_is_gentle};

verus! {

/// The floor under which no height of the terrain lies.
pub const MAX_HEIGHT: u32 = 120;

/// The bound on the change from one height to the next.
pub const MAX_DEGREE: u32 = 80;

/// The number of segments that the terrain is drawn with.
pub const MAP_LENGTH: usize = 50;

/// A game in progress.
#[derive(Clone, Debug, PartialEq)]
pub struct Moonar {
    lander: Lander,
    heightmap: Vec<u32>,
    score: u16,
}

impl Moonar {
    /// The craft's attitude.
    pub closed spec fn craft(&self) -> Attitude {
        self.lander@
    }

    /// The terrain's heights, from left to right.
    pub closed spec fn terrain(&self) -> Seq<u32> {
        self.heightmap@
    }

    /// The points scored so far.
    pub closed spec fn points(&self) -> nat {
        self.score as nat
    }

    /// The terrain that the game's settings allow: one height more than
    /// the map's length, the first of them on the floor, none of them
    /// under it, and each less than the largest change from the one before.
    pub open spec fn terrain_ok(heights: Seq<u32>) -> bool {
        &&& heights.len() == MAP_LENGTH + 1
        &&& forall|i: int| 0 <= i < heights.len() ==> heights[i] >= MAX_HEIGHT
        &&& gentle(heights, MAX_DEGREE, MAX_HEIGHT)
    }

    /// A game whose craft is in a valid attitude and whose terrain is as
    /// the settings allow.
    pub open spec fn wf(&self) -> bool {
        &&& crate::lander::valid(self.craft())
        &&& Self::terrain_ok(self.terrain())
    }

    /// The floor under which no height of the terrain lies.
    pub fn max_height() -> (h: u32)
        ensures
            h == MAX_HEIGHT,
    {
        MAX_HEIGHT
    }

    /// The bound on the change from one height to the next.
    pub fn max_degree() -> (d: u32)
        ensures
            d == MAX_DEGREE,
    {
        MAX_DEGREE
    }

    /// The number of segments that the terrain is drawn with.
    pub fn map_length() -> (n: usize)
        ensures
            n == MAP_LENGTH,
    {
        MAP_LENGTH
    }

    /// A fresh random terrain for the game's settings.
    pub fn generate_heightmap() -> (heights: Vec<u32>)
        ensures
            Self::terrain_ok(heights@),
            exists|draws: Seq<i32>|
                draws.len() == MAP_LENGTH + 1 && heights@ == heights_of(
                    draws,
                    MAX_DEGREE,
                    MAX_HEIGHT,
                ),
    {
        let heights = generate(Self::map_length(), Self::max_degree(), Self::max_height());
        proof {
            let draws = choose|draws: Seq<i32>|
                draws.len() == MAP_LENGTH + 1 && heights@ == heights_of(
                    draws,
                    MAX_DEGREE,
                    MAX_HEIGHT,
                );
            lemma_walk_is_gentle(draws, MAX_DEGREE, MAX_HEIGHT);
        }
        heights
    }

    /// The craft.
    pub fn lander(&self) -> (lander: &Lander)
        ensures
            lander@ == self.craft(),
    {
        &self.lander
    }

    /// The terrain's heights, from left to right.
    pub fn heightmap(&self) -> (heights: &Vec<u32>)
        ensures
            heights@ == self.terrain(),
    {
        &self.heightmap
    }

    /// The points scored so far.
    pub fn score(&self) -> (score: u16)
        ensures
            score == self.points(),
    {
        self.score
    }

    /// One frame of the game: the craft takes its frame, terrain and score
    /// stay as they are. Tells whether the engine burns.
    pub fn update(&mut self, elapsed: u128, keys: Keys) -> (thrust: bool)
        requires
            old(self).wf(),
        ensures
            final(self).craft() == after_frame(old(self).craft(), elapsed as nat, keys),
            final(self).terrain() == old(self).terrain(),
            final(self).points() == old(self).points(),
            final(self).wf(),
            thrust == burning(keys),
    {
        self.lander.update(elapsed, keys)
    }
}

impl Default for Moonar {
    /// A new game: the craft heads east and may turn at once, the terrain
    /// is fresh, and nothing is scored yet.
    fn default() -> (game: Moonar)
        ensures
            game.craft() == (Attitude { heading: 0, cooldown: 0 }),
            game.points() == 0,
            game.wf(),
            exists|draws: Seq<i32>|
                draws.len() == MAP_LENGTH + 1 && game.terrain() == heights_of(
                    draws,
                    MAX_DEGREE,
                    MAX_HEIGHT,
                ),
    {
        Moonar { lander: Lander::default(), heightmap: Self::generate_heightmap(), score: 0 }
    }
}

} // verus!
