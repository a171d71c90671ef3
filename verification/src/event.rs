//! A ready-made event type for terrain-based games.
use vstd::prelude::*;

verus! {

/// An event value describing a terrain block the player stepped on.
///
/// Every quest registers events through equality comparison; the engine never
/// constructs events itself.  This enum is the event type used by the bundled
/// tests and by hosts whose world is made of terrain blocks; any other type
/// with equality comparison works as well.
#[derive(Debug)]
pub enum Block {
    /// Grass type terrain
    Grass,
    /// Sand type terrain
    Sand,
    /// Rock type terrain
    Rock,
    /// Cinderblock type terrain
    Cinderblock,
    /// Flowerbush type terrain
    Flowerbush,
    /// Barrier type terrain
    Barrier,
    /// Water type terrain
    Water,
    /// Sign (with string) type terrain
    Sign(String),
    /// Object (with character) type terrain
    Object(char),
}

/// Two blocks are the same exactly when they are the same variant and carry
/// the same payload (sign texts are compared by their characters).
pub open spec fn block_eq(a: &Block, b: &Block) -> bool {
    match (a, b) {
        (Block::Grass, Block::Grass) => true,
        (Block::Sand, Block::Sand) => true,
        (Block::Rock, Block::Rock) => true,
        (Block::Cinderblock, Block::Cinderblock) => true,
        (Block::Flowerbush, Block::Flowerbush) => true,
        (Block::Barrier, Block::Barrier) => true,
        (Block::Water, Block::Water) => true,
        (Block::Sign(x), Block::Sign(y)) => x@ == y@,
        (Block::Object(x), Block::Object(y)) => x == y,
        _ => false,
    }
}

impl PartialEq for Block {
    fn eq(&self, other: &Block) -> (r: bool) {
        match (self, other) {
            (Block::Grass, Block::Grass) => true,
            (Block::Sand, Block::Sand) => true,
            (Block::Rock, Block::Rock) => true,
            (Block::Cinderblock, Block::Cinderblock) => true,
            (Block::Flowerbush, Block::Flowerbush) => true,
            (Block::Barrier, Block::Barrier) => true,
            (Block::Water, Block::Water) => true,
            (Block::Sign(x), Block::Sign(y)) => *x == *y,
            (Block::Object(x), Block::Object(y)) => *x == *y,
            _ => false,
        }
    }
}

impl Eq for Block {

}

impl vstd::std_specs::cmp::PartialEqSpecImpl for Block {
    open spec fn obeys_eq_spec() -> bool {
        true
    }

    open spec fn eq_spec(&self, other: &Block) -> bool {
        block_eq(self, other)
    }
}

} // verus!
