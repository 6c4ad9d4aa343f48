use crate::board::Guess;
use crate::settings::BoardSettings;
use vstd::prelude::*;

verus! {

/// The guess a player is composing: one color per position, each stepped through the
/// palette in turn.
#[derive(Clone, Debug)]
pub struct GuessState(Vec<u8>);

impl View for GuessState {
    type V = Seq<u8>;

    closed spec fn view(&self) -> Seq<u8> {
        self.0@
    }
}

impl GuessState {
    /// Every position on color 0.
    pub fn new(settings: &BoardSettings) -> (r: GuessState)
        ensures
            r@ == Seq::new(settings.code_length as nat, |i: int| 0u8),
    {
        let pegs = vec![0u8; settings.code_length as usize];
        proof {
            assert(pegs@ =~= Seq::new(settings.code_length as nat, |i: int| 0u8));
        }
        GuessState(pegs)
    }

    /// Number of positions.
    pub fn len(&self) -> (r: usize)
        ensures
            r == self@.len(),
    {
        self.0.len()
    }

    /// The color at position `col`.
    pub fn peg(&self, col: usize) -> (r: u8)
        requires
            col < self@.len(),
        ensures
            r == self@[col as int],
    {
        self.0[col]
    }

    /// Moves position `col` to the next color of a palette of `palette_size` colors,
    /// from the last back to the first.
    pub fn next_color(&mut self, col: usize, palette_size: usize)
        requires
            col < old(self)@.len(),
            0 < palette_size <= 256,
        ensures
            final(self)@ == old(self)@.update(
                col as int,
                ((old(self)@[col as int] + 1) % (palette_size as int)) as u8,
            ),
    {
        let next = (self.0[col] as usize + 1) % palette_size;
        self.0.set(col, next as u8);
    }

    /// The guess as composed so far.
    pub fn to_guess(&self) -> (r: Guess)
        ensures
            r@ == self@,
    {
        let pegs = self.0.clone();
        proof {
            assert(pegs@ =~= self.0@);
        }
        Guess(pegs)
    }
}

} // verus!
