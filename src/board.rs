use crate::evaluate::{evaluate, lemma_feedback_bounds, EvalError, Feedback};
use crate::settings::{BoardSettings, ConfigError};
use rand::rngs::StdRng;
use rand::Rng;
use vstd::prelude::*;

verus! {

#[verifier::external_type_specification]
#[verifier::external_body]
pub struct ExStdRng(StdRng);

/// Relies on rand's `Rng::random_range`: the value drawn lies in `0..bound`. It panics
/// on an empty range, which `requires` excludes.
#[verifier::external_body]
fn draw_below(rng: &mut StdRng, bound: u16) -> (r: u16)
    requires
        0 < bound,
    ensures
        r < bound,
{
    rng.random_range(0..bound)
}

/// A guess: one color identifier per position.
#[derive(Clone, Debug)]
pub struct Guess(pub Vec<u8>);

impl View for Guess {
    type V = Seq<u8>;

    open spec fn view(&self) -> Seq<u8> {
        self.0@
    }
}

/// What a submitted guess leads to.
#[derive(Clone, Copy, Debug, PartialEq, Eq, Structural)]
pub enum GameState {
    /// The game goes on: exact matches, then color-only matches.
    GuessAnswer(u8, u8),
    /// The game is over: whether it was won.
    GameEnd(bool),
}

/// Lifecycle stage of a game.
#[derive(Clone, Copy, Debug, PartialEq, Eq, Structural)]
pub enum GamePhase {
    InProgress,
    Won,
    Lost,
}

/// Why a guess was refused.
#[derive(Clone, Copy, Debug, PartialEq, Eq, Structural)]
pub enum EngineError {
    /// The game is already won or lost.
    GameAlreadyEnded,
    /// Wrong length, or a color outside the palette.
    InvalidGuessShape,
}

/// The secret made of `draws`: position `i` takes color `draws[i]`.
pub fn secret_from_draws(settings: &BoardSettings, draws: &Vec<u16>) -> (r: Vec<u8>)
    requires
        forall|i: int|
            0 <= i < draws@.len() ==> (#[trigger] draws@[i] as nat) < settings.palette_size()
                && draws@[i] < 256,
    ensures
        r@.len() == draws@.len(),
        forall|i: int| 0 <= i < r@.len() ==> #[trigger] r@[i] == draws@[i],
        forall|i: int| 0 <= i < r@.len() ==> (#[trigger] r@[i] as nat) < settings.palette_size(),
{
    let mut code: Vec<u8> = Vec::new();
    let mut i: usize = 0;
    while i < draws.len()
        invariant
            i <= draws@.len(),
            code@.len() == i,
            forall|j: int|
                0 <= j < draws@.len() ==> (#[trigger] draws@[j] as nat) < settings.palette_size()
                    && draws@[j] < 256,
            forall|j: int| 0 <= j < i ==> #[trigger] code@[j] == draws@[j],
        decreases draws@.len() - i,
    {
        code.push(draws[i] as u8);
        i = i + 1;
    }
    code
}

/// Draws `code_length` colors independently and uniformly from the palette (colors may
/// repeat); a palette larger than the color identifiers can name is drawn from up to
/// the largest identifier.
fn draw_colors(settings: &BoardSettings, rng: &mut StdRng) -> (r: Vec<u16>)
    requires
        settings.palette_size() > 0,
    ensures
        r@.len() == settings.code_length,
        forall|i: int|
            0 <= i < r@.len() ==> (#[trigger] r@[i] as nat) < settings.palette_size() && r@[i]
                < 256,
{
    let n = settings.color_count();
    let bound: u16 = if n < 256 {
        n as u16
    } else {
        256
    };
    let mut draws: Vec<u16> = Vec::new();
    let mut i: u8 = 0;
    while i < settings.code_length
        invariant
            i <= settings.code_length,
            draws@.len() == i,
            0 < bound <= 256,
            bound <= settings.palette_size(),
            forall|j: int| 0 <= j < draws@.len() ==> (#[trigger] draws@[j]) < bound,
        decreases settings.code_length - i,
    {
        draws.push(draw_below(rng, bound));
        i = i + 1;
    }
    draws
}

/// Draws a secret of `code_length` colors, each independently from the palette
/// (colors may repeat), and builds it with `secret_from_draws`.
pub fn generate_secret(settings: &BoardSettings, rng: &mut StdRng) -> (r: Vec<u8>)
    requires
        settings.palette_size() > 0,
    ensures
        r@.len() == settings.code_length,
        forall|i: int| 0 <= i < r@.len() ==> (#[trigger] r@[i] as nat) < settings.palette_size(),
{
    let draws = draw_colors(settings, rng);
    secret_from_draws(settings, &draws)
}

/// The secret of a game and the guesses made against it, each with its feedback.
#[derive(Debug)]
pub struct BoardState {
    pub code: Vec<u8>,
    pub guesses: Vec<Guess>,
    pub answers: Vec<Feedback>,
}

impl BoardState {
    /// The guesses made so far, as color sequences.
    pub open spec fn history(&self) -> Seq<Seq<u8>> {
        self.guesses@.map_values(|g: Guess| g@)
    }

    /// One feedback per guess, each the score of that guess against the secret.
    pub open spec fn wf(&self) -> bool {
        &&& self.guesses@.len() == self.answers@.len()
        &&& forall|i: int|
            0 <= i < self.answers@.len() ==> #[trigger] self.answers@[i].scores(
                self.code@,
                self.guesses@[i]@,
            )
    }

    /// A fresh state with a secret drawn for `settings` and no guesses.
    pub fn new(settings: &BoardSettings, rng: &mut StdRng) -> (r: BoardState)
        requires
            settings.palette_size() > 0,
        ensures
            r.code@.len() == settings.code_length,
            forall|i: int|
                0 <= i < r.code@.len() ==> (#[trigger] r.code@[i] as nat) < settings.palette_size(),
            r.guesses@.len() == 0,
            r.answers@.len() == 0,
    {
        let draws = draw_colors(settings, rng);
        BoardState::from_draws(settings, &draws)
    }

    /// A fresh state whose secret is made of `draws`, with no guesses.
    pub fn from_draws(settings: &BoardSettings, draws: &Vec<u16>) -> (r: BoardState)
        requires
            forall|i: int|
                0 <= i < draws@.len() ==> (#[trigger] draws@[i] as nat) < settings.palette_size()
                    && draws@[i] < 256,
        ensures
            r.code@.len() == draws@.len(),
            forall|i: int| 0 <= i < r.code@.len() ==> #[trigger] r.code@[i] == draws@[i],
            r.guesses@.len() == 0,
            r.answers@.len() == 0,
    {
        BoardState {
            code: secret_from_draws(settings, draws),
            guesses: Vec::new(),
            answers: Vec::new(),
        }
    }

    /// Scores `guess` against the secret and records both.
    pub fn guess(&mut self, guess: &Guess) -> (r: Result<Feedback, EvalError>)
        ensures
            guess@.len() != old(self).code@.len() ==> r == Err::<Feedback, EvalError>(
                EvalError::LengthMismatch,
            ) && *final(self) == *old(self),
            guess@.len() == old(self).code@.len() ==> (r matches Ok(f) && f.scores(old(self).code@, guess@)
                && final(self).code == old(self).code && final(self).history() == old(
                self,
            ).history().push(guess@) && final(self).answers@ == old(self).answers@.push(f)),
            old(self).wf() ==> final(self).wf(),
    {
        match evaluate(&self.code, &guess.0) {
            Ok(f) => {
                let ghost old_guesses = self.guesses@;
                self.guesses.push(Guess(guess.0.clone()));
                self.answers.push(f);
                proof {
                    assert(self.guesses@.last()@ =~= guess@);
                    assert(self.history() =~= old(self).history().push(guess@));
                    assert(self.guesses@.drop_last() == old_guesses);
                }
                Ok(f)
            },
            Err(e) => Err(e),
        }
    }
}

/// What a caller may know of a game: its settings, history and phase, and the secret
/// (revealed by `MastermindBoard::secret` only once the game is over).
pub ghost struct BoardView {
    pub settings: BoardSettings,
    pub secret: Seq<u8>,
    pub history: Seq<Seq<u8>>,
    pub answers: Seq<Feedback>,
    pub phase: GamePhase,
}

impl BoardView {
    /// Valid settings; a secret and guesses that the settings admit; one feedback per
    /// guess, each its score against the secret; no more guesses than tries; a game in
    /// progress has a try left, a won game ends on an all-exact feedback, a lost game
    /// has used every try without one.
    pub open spec fn consistent(self) -> bool {
        &&& self.settings.is_valid()
        &&& self.settings.admits(self.secret)
        &&& self.history.len() == self.answers.len()
        &&& forall|i: int|
            0 <= i < self.history.len() ==> self.settings.admits(#[trigger] self.history[i])
        &&& forall|i: int|
            0 <= i < self.answers.len() ==> #[trigger] self.answers[i].scores(
                self.secret,
                self.history[i],
            )
        &&& self.history.len() <= self.settings.max_tries
        &&& match self.phase {
            GamePhase::InProgress => self.history.len() < self.settings.max_tries && forall|
                i: int,
            |
                0 <= i < self.answers.len() ==> (#[trigger] self.answers[i]).exact
                    != self.settings.code_length,
            GamePhase::Won => self.answers.len() > 0 && self.answers.last().exact
                == self.settings.code_length,
            GamePhase::Lost => self.history.len() == self.settings.max_tries && forall|i: int|
                0 <= i < self.answers.len() ==> (#[trigger] self.answers[i]).exact
                    != self.settings.code_length,
        }
    }
}

/// A game: settings, secret, history of guesses and feedback, and phase.
#[derive(Debug)]
pub struct MastermindBoard {
    settings: BoardSettings,
    state: BoardState,
    phase: GamePhase,
}

impl View for MastermindBoard {
    type V = BoardView;

    closed spec fn view(&self) -> BoardView {
        BoardView {
            settings: self.settings,
            secret: self.state.code@,
            history: self.state.history(),
            answers: self.state.answers@,
            phase: self.phase,
        }
    }
}

impl MastermindBoard {
    /// The game's invariant, stated over its view.
    pub open spec fn wf(&self) -> bool {
        self@.consistent()
    }

    /// A game in progress on `secret`, with nothing guessed yet.
    fn start(settings: BoardSettings, secret: Vec<u8>) -> (r: MastermindBoard)
        requires
            settings.is_valid(),
            settings.admits(secret@),
        ensures
            r.wf(),
            r@.settings == settings,
            r@.secret == secret@,
            r@.history.len() == 0,
            r@.answers.len() == 0,
            r@.phase == GamePhase::InProgress,
    {
        let r = MastermindBoard {
            settings,
            state: BoardState { code: secret, guesses: Vec::new(), answers: Vec::new() },
            phase: GamePhase::InProgress,
        };
        proof {
            assert(r.state.history() =~= Seq::<Seq<u8>>::empty());
        }
        r
    }

    /// Validates `settings` and starts a game on a secret drawn from `rng`.
    pub fn new(settings: BoardSettings, rng: &mut StdRng) -> (r: Result<MastermindBoard, ConfigError>)
        ensures
            settings.config_error() is Some ==> r == Err::<MastermindBoard, ConfigError>(
                settings.config_error()->Some_0,
            ),
            settings.config_error() is None ==> (r matches Ok(b) && b.wf() && b@.settings
                == settings && b@.history.len() == 0 && b@.answers.len() == 0 && b@.phase
                == GamePhase::InProgress && settings.admits(b@.secret)),
    {
        match settings.validate() {
            Err(e) => Err(e),
            Ok(()) => {
                let secret = generate_secret(&settings, rng);
                Ok(MastermindBoard::start(settings, secret))
            },
        }
    }

    /// Starts a game on a chosen secret; `None` when the settings are invalid or do not
    /// admit the secret.
    pub fn from_secret(settings: BoardSettings, secret: Vec<u8>) -> (r: Option<MastermindBoard>)
        ensures
            r is Some <==> settings.is_valid() && settings.admits(secret@),
            r matches Some(b) ==> b.wf() && b@.settings == settings && b@.secret == secret@
                && b@.history.len() == 0 && b@.answers.len() == 0 && b@.phase
                == GamePhase::InProgress,
    {
        if settings.validate().is_err() || !settings.is_valid_guess(&secret) {
            return None;
        }
        Some(MastermindBoard::start(settings, secret))
    }

    /// Submits a guess. A game that is over refuses it, and so does a game in progress
    /// when the guess has the wrong length or a color outside the palette; a refused
    /// guess changes nothing. Otherwise the guess and its feedback join the history: an
    /// all-exact feedback wins (even on the last try), else using up the tries loses,
    /// else the feedback is reported and the game goes on.
    pub fn guess(&mut self, guess: &Guess) -> (r: Result<GameState, EngineError>)
        requires
            old(self).wf(),
        ensures
            final(self).wf(),
            r is Err ==> *final(self) == *old(self),
            old(self)@.phase != GamePhase::InProgress ==> r == Err::<GameState, EngineError>(
                EngineError::GameAlreadyEnded,
            ),
            old(self)@.phase == GamePhase::InProgress && !old(self)@.settings.admits(guess@)
                ==> r == Err::<GameState, EngineError>(EngineError::InvalidGuessShape),
            old(self)@.phase == GamePhase::InProgress && old(self)@.settings.admits(guess@) ==> {
                let f = final(self)@.answers.last();
                let settings = old(self)@.settings;
                &&& final(self)@.settings == settings
                &&& final(self)@.secret == old(self)@.secret
                &&& final(self)@.history == old(self)@.history.push(guess@)
                &&& final(self)@.answers == old(self)@.answers.push(f)
                &&& f.scores(old(self)@.secret, guess@)
                &&& if f.exact == settings.code_length {
                    r == Ok::<GameState, EngineError>(GameState::GameEnd(true))
                        && final(self)@.phase == GamePhase::Won
                } else if final(self)@.history.len() == settings.max_tries {
                    r == Ok::<GameState, EngineError>(GameState::GameEnd(false))
                        && final(self)@.phase == GamePhase::Lost
                } else {
                    r == Ok::<GameState, EngineError>(
                        GameState::GuessAnswer(f.exact as u8, f.color_only as u8),
                    ) && final(self)@.phase == GamePhase::InProgress
                }
            },
    {
        if self.phase != GamePhase::InProgress {
            return Err(EngineError::GameAlreadyEnded);
        }
        if !self.settings.is_valid_guess(&guess.0) {
            return Err(EngineError::InvalidGuessShape);
        }
        proof {
            lemma_feedback_bounds(self.state.code@, guess@);
        }
        let f = match self.state.guess(guess) {
            Ok(f) => f,
            Err(_) => {
                return Err(EngineError::InvalidGuessShape);
            },
        };
        let tries = self.state.guesses.len();
        if f.exact == self.settings.code_length as usize {
            self.phase = GamePhase::Won;
            Ok(GameState::GameEnd(true))
        } else if tries == self.settings.max_tries as usize {
            self.phase = GamePhase::Lost;
            Ok(GameState::GameEnd(false))
        } else {
            Ok(GameState::GuessAnswer(f.exact as u8, f.color_only as u8))
        }
    }

    pub fn settings(&self) -> (r: &BoardSettings)
        ensures
            *r == self@.settings,
    {
        &self.settings
    }

    pub fn phase(&self) -> (r: GamePhase)
        ensures
            r == self@.phase,
    {
        self.phase
    }

    /// The guesses made so far, oldest first.
    pub fn guesses(&self) -> (r: &Vec<Guess>)
        ensures
            r@.map_values(|g: Guess| g@) == self@.history,
    {
        &self.state.guesses
    }

    /// The feedback of each guess, oldest first.
    pub fn answers(&self) -> (r: &Vec<Feedback>)
        ensures
            r@ == self@.answers,
    {
        &self.state.answers
    }

    /// The secret, once the game is over.
    pub fn secret(&self) -> (r: Option<&Vec<u8>>)
        ensures
            self@.phase == GamePhase::InProgress ==> r is None,
            self@.phase != GamePhase::InProgress ==> (r matches Some(s) && s@ == self@.secret),
    {
        if self.phase == GamePhase::InProgress {
            None
        } else {
            Some(&self.state.code)
        }
    }
}

} // verus!
