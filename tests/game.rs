use mastermind::board::{
    generate_secret, secret_from_draws, BoardState, EngineError, GamePhase, GameState, Guess, MastermindBoard,
};
use mastermind::evaluate::{EvalError, Feedback};
use mastermind::guess_state::GuessState;
use mastermind::settings::{BoardSettings, ConfigError};
use rand::rngs::StdRng;
use rand::SeedableRng;
use rgb::RGB8;

fn settings(colors: i16, code_length: u8, max_tries: u8) -> BoardSettings {
    BoardSettings::default()
        .with_n_colors(colors)
        .code_length(code_length)
        .max_tries(max_tries)
}

fn board(colors: i16, code_length: u8, max_tries: u8, secret: Vec<u8>) -> MastermindBoard {
    MastermindBoard::from_secret(settings(colors, code_length, max_tries), secret).unwrap()
}

#[test]
fn secret_has_code_length_colors_in_range() {
    let mut rng = StdRng::seed_from_u64(11);
    for (colors, length) in [(2i16, 1u8), (4, 4), (9, 10), (3, 7)] {
        let s = settings(colors, length, 8);
        for _ in 0..50 {
            let secret = generate_secret(&s, &mut rng);
            assert_eq!(secret.len(), length as usize);
            assert!(secret.iter().all(|&c| (c as i16) < colors));
        }
    }
}

#[test]
fn secret_generation_is_reproducible_from_a_seed() {
    let s = settings(6, 5, 8);
    let a = generate_secret(&s, &mut StdRng::seed_from_u64(3));
    let b = generate_secret(&s, &mut StdRng::seed_from_u64(3));
    assert_eq!(a, b);
}

#[test]
fn secret_may_repeat_colors() {
    let s = settings(2, 10, 8);
    let mut rng = StdRng::seed_from_u64(5);
    let mut saw_repeat = false;
    for _ in 0..20 {
        let secret = generate_secret(&s, &mut rng);
        if secret.iter().filter(|&&c| c == secret[0]).count() > 1 {
            saw_repeat = true;
        }
    }
    assert!(saw_repeat);
}

#[test]
fn exact_guess_wins() {
    let mut b = board(3, 4, 8, vec![1, 2, 2, 2]);
    let r = b.guess(&Guess(vec![1, 2, 2, 2]));
    assert_eq!(r, Ok(GameState::GameEnd(true)));
    assert_eq!(b.answers()[0], Feedback { exact: 4, color_only: 0 });
    assert_eq!(b.phase(), GamePhase::Won);
}

#[test]
fn last_try_without_match_loses() {
    let mut b = board(2, 2, 1, vec![0, 0]);
    let r = b.guess(&Guess(vec![1, 1]));
    assert_eq!(r, Ok(GameState::GameEnd(false)));
    assert_eq!(b.guesses().len(), 1);
    assert_eq!(b.phase(), GamePhase::Lost);
}

#[test]
fn exact_match_on_last_try_wins() {
    let mut b = board(2, 2, 1, vec![0, 1]);
    assert_eq!(b.guess(&Guess(vec![0, 1])), Ok(GameState::GameEnd(true)));
    assert_eq!(b.phase(), GamePhase::Won);
}

#[test]
fn feedback_while_in_progress() {
    let mut b = board(4, 4, 8, vec![0, 1, 2, 3]);
    assert_eq!(b.guess(&Guess(vec![3, 2, 1, 0])), Ok(GameState::GuessAnswer(0, 4)));
    assert_eq!(b.guess(&Guess(vec![0, 1, 3, 2])), Ok(GameState::GuessAnswer(2, 2)));
    assert_eq!(b.phase(), GamePhase::InProgress);
    assert_eq!(b.guesses().len(), 2);
    assert_eq!(b.guesses()[1].0, vec![0, 1, 3, 2]);
    assert_eq!(b.answers()[1], Feedback { exact: 2, color_only: 2 });
}

#[test]
fn tries_run_out_after_max_tries() {
    let mut b = board(3, 2, 3, vec![2, 2]);
    assert_eq!(b.guess(&Guess(vec![0, 0])), Ok(GameState::GuessAnswer(0, 0)));
    assert_eq!(b.guess(&Guess(vec![2, 0])), Ok(GameState::GuessAnswer(1, 0)));
    assert_eq!(b.guess(&Guess(vec![0, 2])), Ok(GameState::GameEnd(false)));
    assert_eq!(b.guesses().len(), 3);
}

#[test]
fn invalid_guess_is_refused_without_using_a_try() {
    let mut b = board(3, 3, 2, vec![0, 1, 2]);
    assert_eq!(b.guess(&Guess(vec![0, 1])), Err(EngineError::InvalidGuessShape));
    assert_eq!(b.guess(&Guess(vec![0, 1, 2, 0])), Err(EngineError::InvalidGuessShape));
    assert_eq!(b.guess(&Guess(vec![0, 3, 2])), Err(EngineError::InvalidGuessShape));
    assert_eq!(b.guesses().len(), 0);
    assert_eq!(b.answers().len(), 0);
    assert_eq!(b.phase(), GamePhase::InProgress);
    assert_eq!(b.guess(&Guess(vec![2, 1, 0])), Ok(GameState::GuessAnswer(1, 2)));
}

#[test]
fn ended_game_refuses_further_guesses() {
    let mut won = board(3, 2, 5, vec![1, 2]);
    assert_eq!(won.guess(&Guess(vec![1, 2])), Ok(GameState::GameEnd(true)));
    assert_eq!(won.guess(&Guess(vec![0, 0])), Err(EngineError::GameAlreadyEnded));
    assert_eq!(won.guess(&Guess(vec![9])), Err(EngineError::GameAlreadyEnded));
    assert_eq!(won.guesses().len(), 1);
    assert_eq!(won.phase(), GamePhase::Won);

    let mut lost = board(2, 2, 1, vec![0, 0]);
    assert_eq!(lost.guess(&Guess(vec![1, 1])), Ok(GameState::GameEnd(false)));
    assert_eq!(lost.guess(&Guess(vec![0, 0])), Err(EngineError::GameAlreadyEnded));
    assert_eq!(lost.guesses().len(), 1);
    assert_eq!(lost.phase(), GamePhase::Lost);
}

#[test]
fn secret_is_revealed_only_after_the_end() {
    let mut b = board(2, 2, 1, vec![0, 1]);
    assert!(b.secret().is_none());
    b.guess(&Guess(vec![1, 1])).unwrap();
    assert_eq!(b.secret(), Some(&vec![0, 1]));
}

#[test]
fn new_board_with_random_secret() {
    let mut rng = StdRng::seed_from_u64(42);
    let mut b = MastermindBoard::new(settings(4, 4, 8), &mut rng).unwrap();
    assert_eq!(b.phase(), GamePhase::InProgress);
    assert_eq!(b.guesses().len(), 0);
    assert_eq!(b.settings().code_length, 4);
    let r = b.guess(&Guess(vec![0, 1, 2, 3])).unwrap();
    match r {
        GameState::GuessAnswer(e, c) => assert!((e as usize) + (c as usize) <= 4),
        GameState::GameEnd(won) => assert!(won),
    }
}

#[test]
fn new_board_rejects_invalid_settings() {
    let mut rng = StdRng::seed_from_u64(1);
    assert_eq!(
        MastermindBoard::new(settings(1, 4, 8), &mut rng).err(),
        Some(ConfigError::InvalidPaletteSize)
    );
    assert_eq!(
        MastermindBoard::new(settings(4, 0, 8), &mut rng).err(),
        Some(ConfigError::InvalidCodeLength)
    );
    assert_eq!(
        MastermindBoard::new(settings(4, 4, 0), &mut rng).err(),
        Some(ConfigError::InvalidMaxTries)
    );
}

#[test]
fn from_secret_checks_settings_and_secret() {
    assert!(MastermindBoard::from_secret(settings(1, 2, 3), vec![0, 0]).is_none());
    assert!(MastermindBoard::from_secret(settings(3, 2, 3), vec![0, 3]).is_none());
    assert!(MastermindBoard::from_secret(settings(3, 2, 3), vec![0]).is_none());
    assert!(MastermindBoard::from_secret(settings(3, 2, 3), vec![0, 2]).is_some());
}

#[test]
fn validate_reports_each_parameter() {
    assert_eq!(settings(1, 4, 8).validate(), Err(ConfigError::InvalidPaletteSize));
    assert_eq!(settings(0, 0, 0).validate(), Err(ConfigError::InvalidPaletteSize));
    assert_eq!(settings(2, 0, 0).validate(), Err(ConfigError::InvalidCodeLength));
    assert_eq!(settings(2, 1, 0).validate(), Err(ConfigError::InvalidMaxTries));
    assert_eq!(settings(2, 1, 1).validate(), Ok(()));
}

#[test]
fn builders_set_fields() {
    let colors = vec![RGB8::new(255, 0, 0), RGB8::new(255, 0, 255), RGB8::new(255, 255, 0)];
    let s = BoardSettings::default().colors(colors.clone()).code_length(4).max_tries(6);
    assert_eq!(s.colors, colors);
    assert_eq!(s.code_length, 4);
    assert_eq!(s.max_tries, 6);
    assert_eq!(s.color_count(), 3);
    let t = BoardSettings::new(colors.clone(), 5, 7);
    assert_eq!((t.colors.len(), t.code_length, t.max_tries), (3, 5, 7));
}

#[test]
fn default_settings_are_empty() {
    let s = BoardSettings::default();
    assert!(s.colors.is_empty());
    assert_eq!((s.code_length, s.max_tries), (0, 0));
}

#[test]
fn builtin_palette_prefixes() {
    let mut s = BoardSettings::default().code_length(4);
    s.generate_colors(4);
    assert_eq!(s.colors.len(), 4);
    assert_eq!(s.colors[0], RGB8::new(241, 196, 15));
    assert_eq!(s.colors[3], RGB8::new(155, 89, 182));
    assert_eq!(s.code_length, 4);
    let t = BoardSettings::default().with_n_colors(9);
    assert_eq!(t.colors.len(), 9);
    assert_eq!(t.colors[8], RGB8::new(142, 68, 173));
    assert_eq!(BoardSettings::default().with_n_colors(0).colors.len(), 0);
}

#[test]
fn guess_shape_check() {
    let s = settings(3, 3, 1);
    assert!(s.is_valid_guess(&vec![0, 1, 2]));
    assert!(!s.is_valid_guess(&vec![0, 1]));
    assert!(!s.is_valid_guess(&vec![0, 1, 3]));
}

#[test]
fn board_state_records_guesses() {
    let mut rng = StdRng::seed_from_u64(9);
    let mut st = BoardState::new(&settings(3, 3, 4), &mut rng);
    assert_eq!(st.code.len(), 3);
    let secret = st.code.clone();
    let f = st.guess(&Guess(secret.clone())).unwrap();
    assert_eq!(f, Feedback { exact: 3, color_only: 0 });
    assert_eq!(st.guess(&Guess(vec![0])), Err(EvalError::LengthMismatch));
    assert_eq!(st.guesses.len(), 1);
    assert_eq!(st.answers.len(), 1);
    assert_eq!(st.guesses[0].0, secret);
}

#[test]
fn guess_state_cycles_colors() {
    let s = settings(3, 4, 8);
    let mut g = GuessState::new(&s);
    assert_eq!(g.len(), 4);
    assert_eq!(g.to_guess().0, vec![0, 0, 0, 0]);
    g.next_color(1, 3);
    g.next_color(2, 3);
    g.next_color(2, 3);
    g.next_color(3, 3);
    g.next_color(3, 3);
    g.next_color(3, 3);
    assert_eq!(g.to_guess().0, vec![0, 1, 2, 0]);
    assert_eq!(g.peg(2), 2);
}

#[test]
fn secret_is_the_sequence_of_draws() {
    let s = settings(4, 5, 8);
    assert_eq!(secret_from_draws(&s, &vec![3, 0, 3, 3, 1]), vec![3, 0, 3, 3, 1]);
    assert_eq!(secret_from_draws(&s, &vec![2, 2, 2, 2, 2]), vec![2, 2, 2, 2, 2]);
    assert_eq!(secret_from_draws(&s, &vec![]), Vec::<u8>::new());
}

#[test]
fn board_state_from_draws() {
    let st = BoardState::from_draws(&settings(3, 4, 2), &vec![1, 1, 0, 2]);
    assert_eq!(st.code, vec![1, 1, 0, 2]);
    assert!(st.guesses.is_empty());
    assert!(st.answers.is_empty());
}

#[test]
fn full_builtin_palette() {
    let expected = [
        (241, 196, 15),
        (26, 188, 156),
        (52, 152, 219),
        (155, 89, 182),
        (192, 57, 43),
        (243, 156, 18),
        (22, 160, 133),
        (41, 128, 185),
        (142, 68, 173),
    ];
    let s = BoardSettings::default().with_n_colors(9);
    for (c, &(r, g, b)) in s.colors.iter().zip(expected.iter()) {
        assert_eq!(*c, RGB8::new(r, g, b));
    }
}

#[test]
fn settings_compare_by_fields() {
    assert_eq!(settings(4, 4, 8), settings(4, 4, 8));
    assert_ne!(settings(4, 4, 8), settings(5, 4, 8));
    assert_ne!(settings(4, 4, 8), settings(4, 3, 8));
}
