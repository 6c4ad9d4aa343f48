use vstd::multiset::Multiset;
use vstd::prelude::*;

verus! {

/// Number of distinct values a color identifier can take.
pub const COLOR_SPACE: usize = 256;

/// Number of occurrences of color `c` in `s`.
pub open spec fn count_color(s: Seq<u8>, c: u8) -> nat
    decreases s.len(),
{
    if s.len() == 0 {
        0
    } else {
        count_color(s.drop_last(), c) + if s.last() == c {
            1nat
        } else {
            0nat
        }
    }
}

/// The colors of `s`, in order, at the positions `i < n` where `s` and `g` agree.
pub open spec fn matched(s: Seq<u8>, g: Seq<u8>, n: int) -> Seq<u8>
    decreases n,
{
    if n <= 0 {
        Seq::empty()
    } else if s[n - 1] == g[n - 1] {
        matched(s, g, n - 1).push(s[n - 1])
    } else {
        matched(s, g, n - 1)
    }
}

/// The colors of `s`, in order, at the positions `i < n` where `s` and `g` differ.
pub open spec fn unmatched(s: Seq<u8>, g: Seq<u8>, n: int) -> Seq<u8>
    decreases n,
{
    if n <= 0 {
        Seq::empty()
    } else if s[n - 1] != g[n - 1] {
        unmatched(s, g, n - 1).push(s[n - 1])
    } else {
        unmatched(s, g, n - 1)
    }
}

/// Sum, over the colors `c < k`, of the occurrences of `c` in `a`.
pub open spec fn sum_count(a: Seq<u8>, k: int) -> nat
    decreases k,
{
    if k <= 0 {
        0
    } else {
        sum_count(a, k - 1) + count_color(a, (k - 1) as u8)
    }
}

/// Sum, over the colors `c < k`, of the smaller of the occurrences of `c` in `a` and in `b`.
pub open spec fn sum_min(a: Seq<u8>, b: Seq<u8>, k: int) -> nat
    decreases k,
{
    if k <= 0 {
        0
    } else {
        let x = count_color(a, (k - 1) as u8);
        let y = count_color(b, (k - 1) as u8);
        sum_min(a, b, k - 1) + if x <= y {
            x
        } else {
            y
        }
    }
}

/// Number of positions at which the guess has the secret's color.
pub open spec fn exact_matches(secret: Seq<u8>, guess: Seq<u8>) -> nat {
    matched(secret, guess, secret.len() as int).len()
}

/// Color-only matches: per color, the smaller of its counts in the secret and in the
/// guess, both restricted to the positions that are not exact matches; summed over colors.
pub open spec fn color_only(secret: Seq<u8>, guess: Seq<u8>) -> nat {
    let n = secret.len() as int;
    sum_min(unmatched(secret, guess, n), unmatched(guess, secret, n), COLOR_SPACE as int)
}

/// Color matches over the whole sequences: per color, the smaller of its counts in the
/// secret and in the guess, summed over colors.
pub open spec fn total_color_matches(secret: Seq<u8>, guess: Seq<u8>) -> nat {
    sum_min(secret, guess, COLOR_SPACE as int)
}

/// Score of a guess against a secret.
#[derive(Clone, Copy, Debug, PartialEq, Eq, Structural)]
pub struct Feedback {
    /// Positions where guess and secret share the same color.
    pub exact: usize,
    /// Further pegs that match by color alone.
    pub color_only: usize,
}

impl Feedback {
    /// `self` is the feedback for `guess` against `secret`.
    pub open spec fn scores(self, secret: Seq<u8>, guess: Seq<u8>) -> bool {
        &&& self.exact == exact_matches(secret, guess)
        &&& self.color_only == color_only(secret, guess)
    }
}

/// Why an evaluation was refused.
#[derive(Clone, Copy, Debug, PartialEq, Eq, Structural)]
pub enum EvalError {
    /// The guess and the secret differ in length.
    LengthMismatch,
}

proof fn lemma_count_push(a: Seq<u8>, x: u8, c: u8)
    ensures
        count_color(a.push(x), c) == count_color(a, c) + if x == c {
            1nat
        } else {
            0nat
        },
{
    assert(a.push(x).drop_last() =~= a);
}

proof fn lemma_count_le_len(a: Seq<u8>, c: u8)
    ensures
        count_color(a, c) <= a.len(),
    decreases a.len(),
{
    if a.len() > 0 {
        lemma_count_le_len(a.drop_last(), c);
    }
}

proof fn lemma_split_lengths(s: Seq<u8>, g: Seq<u8>, n: int)
    requires
        0 <= n <= s.len(),
        n <= g.len(),
    ensures
        matched(s, g, n).len() + unmatched(s, g, n).len() == n,
    decreases n,
{
    if n > 0 {
        lemma_split_lengths(s, g, n - 1);
    }
}

proof fn lemma_matched_symmetric(s: Seq<u8>, g: Seq<u8>, n: int)
    requires
        0 <= n <= s.len(),
        n <= g.len(),
    ensures
        matched(s, g, n) == matched(g, s, n),
    decreases n,
{
    if n > 0 {
        lemma_matched_symmetric(s, g, n - 1);
    }
}

/// Each occurrence of a color in the first `n` positions is either an exact match or not.
proof fn lemma_split_count(s: Seq<u8>, g: Seq<u8>, n: int, c: u8)
    requires
        0 <= n <= s.len(),
        n <= g.len(),
    ensures
        count_color(s.take(n), c) == count_color(unmatched(s, g, n), c) + count_color(
            matched(s, g, n),
            c,
        ),
    decreases n,
{
    if n > 0 {
        lemma_split_count(s, g, n - 1, c);
        assert(s.take(n) =~= s.take(n - 1).push(s[n - 1]));
        lemma_count_push(s.take(n - 1), s[n - 1], c);
        lemma_count_push(matched(s, g, n - 1), s[n - 1], c);
        lemma_count_push(unmatched(s, g, n - 1), s[n - 1], c);
    }
}

proof fn lemma_sum_count_empty(a: Seq<u8>, k: int)
    requires
        a.len() == 0,
    ensures
        sum_count(a, k) == 0,
    decreases k,
{
    if k > 0 {
        lemma_sum_count_empty(a, k - 1);
    }
}

proof fn lemma_sum_count_push(a: Seq<u8>, x: u8, k: int)
    requires
        0 <= k <= COLOR_SPACE,
    ensures
        sum_count(a.push(x), k) == sum_count(a, k) + if (x as int) < k {
            1nat
        } else {
            0nat
        },
    decreases k,
{
    if k > 0 {
        lemma_sum_count_push(a, x, k - 1);
        lemma_count_push(a, x, (k - 1) as u8);
    }
}

/// Summing the per-color counts over every color gives the length.
proof fn lemma_sum_count_all(a: Seq<u8>)
    ensures
        sum_count(a, COLOR_SPACE as int) == a.len(),
    decreases a.len(),
{
    if a.len() > 0 {
        let p = a.drop_last();
        lemma_sum_count_all(p);
        assert(p.push(a.last()) =~= a);
        lemma_sum_count_push(p, a.last(), COLOR_SPACE as int);
    } else {
        lemma_sum_count_empty(a, COLOR_SPACE as int);
    }
}

proof fn lemma_sum_count_le_len(a: Seq<u8>, k: int)
    requires
        0 <= k <= COLOR_SPACE,
    ensures
        sum_count(a, k) <= a.len(),
    decreases a.len(),
{
    if a.len() > 0 {
        let p = a.drop_last();
        lemma_sum_count_le_len(p, k);
        assert(p.push(a.last()) =~= a);
        lemma_sum_count_push(p, a.last(), k);
    } else {
        lemma_sum_count_empty(a, k);
    }
}

proof fn lemma_sum_min_le(a: Seq<u8>, b: Seq<u8>, k: int)
    ensures
        sum_min(a, b, k) <= sum_count(a, k),
    decreases k,
{
    if k > 0 {
        lemma_sum_min_le(a, b, k - 1);
    }
}

/// Over the colors `c < k`, the full minima are the restricted minima plus the exact matches.
proof fn lemma_sum_min_split(s: Seq<u8>, g: Seq<u8>, k: int)
    requires
        s.len() == g.len(),
        0 <= k <= COLOR_SPACE,
    ensures
        sum_min(s, g, k) == sum_min(
            unmatched(s, g, s.len() as int),
            unmatched(g, s, s.len() as int),
            k,
        ) + sum_count(matched(s, g, s.len() as int), k),
    decreases k,
{
    if k > 0 {
        let n = s.len() as int;
        let c = (k - 1) as u8;
        lemma_sum_min_split(s, g, k - 1);
        assert(s.take(n) =~= s);
        assert(g.take(n) =~= g);
        lemma_split_count(s, g, n, c);
        lemma_split_count(g, s, n, c);
        lemma_matched_symmetric(s, g, n);
    }
}

/// The two formulations of color-only matches agree: the minima over the positions that
/// are not exact matches sum to the minima over the whole sequences less the exact matches.
pub proof fn lemma_color_only_formulations(secret: Seq<u8>, guess: Seq<u8>)
    requires
        secret.len() == guess.len(),
    ensures
        color_only(secret, guess) == total_color_matches(secret, guess) - exact_matches(
            secret,
            guess,
        ),
{
    let n = secret.len() as int;
    lemma_sum_min_split(secret, guess, COLOR_SPACE as int);
    lemma_sum_count_all(matched(secret, guess, n));
}

/// The counts of a feedback are bounded: exact and color-only matches together never
/// exceed the code length.
pub proof fn lemma_feedback_bounds(secret: Seq<u8>, guess: Seq<u8>)
    requires
        secret.len() == guess.len(),
    ensures
        exact_matches(secret, guess) <= secret.len(),
        exact_matches(secret, guess) + color_only(secret, guess) <= secret.len(),
{
    let n = secret.len() as int;
    let u = unmatched(secret, guess, n);
    lemma_split_lengths(secret, guess, n);
    lemma_sum_min_le(u, unmatched(guess, secret, n), COLOR_SPACE as int);
    lemma_sum_count_all(u);
}

proof fn lemma_self_unmatched_empty(s: Seq<u8>, n: int)
    requires
        0 <= n <= s.len(),
    ensures
        unmatched(s, s, n).len() == 0,
    decreases n,
{
    if n > 0 {
        lemma_self_unmatched_empty(s, n - 1);
    }
}

proof fn lemma_sum_min_empty(b: Seq<u8>, k: int)
    ensures
        sum_min(Seq::empty(), b, k) == 0,
    decreases k,
{
    if k > 0 {
        lemma_sum_min_empty(b, k - 1);
    }
}

/// A secret scored against itself: every position is an exact match, nothing is left
/// for color-only matches.
pub proof fn lemma_evaluate_self(secret: Seq<u8>)
    ensures
        exact_matches(secret, secret) == secret.len(),
        color_only(secret, secret) == 0,
{
    let n = secret.len() as int;
    lemma_self_unmatched_empty(secret, n);
    lemma_split_lengths(secret, secret, n);
    assert(unmatched(secret, secret, n) =~= Seq::<u8>::empty());
    lemma_sum_min_empty(unmatched(secret, secret, n), COLOR_SPACE as int);
}

proof fn lemma_count_is_multiset_count(s: Seq<u8>, c: u8)
    ensures
        count_color(s, c) == s.to_multiset().count(c),
    decreases s.len(),
{
    broadcast use vstd::seq_lib::group_to_multiset_ensures;

    if s.len() == 0 {
        assert(s.to_multiset() =~= Multiset::empty());
    } else {
        let p = s.drop_last();
        lemma_count_is_multiset_count(p, c);
        assert(p.push(s.last()) =~= s);
    }
}

proof fn lemma_no_fixed_points(s: Seq<u8>, g: Seq<u8>, n: int)
    requires
        0 <= n <= s.len(),
        n <= g.len(),
        forall|i: int| 0 <= i < n ==> s[i] != g[i],
    ensures
        matched(s, g, n).len() == 0,
        unmatched(s, g, n) == s.take(n),
    decreases n,
{
    if n > 0 {
        lemma_no_fixed_points(s, g, n - 1);
        assert(s.take(n) =~= s.take(n - 1).push(s[n - 1]));
    }
}

proof fn lemma_sum_min_same(a: Seq<u8>, b: Seq<u8>, k: int)
    requires
        forall|c: u8| count_color(a, c) == count_color(b, c),
    ensures
        sum_min(a, b, k) == sum_count(a, k),
    decreases k,
{
    if k > 0 {
        lemma_sum_min_same(a, b, k - 1);
    }
}

/// A guess that rearranges the secret's colors so that no position keeps its color has
/// no exact matches, and every peg matches by color alone.
pub proof fn lemma_derangement(secret: Seq<u8>, guess: Seq<u8>)
    requires
        secret.len() == guess.len(),
        secret.to_multiset() == guess.to_multiset(),
        forall|i: int| 0 <= i < secret.len() ==> secret[i] != guess[i],
    ensures
        exact_matches(secret, guess) == 0,
        color_only(secret, guess) == secret.len(),
{
    let n = secret.len() as int;
    lemma_no_fixed_points(secret, guess, n);
    assert forall|i: int| 0 <= i < n implies guess[i] != secret[i] by {}
    lemma_no_fixed_points(guess, secret, n);
    assert(secret.take(n) =~= secret);
    assert(guess.take(n) =~= guess);
    assert forall|c: u8| count_color(secret, c) == count_color(guess, c) by {
        lemma_count_is_multiset_count(secret, c);
        lemma_count_is_multiset_count(guess, c);
    }
    lemma_sum_min_same(secret, guess, COLOR_SPACE as int);
    lemma_sum_count_all(secret);
}

/// Scores `guess` against `secret`: exact matches, then color-only matches counted over
/// the positions that are not exact matches.
pub fn evaluate(secret: &Vec<u8>, guess: &Vec<u8>) -> (r: Result<Feedback, EvalError>)
    ensures
        secret.len() != guess.len() ==> r == Err::<Feedback, EvalError>(EvalError::LengthMismatch),
        secret.len() == guess.len() ==> (r matches Ok(f) && f.scores(secret@, guess@)),
        r matches Ok(f) ==> f.exact + f.color_only <= secret.len(),
{
    if secret.len() != guess.len() {
        return Err(EvalError::LengthMismatch);
    }
    let ghost s = secret@;
    let ghost g = guess@;
    let n = secret.len();
    let mut exact: usize = 0;
    let mut secret_rest: Vec<usize> = vec![0usize; COLOR_SPACE];
    let mut guess_rest: Vec<usize> = vec![0usize; COLOR_SPACE];
    let mut i: usize = 0;
    while i < n
        invariant
            s == secret@,
            g == guess@,
            n == s.len(),
            n == g.len(),
            i <= n,
            secret_rest.len() == COLOR_SPACE,
            guess_rest.len() == COLOR_SPACE,
            exact == matched(s, g, i as int).len(),
            forall|c: int|
                0 <= c < COLOR_SPACE ==> #[trigger] secret_rest@[c] == count_color(
                    unmatched(s, g, i as int),
                    c as u8,
                ),
            forall|c: int|
                0 <= c < COLOR_SPACE ==> #[trigger] guess_rest@[c] == count_color(
                    unmatched(g, s, i as int),
                    c as u8,
                ),
        decreases n - i,
    {
        let a = secret[i];
        let b = guess[i];
        proof {
            lemma_split_lengths(s, g, i as int);
            lemma_split_lengths(g, s, i as int);
            lemma_count_le_len(unmatched(s, g, i as int), a);
            lemma_count_le_len(unmatched(g, s, i as int), b);
            assert forall|c: int| 0 <= c < COLOR_SPACE implies #[trigger] count_color(
                unmatched(s, g, i + 1),
                c as u8,
            ) == count_color(unmatched(s, g, i as int), c as u8) + if a != b && a == c as u8 {
                1nat
            } else {
                0nat
            } by {
                lemma_count_push(unmatched(s, g, i as int), a, c as u8);
            }
            assert forall|c: int| 0 <= c < COLOR_SPACE implies #[trigger] count_color(
                unmatched(g, s, i + 1),
                c as u8,
            ) == count_color(unmatched(g, s, i as int), c as u8) + if a != b && b == c as u8 {
                1nat
            } else {
                0nat
            } by {
                lemma_count_push(unmatched(g, s, i as int), b, c as u8);
            }
        }
        if a == b {
            exact = exact + 1;
        } else {
            secret_rest.set(a as usize, secret_rest[a as usize] + 1);
            guess_rest.set(b as usize, guess_rest[b as usize] + 1);
        }
        i = i + 1;
    }
    let ghost us = unmatched(s, g, n as int);
    let ghost ug = unmatched(g, s, n as int);
    proof {
        lemma_sum_count_le_len(us, COLOR_SPACE as int);
        lemma_split_lengths(s, g, n as int);
    }
    let mut color_only_count: usize = 0;
    let mut c: usize = 0;
    while c < COLOR_SPACE
        invariant
            c <= COLOR_SPACE,
            n == s.len(),
            secret_rest.len() == COLOR_SPACE,
            guess_rest.len() == COLOR_SPACE,
            forall|d: int|
                0 <= d < COLOR_SPACE ==> #[trigger] secret_rest@[d] == count_color(us, d as u8),
            forall|d: int|
                0 <= d < COLOR_SPACE ==> #[trigger] guess_rest@[d] == count_color(ug, d as u8),
            color_only_count == sum_min(us, ug, c as int),
            us.len() <= n,
        decreases COLOR_SPACE - c,
    {
        proof {
            lemma_sum_min_le(us, ug, c + 1);
            lemma_sum_count_le_len(us, c + 1);
        }
        let x = secret_rest[c];
        let y = guess_rest[c];
        if x <= y {
            color_only_count = color_only_count + x;
        } else {
            color_only_count = color_only_count + y;
        }
        c = c + 1;
    }
    proof {
        lemma_feedback_bounds(s, g);
    }
    Ok(Feedback { exact, color_only: color_only_count })
}

} // verus!
