//! Fitness functions: how close an offspring is to the target.

use crate::text::{grapheme_seq, graphemes, symbols_of};
use vstd::prelude::*;

verus! {

/// How many of the first `n` positions hold the same symbol in both
/// sequences.
pub open spec fn matches_up_to(a: Seq<Seq<char>>, b: Seq<Seq<char>>, n: int) -> nat
    decreases n,
{
    if n <= 0 {
        0
    } else {
        matches_up_to(a, b, n - 1) + if a[n - 1] == b[n - 1] {
            1nat
        } else {
            0nat
        }
    }
}

/// The length of the shorter of two sequences.
pub open spec fn common_len(a: Seq<Seq<char>>, b: Seq<Seq<char>>) -> int {
    if a.len() <= b.len() {
        a.len() as int
    } else {
        b.len() as int
    }
}

/// How many positions, up to the end of the shorter sequence, hold the same
/// symbol in both.
pub open spec fn positional_matches(a: Seq<Seq<char>>, b: Seq<Seq<char>>) -> nat {
    matches_up_to(a, b, common_len(a, b))
}

/// No more positions match than were looked at.
pub proof fn lemma_matches_bounded(a: Seq<Seq<char>>, b: Seq<Seq<char>>, n: int)
    requires
        0 <= n,
    ensures
        matches_up_to(a, b, n) <= n,
    decreases n,
{
    if n > 0 {
        lemma_matches_bounded(a, b, n - 1);
    }
}

/// Every position of a sequence matches itself.
pub proof fn lemma_matches_self(a: Seq<Seq<char>>, n: int)
    requires
        0 <= n,
    ensures
        matches_up_to(a, a, n) == n,
    decreases n,
{
    if n > 0 {
        lemma_matches_self(a, n - 1);
    }
}

/// A text scored against itself gets one point per symbol.
pub proof fn lemma_self_score_is_length(a: Seq<Seq<char>>)
    ensures
        positional_matches(a, a) == a.len(),
{
    lemma_matches_self(a, a.len() as int);
}

/// A score never exceeds the symbol count of either text.
pub proof fn lemma_score_bounded(a: Seq<Seq<char>>, b: Seq<Seq<char>>)
    ensures
        positional_matches(a, b) <= a.len(),
        positional_matches(a, b) <= b.len(),
{
    lemma_matches_bounded(a, b, common_len(a, b));
}

/// Fitness function that simply ignores arguments and returns 1.
///
/// For tests and experiments where you want all individuals to be equally fit.
pub fn fitness_always_1(_target: &str, _offspring: &str) -> (r: usize)
    ensures
        r == 1,
{
    1
}

/// Counts the positions at which two lists of symbols agree, stopping at the
/// end of the shorter list.
pub fn count_matches(target: &Vec<String>, offspring: &Vec<String>) -> (r: usize)
    ensures
        r == positional_matches(symbols_of(target@), symbols_of(offspring@)),
{
    let n: usize = if target.len() <= offspring.len() {
        target.len()
    } else {
        offspring.len()
    };
    let ghost a = symbols_of(target@);
    let ghost b = symbols_of(offspring@);
    let mut fitness: usize = 0;
    let mut i: usize = 0;
    while i < n
        invariant
            0 <= i <= n,
            n == common_len(a, b),
            a == symbols_of(target@),
            b == symbols_of(offspring@),
            fitness == matches_up_to(a, b, i as int),
        decreases n - i,
    {
        proof {
            lemma_matches_bounded(a, b, i as int);
        }
        if target[i] == offspring[i] {
            fitness += 1;
        }
        i += 1;
    }
    fitness
}

/// Traditional fitness function.
///
/// Both `target` and `offspring` are separated into graphemes (no normalization)
/// and compared. For each grapheme of the offspring that is equal to a grapheme
/// in the target, in the same position, a point is awarded.
pub fn fitness_comparison(target: &str, offspring: &str) -> (r: usize)
    ensures
        r == positional_matches(grapheme_seq(target@), grapheme_seq(offspring@)),
{
    let t = graphemes(target);
    let o = graphemes(offspring);
    count_matches(&t, &o)
}

} // verus!
