//! The breeder: one round of copying with mutations, scoring and selection.

use crate::alphabet::{first_occurrences, lemma_first_occurrences, unique_symbols};
use crate::fitness::fitness_always_1;
use crate::percentage::{steps_of, Percentage, DENOMINATOR};
use crate::random::{choose_from_iter, choose_from_slice, draw_in_range};
use crate::text::{concat_all, grapheme_seq, graphemes, lemma_concat_all_push, nfc, nfc_of, symbols_of};
use rand::rngs::StdRng;
use vstd::prelude::*;
use vstd::string::StringExecFns;

verus! {

/// Custom error for breeder-related things.
#[derive(Debug, Clone)]
pub struct BreedingError {
    pub msg: String,
}

/// Represents an offspring, which contains the text itself and a calculated
/// fitness in relation to the target.
struct Offspring {
    text: String,
    fitness: usize,
}

/// A struct to "breed" sentences. It owns its random source, and is not
/// cloned: two breeders never draw from the same stream.
#[derive(Debug)]
pub struct Breeder<F> where F: Fn(&str, &str) -> usize {
    rng: StdRng,
    alphabet: Vec<String>,
    target: String,
    offspring_per_generation: usize,
    mutation_rate: u64,
    fitness_function: F,
}

/// Whether a draw between one step and the whole calls for a mutation at
/// a rate of so many whole steps: the draw is at most the rate.
pub open spec fn mutates(draw: u64, rate: u64) -> bool {
    draw <= rate
}

/// What a copy may hold at one position: the parent's symbol, unless every
/// draw mutates, or a symbol of the alphabet, unless no draw does.
pub open spec fn symbol_allowed(
    out: Seq<char>,
    original: Seq<char>,
    alphabet: Seq<Seq<char>>,
    rate: u64,
) -> bool {
    ||| (rate < DENOMINATOR && out == original)
    ||| (rate >= 1 && alphabet.contains(out))
}

/// The symbols of a copy, against the symbols of its parent: as many, and
/// each one allowed at its position.
pub open spec fn is_mutated_copy(
    symbols: Seq<Seq<char>>,
    parent: Seq<Seq<char>>,
    alphabet: Seq<Seq<char>>,
    rate: u64,
) -> bool {
    &&& symbols.len() == parent.len()
    &&& forall|i: int|
        0 <= i < parent.len() ==> symbol_allowed(#[trigger] symbols[i], parent[i], alphabet, rate)
}

/// A text is an offspring of a parent, given by its symbols, if it is made
/// of a mutated copy of those symbols.
pub open spec fn is_offspring_of(
    text: Seq<char>,
    parent: Seq<Seq<char>>,
    alphabet: Seq<Seq<char>>,
    rate: u64,
) -> bool {
    exists|symbols: Seq<Seq<char>>|
        is_mutated_copy(symbols, parent, alphabet, rate) && #[trigger] concat_all(symbols) == text
}

/// The fitness function gave this score to this text against this target.
pub open spec fn scored_by<F: Fn(&str, &str) -> usize>(
    f: F,
    target: Seq<char>,
    text: Seq<char>,
    score: usize,
) -> bool {
    exists|t: &str, c: &str| t@ == target && c@ == text && #[trigger] call_ensures(f, (t, c), score)
}

/// Among the candidates of a round, in the order they were made, the one at
/// `k` has the highest score, and is the earliest that has it.
pub open spec fn earliest_best(candidates: Seq<(Seq<char>, usize)>, k: int) -> bool {
    &&& 0 <= k < candidates.len()
    &&& forall|j: int| 0 <= j < candidates.len() ==> (#[trigger] candidates[j]).1 <= candidates[k].1
    &&& forall|j: int| 0 <= j < k ==> (#[trigger] candidates[j]).1 < candidates[k].1
}

/// Tells whether a draw calls for a mutation at the given rate.
pub fn should_mutate(draw: u64, rate: u64) -> (r: bool)
    ensures
        r == mutates(draw, rate),
{
    draw <= rate
}

/// Tells whether a new candidate takes the champion's place: only with a
/// strictly higher score.
pub fn replaces_champion(champion_fitness: usize, candidate_fitness: usize) -> (r: bool)
    ensures
        r == (candidate_fitness > champion_fitness),
{
    candidate_fitness > champion_fitness
}

/// Helper function to create the new individual.
fn do_breed<F>(
    rng: &mut StdRng,
    alphabet: &Vec<String>,
    mutation_rate: u64,
    target: &str,
    individual: &str,
    fitness_function: &F,
) -> (r: Offspring) where F: Fn(&str, &str) -> usize
    requires
        alphabet.len() > 0,
        forall|t: &str, c: &str| #[trigger] call_requires(*fitness_function, (t, c)),
    ensures
        is_offspring_of(
            r.text@,
            grapheme_seq(individual@),
            symbols_of(alphabet@),
            mutation_rate,
        ),
        mutation_rate == 0 ==> r.text@ == individual@,
        scored_by(*fitness_function, target@, r.text@, r.fitness),
{
    let parent = graphemes(individual);
    let ghost original = symbols_of(parent@);
    let ghost letters = symbols_of(alphabet@);
    let ghost mut symbols: Seq<Seq<char>> = Seq::empty();
    let mut text = String::new();
    let mut i: usize = 0;
    while i < parent.len()
        invariant
            0 <= i <= parent.len(),
            alphabet.len() > 0,
            original == symbols_of(parent@),
            letters == symbols_of(alphabet@),
            symbols.len() == i,
            forall|j: int|
                0 <= j < i ==> symbol_allowed(
                    #[trigger] symbols[j],
                    original[j],
                    letters,
                    mutation_rate,
                ),
            text@ == concat_all(symbols),
            mutation_rate == 0 ==> symbols == original.take(i as int),
        decreases parent.len() - i,
    {
        let draw = draw_in_range(rng, 1, DENOMINATOR);
        let ghost before = symbols;
        if should_mutate(draw, mutation_rate) {
            match choose_from_iter(rng, alphabet) {
                Some(letter) => {
                    proof {
                        let k = choose|k: int| 0 <= k < alphabet@.len() && alphabet@[k] == *letter;
                        assert(letters[k] == letter@);
                        symbols = symbols.push(letter@);
                    }
                    text.append(letter.as_str());
                },
                None => {
                    // Only an empty alphabet has nothing to offer.
                    proof {
                        symbols = symbols.push(original[i as int]);
                    }
                    text.append(parent[i].as_str());
                },
            }
        } else {
            proof {
                symbols = symbols.push(original[i as int]);
            }
            text.append(parent[i].as_str());
        }
        proof {
            lemma_concat_all_push(before, symbols.last());
            assert(original.take(i as int).push(original[i as int]) == original.take(i + 1));
        }
        i += 1;
    }
    proof {
        assert(original.take(original.len() as int) == original);
        assert(is_mutated_copy(symbols, grapheme_seq(individual@), letters, mutation_rate));
    }
    let fitness = fitness_function(target, text.as_str());
    Offspring { text, fitness }
}

/// The candidates of one round and the place of its champion: as many
/// candidates as the breeder makes per round, each an offspring of the parent
/// with the score the fitness function gave it, and the champion the earliest
/// of the best.
pub open spec fn is_round<F: Fn(&str, &str) -> usize>(
    candidates: Seq<(Seq<char>, usize)>,
    k: int,
    parent: Seq<char>,
    alphabet: Seq<Seq<char>>,
    rate: u64,
    target: Seq<char>,
    f: F,
) -> bool {
    &&& earliest_best(candidates, k)
    &&& forall|j: int|
        0 <= j < candidates.len() ==> {
            &&& is_offspring_of((#[trigger] candidates[j]).0, grapheme_seq(parent), alphabet, rate)
            &&& scored_by(f, target, candidates[j].0, candidates[j].1)
            &&& (rate == 0 ==> candidates[j].0 == parent)
        }
}

impl<F> Breeder<F> where F: Fn(&str, &str) -> usize {
    /// The symbols of the alphabet.
    pub closed spec fn alphabet_symbols(&self) -> Seq<Seq<char>> {
        symbols_of(self.alphabet@)
    }

    /// The target phrase.
    pub closed spec fn target_text(&self) -> Seq<char> {
        self.target@
    }

    /// How many offspring are made each generation.
    pub closed spec fn population(&self) -> usize {
        self.offspring_per_generation
    }

    /// The mutation rate, in whole steps.
    pub closed spec fn rate(&self) -> u64 {
        self.mutation_rate
    }

    /// The fitness function.
    pub closed spec fn strategy(&self) -> F {
        self.fitness_function
    }

    /// A breeder has a non-empty alphabet without repeats, makes at least one
    /// offspring per generation, mutates at a rate of at most the whole, and
    /// its fitness function accepts every pair of texts.
    pub open spec fn wf(&self) -> bool {
        &&& self.alphabet_symbols().len() > 0
        &&& self.alphabet_symbols().no_duplicates()
        &&& self.population() >= 1
        &&& self.rate() <= DENOMINATOR
        &&& forall|t: &str, c: &str| #[trigger] call_requires(self.strategy(), (t, c))
    }

    /// Everything but the state of the random source is as in `other`.
    pub open spec fn same_setup(&self, other: &Self) -> bool {
        &&& self.alphabet_symbols() == other.alphabet_symbols()
        &&& self.target_text() == other.target_text()
        &&& self.population() == other.population()
        &&& self.rate() == other.rate()
        &&& self.strategy() == other.strategy()
    }

    /// Create a new Breeder.
    ///
    /// `rng` is the random number generator. `target` is the target phrase we
    /// wish to reach. `alphabet` is a string containing all graphemes that
    /// will be used to create offspring. `offspring_per_generation` says how
    /// many offspring will be made each generation. `mutation_rate` indicates
    /// the probability that, during copy, a random mutation will occur (a
    /// random grapheme be selected from the alphabet, instead of a copy).
    /// `fitness_function` is a function that determines the fitness of the
    /// offspring; it receives the target string and the offspring to
    /// evaluate, in that order.
    ///
    /// The alphabet will be NFC-normalized, separated by grapheme clusters,
    /// and repeated graphemes will be eliminated. An alphabet without any
    /// grapheme is refused.
    pub fn new(
        rng: StdRng,
        target: String,
        alphabet: &str,
        offspring_per_generation: usize,
        mutation_rate: Percentage,
        fitness_function: F,
    ) -> (r: Result<Self, BreedingError>)
        requires
            offspring_per_generation >= 1,
            forall|t: &str, c: &str| #[trigger] call_requires(fitness_function, (t, c)),
        ensures
            r is Err <==> grapheme_seq(nfc_of(alphabet@)).len() == 0,
            r matches Ok(b) ==> {
                &&& b.wf()
                &&& b.alphabet_symbols() == first_occurrences(grapheme_seq(nfc_of(alphabet@)))
                &&& b.target_text() == target@
                &&& b.population() == offspring_per_generation
                &&& b.rate() == steps_of(mutation_rate@)
                &&& b.strategy() == fitness_function
            },
            r matches Err(e) ==> e.msg@ == "alphabet is empty"@,
    {
        let normalized = nfc(alphabet);
        let pieces = graphemes(normalized.as_str());
        proof {
            lemma_first_occurrences(symbols_of(pieces@));
        }
        let alphabet = unique_symbols(pieces);
        if alphabet.len() == 0 {
            return Err(BreedingError { msg: String::from_str("alphabet is empty") });
        }
        Ok(
            Self {
                rng,
                alphabet,
                target,
                offspring_per_generation,
                mutation_rate: mutation_rate.steps(),
                fitness_function,
            },
        )
    }

    /// Get this Breeder's alphabet.
    pub fn alphabet(&self) -> (r: &[String])
        ensures
            symbols_of(r@) == self.alphabet_symbols(),
    {
        self.alphabet.as_slice()
    }

    /// Get this Breeder's target.
    pub fn target(&self) -> (r: &str)
        ensures
            r@ == self.target_text(),
    {
        self.target.as_str()
    }

    /// Do a breeding round, based on the graphemes of the `individual`.
    ///
    /// No normalization is made of the individual. The round makes as many
    /// candidates as the breeder's population says and returns the earliest
    /// of those with the highest score.
    pub fn breed(&mut self, individual: &str) -> (r: (String, usize))
        requires
            old(self).wf(),
        ensures
            final(self).wf(),
            final(self).same_setup(old(self)),
            is_offspring_of(
                r.0@,
                grapheme_seq(individual@),
                old(self).alphabet_symbols(),
                old(self).rate(),
            ),
            scored_by(old(self).strategy(), old(self).target_text(), r.0@, r.1),
            old(self).rate() == 0 ==> r.0@ == individual@ && scored_by(
                old(self).strategy(),
                old(self).target_text(),
                individual@,
                r.1,
            ),
            exists|candidates: Seq<(Seq<char>, usize)>, k: int|
                {
                    &&& #[trigger] is_round(
                        candidates,
                        k,
                        individual@,
                        old(self).alphabet_symbols(),
                        old(self).rate(),
                        old(self).target_text(),
                        old(self).strategy(),
                    )
                    &&& candidates.len() == old(self).population()
                    &&& candidates[k] == (r.0@, r.1)
                },
    {
        let mut current_offspring: usize = 1;
        assert(self.strategy() == self.fitness_function);
        let mut winner = do_breed(
            &mut self.rng,
            &self.alphabet,
            self.mutation_rate,
            self.target.as_str(),
            individual,
            &self.fitness_function,
        );
        let ghost mut candidates: Seq<(Seq<char>, usize)> = seq![(winner.text@, winner.fitness)];
        assert(self.alphabet_symbols().len() > 0);
        assert(self.alphabet_symbols().no_duplicates());
        assert(self.population() >= 1);
        assert(self.rate() <= DENOMINATOR);
        assert(self.strategy() == old(self).strategy());
        assert(forall|t: &str, c: &str| #[trigger] call_requires(self.strategy(), (t, c)));
        let ghost mut k: int = 0;
        while current_offspring < self.offspring_per_generation
            invariant
                1 <= current_offspring <= self.offspring_per_generation,
                self.same_setup(old(self)),
                self.wf(),
                candidates.len() == current_offspring,
                is_round(
                    candidates,
                    k,
                    individual@,
                    self.alphabet_symbols(),
                    self.rate(),
                    self.target_text(),
                    self.strategy(),
                ),
                candidates[k] == (winner.text@, winner.fitness),
            decreases self.offspring_per_generation - current_offspring,
        {
            let candidate = do_breed(
                &mut self.rng,
                &self.alphabet,
                self.mutation_rate,
                self.target.as_str(),
                individual,
                &self.fitness_function,
            );
            proof {
                candidates = candidates.push((candidate.text@, candidate.fitness));
            }
            if replaces_champion(winner.fitness, candidate.fitness) {
                proof {
                    k = candidates.len() - 1;
                }
                winner = candidate;
            }
            current_offspring += 1;
        }
        (winner.text, winner.fitness)
    }

    /// Create an iterator that automates breeding rounds. Returns the iterator
    /// and a random string grapheme-length equal to the Breeder's target,
    /// to be used as "generation 0".
    ///
    /// `target_fitness` allows to optionally set an iteration limit. If Some,
    /// iteration will cease when we get an individual of at least this target
    /// fitness; you probably want this to be the fitness of the target
    /// related to itself (`fitness_function(target, target)`). If None, the
    /// iterations will continue forever.
    pub fn iter<'b>(&'b mut self, target_fitness: Option<usize>) -> (r: (
        BreedingIterator<'b, F>,
        String,
    ))
        requires
            old(self).wf(),
        ensures
            r.0.wf(),
            r.0.breeder().same_setup(old(self)),
            r.0.target_fitness() == target_fitness,
            !r.0.ended(),
            r.0.current() == r.1@,
            is_seed(
                r.1@,
                grapheme_seq(old(self).target_text()).len(),
                old(self).alphabet_symbols(),
            ),
    {
        let graphemes_in_target = graphemes(self.target.as_str()).len();
        let ghost letters = symbols_of(self.alphabet@);
        let ghost mut symbols: Seq<Seq<char>> = Seq::empty();
        let mut seed = String::new();
        let mut i: usize = 0;
        while i < graphemes_in_target
            invariant
                0 <= i <= graphemes_in_target,
                self.same_setup(old(self)),
                self.wf(),
                letters == symbols_of(self.alphabet@),
                symbols.len() == i,
                forall|j: int| 0 <= j < i ==> letters.contains(#[trigger] symbols[j]),
                seed@ == concat_all(symbols),
            decreases graphemes_in_target - i,
        {
            match choose_from_slice(&mut self.rng, &self.alphabet) {
                Some(letter) => {
                    proof {
                        let k = choose|k: int|
                            0 <= k < self.alphabet@.len() && self.alphabet@[k] == *letter;
                        assert(letters[k] == letter@);
                        lemma_concat_all_push(symbols, letter@);
                        symbols = symbols.push(letter@);
                    }
                    seed.append(letter.as_str());
                },
                None => {},
            }
            i += 1;
        }
        let current_individual = seed.clone();
        (BreedingIterator { breeder: self, target_fitness, ended: false, current_individual }, seed)
    }
}

/// A text made of `n` symbols of the alphabet.
pub open spec fn is_seed(text: Seq<char>, n: nat, alphabet: Seq<Seq<char>>) -> bool {
    exists|symbols: Seq<Seq<char>>|
        {
            &&& symbols.len() == n
            &&& forall|i: int| 0 <= i < n ==> alphabet.contains(#[trigger] symbols[i])
            &&& #[trigger] concat_all(symbols) == text
        }
}

/// Whether a score ends the iteration: there is a target fitness, and the
/// score is at least that.
pub open spec fn reaches(target_fitness: Option<usize>, fitness: usize) -> bool {
    target_fitness matches Some(t) && fitness >= t
}

/// Tells whether a score ends the iteration.
pub fn reaches_target(target_fitness: Option<usize>, fitness: usize) -> (r: bool)
    ensures
        r == reaches(target_fitness, fitness),
{
    match target_fitness {
        Some(target) => fitness >= target,
        None => false,
    }
}

/// Iterator to automate breeding rounds.
///
/// Use [Breeder's `iter()` method](Breeder::iter()) to create one.
#[derive(Debug)]
pub struct BreedingIterator<'b, F> where F: Fn(&str, &str) -> usize {
    breeder: &'b mut Breeder<F>,
    target_fitness: Option<usize>,
    ended: bool,
    current_individual: String,
}

impl<'b, F> BreedingIterator<'b, F> where F: Fn(&str, &str) -> usize {
    /// The breeder that the iterator holds, as it is now.
    pub closed spec fn breeder(&self) -> Breeder<F> {
        *self.breeder
    }

    /// The fitness at which the iteration ends, if any.
    pub closed spec fn target_fitness(&self) -> Option<usize> {
        self.target_fitness
    }

    /// Whether the iteration has ended.
    pub closed spec fn ended(&self) -> bool {
        self.ended
    }

    /// The parent of the next round.
    pub closed spec fn current(&self) -> Seq<char> {
        self.current_individual@
    }

    /// The iterator's breeder is well formed.
    pub open spec fn wf(&self) -> bool {
        self.breeder().wf()
    }

    /// Runs one breeding round on the current individual, makes the winner
    /// the current individual and hands it out with its fitness. Once a
    /// winner has reached the target fitness, every later call gives `None`.
    pub fn next(&mut self) -> (r: Option<(String, usize)>)
        requires
            old(self).wf(),
        ensures
            final(self).wf(),
            final(self).breeder().same_setup(&old(self).breeder()),
            final(self).target_fitness() == old(self).target_fitness(),
            r is None <==> old(self).ended(),
            old(self).ended() ==> final(self).ended() && final(self).current() == old(
                self,
            ).current(),
            r matches Some(item) ==> {
                &&& is_offspring_of(
                    item.0@,
                    grapheme_seq(old(self).current()),
                    old(self).breeder().alphabet_symbols(),
                    old(self).breeder().rate(),
                )
                &&& scored_by(
                    old(self).breeder().strategy(),
                    old(self).breeder().target_text(),
                    item.0@,
                    item.1,
                )
                &&& (old(self).breeder().rate() == 0 ==> item.0@ == old(self).current())
                &&& final(self).current() == item.0@
                &&& final(self).ended() == reaches(old(self).target_fitness(), item.1)
            },
            old(self).target_fitness() is None && !old(self).ended() ==> !final(self).ended(),
    {
        if self.ended {
            return None;
        }
        let (offspring, fitness) = self.breeder.breed(self.current_individual.as_str());
        self.current_individual = offspring.clone();
        if reaches_target(self.target_fitness, fitness) {
            self.ended = true;
        }
        Some((offspring, fitness))
    }
}

/// With the whole as mutation rate and an alphabet of one symbol, an
/// offspring is that symbol, once for each symbol of its parent.
pub proof fn lemma_full_mutation_single_symbol(
    text: Seq<char>,
    parent: Seq<Seq<char>>,
    symbol: Seq<char>,
)
    requires
        is_offspring_of(text, parent, seq![symbol], DENOMINATOR),
    ensures
        text == concat_all(Seq::new(parent.len(), |i: int| symbol)),
{
    let symbols = choose|symbols: Seq<Seq<char>>|
        is_mutated_copy(symbols, parent, seq![symbol], DENOMINATOR) && #[trigger] concat_all(
            symbols,
        ) == text;
    let all = Seq::new(parent.len(), |i: int| symbol);
    assert forall|i: int| 0 <= i < symbols.len() implies symbols[i] == all[i] by {
        assert(symbol_allowed(symbols[i], parent[i], seq![symbol], DENOMINATOR));
        assert(seq![symbol].contains(symbols[i]));
    }
    assert(symbols == all);
}

/// Without mutations, a mutated copy is the parent itself.
pub proof fn lemma_no_mutation_keeps_symbols(
    symbols: Seq<Seq<char>>,
    parent: Seq<Seq<char>>,
    alphabet: Seq<Seq<char>>,
)
    requires
        is_mutated_copy(symbols, parent, alphabet, 0),
    ensures
        symbols == parent,
{
    assert forall|i: int| 0 <= i < symbols.len() implies symbols[i] == parent[i] by {
        assert(symbol_allowed(symbols[i], parent[i], alphabet, 0));
    }
    assert(symbols == parent);
}

/// Cutting an offspring into symbols gives as many symbols as its parent
/// has, wherever the cut finds again the symbols that the offspring was made
/// of. `cut` stands for the symbols that the text is cut into.
pub proof fn lemma_offspring_keeps_symbol_count(
    text: Seq<char>,
    cut: Seq<Seq<char>>,
    parent: Seq<Seq<char>>,
    alphabet: Seq<Seq<char>>,
    rate: u64,
)
    requires
        is_offspring_of(text, parent, alphabet, rate),
        forall|symbols: Seq<Seq<char>>|
            is_mutated_copy(symbols, parent, alphabet, rate) && #[trigger] concat_all(symbols)
                == text ==> cut == symbols,
    ensures
        cut.len() == parent.len(),
{
    let symbols = choose|symbols: Seq<Seq<char>>|
        is_mutated_copy(symbols, parent, alphabet, rate) && #[trigger] concat_all(symbols) == text;
    assert(cut == symbols);
}

/// The strategy that ignores its arguments scores every text with one.
pub proof fn lemma_constant_strategy_scores_one(target: Seq<char>, text: Seq<char>, score: usize)
    requires
        scored_by(fitness_always_1, target, text, score),
    ensures
        score == 1,
{
}

} // verus!
