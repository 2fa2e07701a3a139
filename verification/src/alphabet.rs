//! The alphabet: the distinct symbols that a mutation may put in.

use crate::text::symbols_of;
use vstd::prelude::*;

verus! {

/// The symbols of a sequence without repeats: each one stays where it
/// occurred first.
pub open spec fn first_occurrences(symbols: Seq<Seq<char>>) -> Seq<Seq<char>>
    decreases symbols.len(),
{
    if symbols.len() == 0 {
        Seq::empty()
    } else {
        let before = first_occurrences(symbols.drop_last());
        if before.contains(symbols.last()) {
            before
        } else {
            before.push(symbols.last())
        }
    }
}

/// Removing repeats leaves no symbol twice, and neither adds nor loses a
/// symbol.
pub proof fn lemma_first_occurrences(symbols: Seq<Seq<char>>)
    ensures
        first_occurrences(symbols).no_duplicates(),
        forall|s: Seq<char>| #[trigger]
            first_occurrences(symbols).contains(s) <==> symbols.contains(s),
        first_occurrences(symbols).len() <= symbols.len(),
        first_occurrences(symbols).len() == 0 <==> symbols.len() == 0,
    decreases symbols.len(),
{
    if symbols.len() > 0 {
        let rest = symbols.drop_last();
        let last = symbols.last();
        let before = first_occurrences(rest);
        lemma_first_occurrences(rest);
        let after = first_occurrences(symbols);
        assert forall|s: Seq<char>| #[trigger] after.contains(s) <==> symbols.contains(s) by {
            if symbols.contains(s) {
                let i = choose|i: int| 0 <= i < symbols.len() && symbols[i] == s;
                if i < rest.len() {
                    assert(rest[i] == s);
                    assert(before.contains(s));
                    let j = choose|j: int| 0 <= j < before.len() && before[j] == s;
                    assert(after[j] == s);
                } else {
                    assert(s == last);
                    if !before.contains(last) {
                        assert(after[before.len() as int] == s);
                    }
                }
            }
            if after.contains(s) {
                let j = choose|j: int| 0 <= j < after.len() && after[j] == s;
                if j < before.len() {
                    assert(before[j] == s);
                    assert(before.contains(s));
                    assert(rest.contains(s));
                    let i = choose|i: int| 0 <= i < rest.len() && rest[i] == s;
                    assert(symbols[i] == s);
                } else {
                    assert(symbols[symbols.len() - 1] == s);
                }
            }
        }
        assert(symbols.contains(last)) by {
            assert(symbols[symbols.len() - 1] == last);
        }
    }
}

/// Whether a symbol is among those in the list.
pub fn contains_symbol(symbols: &Vec<String>, symbol: &String) -> (r: bool)
    ensures
        r == symbols_of(symbols@).contains(symbol@),
{
    let mut i: usize = 0;
    while i < symbols.len()
        invariant
            0 <= i <= symbols.len(),
            forall|j: int| 0 <= j < i ==> symbols_of(symbols@)[j] != symbol@,
        decreases symbols.len() - i,
    {
        if symbols[i] == *symbol {
            assert(symbols_of(symbols@)[i as int] == symbol@);
            return true;
        }
        i += 1;
    }
    false
}

/// Drops every symbol that already occurred earlier in the list.
pub fn unique_symbols(symbols: Vec<String>) -> (r: Vec<String>)
    ensures
        symbols_of(r@) == first_occurrences(symbols_of(symbols@)),
{
    let ghost all = symbols_of(symbols@);
    let mut out: Vec<String> = Vec::new();
    let mut i: usize = 0;
    while i < symbols.len()
        invariant
            0 <= i <= symbols.len(),
            all == symbols_of(symbols@),
            symbols_of(out@) == first_occurrences(all.take(i as int)),
        decreases symbols.len() - i,
    {
        proof {
            assert(all.take(i + 1).drop_last() == all.take(i as int));
            assert(all.take(i + 1).last() == symbols[i as int]@);
        }
        if !contains_symbol(&out, &symbols[i]) {
            let ghost before = symbols_of(out@);
            out.push(symbols[i].clone());
            assert(symbols_of(out@) == before.push(symbols[i as int]@));
        }
        i += 1;
    }
    proof {
        assert(all.take(all.len() as int) == all);
    }
    out
}

} // verus!
