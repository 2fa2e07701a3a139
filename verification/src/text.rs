//! Text as a sequence of user-perceived symbols (grapheme clusters).

use unicode_normalization::UnicodeNormalization;
use unicode_segmentation::UnicodeSegmentation;
use vstd::prelude::*;

verus! {

/// The canonical composition (NFC) of a text, as `unicode_normalization`
/// computes it.
pub uninterp spec fn nfc_of(s: Seq<char>) -> Seq<char>;

/// The extended grapheme clusters of a text in order, as
/// `unicode_segmentation` computes them.
pub uninterp spec fn grapheme_seq(s: Seq<char>) -> Seq<Seq<char>>;

/// The symbols that a list of strings stands for.
pub open spec fn symbols_of(v: Seq<String>) -> Seq<Seq<char>> {
    v.map_values(|s: String| s@)
}

/// The text made of the given symbols, one after the other.
pub open spec fn concat_all(symbols: Seq<Seq<char>>) -> Seq<char>
    decreases symbols.len(),
{
    if symbols.len() == 0 {
        Seq::empty()
    } else {
        concat_all(symbols.drop_last()) + symbols.last()
    }
}

/// Calls `UnicodeNormalization::nfc` on the text and collects the characters
/// it yields. The contract only gives the outcome its name.
#[verifier::external_body]
pub(crate) fn nfc(s: &str) -> (r: String)
    ensures
        r@ == nfc_of(s@),
{
    s.nfc().collect::<String>()
}

/// Calls `UnicodeSegmentation::graphemes` in extended mode and copies every
/// cluster into a `String`. The contract names the outcome and states one
/// fact that the iterator's source shows: the clusters are consecutive
/// slices that cover the whole text.
#[verifier::external_body]
pub(crate) fn graphemes(s: &str) -> (r: Vec<String>)
    ensures
        symbols_of(r@) == grapheme_seq(s@),
        concat_all(symbols_of(r@)) == s@,
{
    s.graphemes(true).map(String::from).collect()
}

/// Appending one symbol to a list appends its characters to the text.
pub proof fn lemma_concat_all_push(symbols: Seq<Seq<char>>, symbol: Seq<char>)
    ensures
        concat_all(symbols.push(symbol)) == concat_all(symbols) + symbol,
{
    assert(symbols.push(symbol).drop_last() == symbols);
}

} // verus!
