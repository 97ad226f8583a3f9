//! Levenshtein automata of the `levenshtein_automata` crate.

use vstd::prelude::*;

verus! {

/// The builder of automata for one edit distance.
#[verifier::external_type_specification]
#[verifier::external_body]
pub struct ExLevenshteinAutomatonBuilder(levenshtein_automata::LevenshteinAutomatonBuilder);

/// An automaton for one term.
#[verifier::external_type_specification]
#[verifier::external_body]
pub struct ExDfa(levenshtein_automata::DFA);

/// The largest edit distance for which building an automaton is reasonable.
pub const MAX_EDITS: u8 = 5;

/// The texts within `max_edits` edits of `term`, where an edit inserts, deletes
/// or substitutes one character or swaps two neighbours.
pub uninterp spec fn edit_language(term: Seq<char>, max_edits: u8) -> Set<Seq<char>>;

/// The texts that an automaton accepts with an exact distance.
pub uninterp spec fn automaton_language(automaton: levenshtein_automata::DFA) -> Set<Seq<char>>;

/// The edit distance that a builder was made for.
pub uninterp spec fn builder_max_edits(
    builder: levenshtein_automata::LevenshteinAutomatonBuilder,
) -> u8;

/// `LevenshteinAutomatonBuilder::new` with transpositions at a cost of one. The
/// builder remembers the distance. The cost of building grows exponentially
/// with the distance, so distances above [`MAX_EDITS`] are left out.
#[verifier::external_body]
pub(crate) fn automaton_builder(max_edits: u8) -> (builder:
    levenshtein_automata::LevenshteinAutomatonBuilder)
    requires
        max_edits <= MAX_EDITS,
    ensures
        builder_max_edits(builder) == max_edits,
{
    levenshtein_automata::LevenshteinAutomatonBuilder::new(max_edits, true)
}

/// `LevenshteinAutomatonBuilder::build_dfa`: the automaton accepts exactly the
/// texts within the builder's distance of `term`.
#[verifier::external_body]
pub(crate) fn build_automaton(
    builder: &levenshtein_automata::LevenshteinAutomatonBuilder,
    term: &str,
) -> (automaton: levenshtein_automata::DFA)
    ensures
        automaton_language(automaton) == edit_language(term@, builder_max_edits(*builder)),
{
    builder.build_dfa(term)
}

/// `DFA::eval`: whether the automaton reports an exact distance for `text`.
#[verifier::external_body]
pub(crate) fn automaton_accepts(automaton: &levenshtein_automata::DFA, text: &str) -> (accepted:
    bool)
    ensures
        accepted == automaton_language(*automaton).contains(text@),
{
    match automaton.eval(text) {
        levenshtein_automata::Distance::Exact(_) => true,
        levenshtein_automata::Distance::AtLeast(_) => false,
    }
}

} // verus!
