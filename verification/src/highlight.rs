//! Fuzzy-aware highlighting: the tokens of a text that match a term are wrapped
//! in a bold marker, and every other byte of the text is passed through.

use vstd::prelude::*;
use vstd::string::*;
use vstd::utf8::*;
use crate::engine::analysis::{
    pipeline_tokens, plain_analyzer, run_analyzer, spans_in_order, tokens_view,
};
use crate::engine::fuzzy::{
    automaton_accepts, automaton_builder, automaton_language, build_automaton, edit_language,
    MAX_EDITS,
};
use crate::text::{ascii_fold, eq_ignore_ascii_case};
use crate::error::Error;
use crate::model::{Stage, TokenView};
use crate::query::Query;
use crate::tokenizer::{texts_view, Token};

verus! {

/// The bytes of `<b>`, which open a highlighted token.
pub open spec fn open_marker() -> Seq<u8> {
    seq![0x3cu8, 0x62u8, 0x3eu8]
}

/// The bytes of `</b>`, which close a highlighted token.
pub open spec fn close_marker() -> Seq<u8> {
    seq![0x3cu8, 0x2fu8, 0x62u8, 0x3eu8]
}

/// The offset at which the text before token `n` begins: the end of the token
/// before it, or the start of the text.
pub open spec fn resume_at(tokens: Seq<TokenView>, n: int) -> int {
    if n <= 0 {
        0
    } else {
        tokens[n - 1].to
    }
}

/// A token's bytes, between the two markers if it is a hit.
pub open spec fn wrapped(piece: Seq<u8>, hit: bool, open: Seq<u8>, close: Seq<u8>) -> Seq<u8> {
    if hit {
        open + piece + close
    } else {
        piece
    }
}

/// The output up to the end of token `n - 1`: for each token in turn, the text
/// since the token before it, then the token itself, wrapped if it is a hit.
pub open spec fn marked_prefix(
    bytes: Seq<u8>,
    tokens: Seq<TokenView>,
    hits: Seq<bool>,
    open: Seq<u8>,
    close: Seq<u8>,
    n: nat,
) -> Seq<u8>
    decreases n,
{
    if n == 0 {
        Seq::empty()
    } else {
        let k = n - 1;
        marked_prefix(bytes, tokens, hits, open, close, k as nat) + bytes.subrange(
            resume_at(tokens, k),
            tokens[k].from,
        ) + wrapped(bytes.subrange(tokens[k].from, tokens[k].to), hits[k], open, close)
    }
}

/// The whole output: the output up to the last token, then the rest of the text.
pub open spec fn marked(
    bytes: Seq<u8>,
    tokens: Seq<TokenView>,
    hits: Seq<bool>,
    open: Seq<u8>,
    close: Seq<u8>,
) -> Seq<u8> {
    marked_prefix(bytes, tokens, hits, open, close, tokens.len()) + bytes.subrange(
        resume_at(tokens, tokens.len() as int),
        bytes.len() as int,
    )
}

/// The number of hits among the first `n` tokens.
pub open spec fn hit_count(hits: Seq<bool>, n: nat) -> nat
    decreases n,
{
    if n == 0 {
        0
    } else {
        hit_count(hits, (n - 1) as nat) + if hits[n - 1] {
            1nat
        } else {
            0nat
        }
    }
}

proof fn lemma_resume_in_bounds(bytes: Seq<u8>, tokens: Seq<TokenView>, n: int)
    requires
        spans_in_order(bytes, tokens),
        0 <= n <= tokens.len(),
    ensures
        0 <= resume_at(tokens, n) <= bytes.len(),
        n < tokens.len() ==> resume_at(tokens, n) <= tokens[n].from,
        valid_utf8(bytes) ==> is_char_boundary(bytes, resume_at(tokens, n)),
{
    if n > 0 {
        let before = tokens[n - 1];
        assert(is_char_boundary(bytes, before.to));
        if n < tokens.len() {
            assert(tokens[n - 1].to <= tokens[n].from);
        }
    } else {
        if valid_utf8(bytes) {
            is_char_boundary_start_end_of_seq(bytes);
        }
        if n < tokens.len() {
            assert(0 <= tokens[n].from);
        }
    }
}

proof fn lemma_unmarked_prefix(bytes: Seq<u8>, tokens: Seq<TokenView>, hits: Seq<bool>, n: nat)
    requires
        spans_in_order(bytes, tokens),
        hits.len() == tokens.len(),
        n <= tokens.len(),
    ensures
        marked_prefix(bytes, tokens, hits, Seq::empty(), Seq::empty(), n) == bytes.subrange(
            0,
            resume_at(tokens, n as int),
        ),
    decreases n,
{
    let none = Seq::<u8>::empty();
    if n > 0 {
        let k = (n - 1) as nat;
        lemma_unmarked_prefix(bytes, tokens, hits, k);
        lemma_resume_in_bounds(bytes, tokens, k as int);
        let token = tokens[k as int];
        let piece = bytes.subrange(token.from, token.to);
        assert(bytes.subrange(0, resume_at(tokens, k as int)) + bytes.subrange(
            resume_at(tokens, k as int),
            token.from,
        ) + piece =~= bytes.subrange(0, token.to));
    } else {
        assert(bytes.subrange(0, 0) =~= none);
    }
}

/// Highlighting only adds markers: with the markers taken to be empty, the
/// output is the input, byte for byte. No token is altered, moved or dropped,
/// and neither is the text between the tokens.
pub proof fn lemma_only_markers_added(bytes: Seq<u8>, tokens: Seq<TokenView>, hits: Seq<bool>)
    requires
        spans_in_order(bytes, tokens),
        hits.len() == tokens.len(),
    ensures
        marked(bytes, tokens, hits, Seq::empty(), Seq::empty()) == bytes,
{
    lemma_unmarked_prefix(bytes, tokens, hits, tokens.len());
    lemma_resume_in_bounds(bytes, tokens, tokens.len() as int);
    let resume = resume_at(tokens, tokens.len() as int);
    assert(bytes.subrange(0, resume) + bytes.subrange(resume, bytes.len() as int) =~= bytes);
}

proof fn lemma_marked_prefix_length(
    bytes: Seq<u8>,
    tokens: Seq<TokenView>,
    hits: Seq<bool>,
    open: Seq<u8>,
    close: Seq<u8>,
    n: nat,
)
    requires
        spans_in_order(bytes, tokens),
        hits.len() == tokens.len(),
        n <= tokens.len(),
    ensures
        marked_prefix(bytes, tokens, hits, open, close, n).len() == resume_at(tokens, n as int)
            + hit_count(hits, n) * (open.len() + close.len()),
    decreases n,
{
    if n > 0 {
        let k = (n - 1) as nat;
        lemma_marked_prefix_length(bytes, tokens, hits, open, close, k);
        lemma_resume_in_bounds(bytes, tokens, k as int);
        let token = tokens[k as int];
        let width = open.len() + close.len();
        let gap = bytes.subrange(resume_at(tokens, k as int), token.from);
        let piece = bytes.subrange(token.from, token.to);
        let shown = wrapped(piece, hits[k as int], open, close);
        let earlier = hit_count(hits, k);
        let total = hit_count(hits, n);
        if hits[k as int] {
            assert(total * width == earlier * width + width) by (nonlinear_arith)
                requires
                    total == earlier + 1,
            ;
        } else {
            assert(total * width == earlier * width) by (nonlinear_arith)
                requires
                    total == earlier,
            ;
        }
        assert(marked_prefix(bytes, tokens, hits, open, close, n).len() == marked_prefix(
            bytes,
            tokens,
            hits,
            open,
            close,
            k,
        ).len() + gap.len() + shown.len());
    } else {
        let width = open.len() + close.len();
        assert(hit_count(hits, n) * width == 0) by (nonlinear_arith)
            requires
                hit_count(hits, n) == 0,
        ;
    }
}

/// The output is as long as the input and the markers of its hits together.
pub proof fn lemma_marked_length(
    bytes: Seq<u8>,
    tokens: Seq<TokenView>,
    hits: Seq<bool>,
    open: Seq<u8>,
    close: Seq<u8>,
)
    requires
        spans_in_order(bytes, tokens),
        hits.len() == tokens.len(),
    ensures
        marked(bytes, tokens, hits, open, close).len() == bytes.len() + hit_count(
            hits,
            tokens.len(),
        ) * (open.len() + close.len()),
{
    lemma_marked_prefix_length(bytes, tokens, hits, open, close, tokens.len());
    lemma_resume_in_bounds(bytes, tokens, tokens.len() as int);
}

proof fn lemma_marked_prefix_without_hits(
    bytes: Seq<u8>,
    tokens: Seq<TokenView>,
    hits: Seq<bool>,
    open: Seq<u8>,
    close: Seq<u8>,
    n: nat,
)
    requires
        hits.len() == tokens.len(),
        n <= tokens.len(),
        forall|i: int| 0 <= i < n ==> !hits[i],
    ensures
        marked_prefix(bytes, tokens, hits, open, close, n) == marked_prefix(
            bytes,
            tokens,
            hits,
            Seq::empty(),
            Seq::empty(),
            n,
        ),
    decreases n,
{
    if n > 0 {
        lemma_marked_prefix_without_hits(bytes, tokens, hits, open, close, (n - 1) as nat);
    }
}

/// A text none of whose tokens is a hit comes out unchanged.
pub proof fn lemma_no_hit_no_change(
    bytes: Seq<u8>,
    tokens: Seq<TokenView>,
    hits: Seq<bool>,
    open: Seq<u8>,
    close: Seq<u8>,
)
    requires
        spans_in_order(bytes, tokens),
        hits.len() == tokens.len(),
        forall|i: int| 0 <= i < tokens.len() ==> !hits[i],
    ensures
        marked(bytes, tokens, hits, open, close) == bytes,
{
    lemma_marked_prefix_without_hits(bytes, tokens, hits, open, close, tokens.len());
    lemma_only_markers_added(bytes, tokens, hits);
}

proof fn lemma_encode_concat(left: Seq<char>, right: Seq<char>)
    ensures
        encode_utf8(left + right) == encode_utf8(left) + encode_utf8(right),
    decreases left.len(),
{
    if left.len() == 0 {
        assert(encode_utf8(left) + encode_utf8(right) =~= encode_utf8(right));
    } else {
        lemma_encode_concat(left.drop_first(), right);
        assert((left + right).drop_first() =~= left.drop_first() + right);
    }
}

proof fn lemma_boundary_in_prefix(bytes: Seq<u8>, from: int, to: int)
    requires
        valid_utf8(bytes),
        0 <= from <= to <= bytes.len(),
        is_char_boundary(bytes, from),
        is_char_boundary(bytes, to),
    ensures
        valid_utf8(bytes.subrange(0, to)),
        is_char_boundary(bytes.subrange(0, to), from),
{
    let head = bytes.subrange(0, to);
    valid_utf8_split(bytes, to);
    if from == to {
        is_char_boundary_start_end_of_seq(head);
    } else if from == 0 {
        is_char_boundary_start_end_of_seq(head);
    } else {
        is_char_boundary_iff_not_is_continuation_byte(bytes, from);
        is_char_boundary_iff_not_is_continuation_byte(head, from);
    }
}

proof fn lemma_marker_bytes()
    ensures
        encode_utf8("<b>"@) == open_marker(),
        encode_utf8("</b>"@) == close_marker(),
{
    reveal_strlit("<b>");
    reveal_strlit("</b>");
    let open = "<b>"@;
    let close = "</b>"@;
    is_ascii_chars_encode_utf8(open);
    is_ascii_chars_encode_utf8(close);
}

fn slice<'a>(text: &'a str, from: usize, to: usize) -> (piece: &'a str)
    requires
        from <= to <= encode_utf8(text@).len(),
        is_char_boundary(encode_utf8(text@), from as int),
        is_char_boundary(encode_utf8(text@), to as int),
    ensures
        encode_utf8(piece@) == encode_utf8(text@).subrange(from as int, to as int),
{
    proof {
        encode_utf8_valid_utf8(text@);
        lemma_boundary_in_prefix(encode_utf8(text@), from as int, to as int);
    }
    let (head, _) = text.split_at(to);
    let (_, piece) = head.split_at(from);
    proof {
        assert(encode_utf8(piece@) =~= encode_utf8(text@).subrange(from as int, to as int));
    }
    piece
}

/// Writes a text out with its hits marked: each token for which `hits` holds
/// `true` stands between `<b>` and `</b>`, and every byte of the text is kept
/// in its place.
pub fn mark_tokens(text: &str, tokens: &Vec<Token>, hits: &Vec<bool>) -> (out: String)
    requires
        hits@.len() == tokens@.len(),
        spans_in_order(encode_utf8(text@), tokens_view(tokens@)),
    ensures
        encode_utf8(out@) == marked(
            encode_utf8(text@),
            tokens_view(tokens@),
            hits@,
            open_marker(),
            close_marker(),
        ),
{
    let ghost bytes = encode_utf8(text@);
    let ghost views = tokens_view(tokens@);
    let mut out = String::new();
    let mut last_pos: usize = 0;
    let mut i: usize = 0;
    proof {
        lemma_marker_bytes();
    }
    while i < tokens.len()
        invariant
            i <= tokens.len(),
            hits@.len() == tokens@.len(),
            bytes == encode_utf8(text@),
            views == tokens_view(tokens@),
            spans_in_order(bytes, views),
            last_pos == resume_at(views, i as int),
            encode_utf8(out@) == marked_prefix(
                bytes,
                views,
                hits@,
                open_marker(),
                close_marker(),
                i as nat,
            ),
            encode_utf8("<b>"@) == open_marker(),
            encode_utf8("</b>"@) == close_marker(),
        decreases tokens.len() - i,
    {
        let start = tokens[i].offset_from;
        let end = tokens[i].offset_to;
        proof {
            encode_utf8_valid_utf8(text@);
            lemma_resume_in_bounds(bytes, views, i as int);
        }
        let ghost before = out@;
        let gap = slice(text, last_pos, start);
        let word = slice(text, start, end);
        out.append(gap);
        proof {
            lemma_encode_concat(before, gap@);
        }
        if hits[i] {
            let ghost with_gap = out@;
            out.append("<b>");
            let ghost with_open = out@;
            out.append(word);
            let ghost with_word = out@;
            out.append("</b>");
            proof {
                lemma_encode_concat(with_gap, "<b>"@);
                lemma_encode_concat(with_open, word@);
                lemma_encode_concat(with_word, "</b>"@);
            }
        } else {
            let ghost with_gap = out@;
            out.append(word);
            proof {
                lemma_encode_concat(with_gap, word@);
            }
        }
        last_pos = end;
        i += 1;
    }
    proof {
        encode_utf8_valid_utf8(text@);
        lemma_resume_in_bounds(bytes, views, tokens.len() as int);
        is_char_boundary_start_end_of_seq(bytes);
    }
    let ghost before = out@;
    let rest = slice(text, last_pos, text.as_bytes().len());
    out.append(rest);
    proof {
        lemma_encode_concat(before, rest@);
    }
    out
}

/// The pipeline that highlighting reads a text with.
pub open spec fn highlight_stages() -> Seq<Stage> {
    seq![Stage::SimpleSplit, Stage::LowerCase]
}

/// Whether a token matches a term: the two are equal but for the case of their
/// ASCII letters, or the token is within `max_edits` edits of the term.
pub open spec fn term_matches(token: Seq<char>, term: Seq<char>, max_edits: u8) -> bool {
    ascii_fold(token) == ascii_fold(term) || edit_language(term, max_edits).contains(token)
}

/// Whether a token matches one of the first `n` terms.
pub open spec fn hit_among(token: Seq<char>, terms: Seq<Seq<char>>, max_edits: u8, n: int) -> bool {
    exists|j: int| 0 <= j < n && term_matches(token, #[trigger] terms[j], max_edits)
}

/// Whether a token matches any of the terms.
pub open spec fn token_hit(token: Seq<char>, terms: Seq<Seq<char>>, max_edits: u8) -> bool {
    hit_among(token, terms, max_edits, terms.len() as int)
}

/// For each token, whether it matches any of the terms.
pub open spec fn hits_of(tokens: Seq<TokenView>, terms: Seq<Seq<char>>, max_edits: u8) -> Seq<
    bool,
> {
    Seq::new(tokens.len(), |i: int| token_hit(tokens[i].text, terms, max_edits))
}

/// The bytes of a highlighted text: the tokens of the text that match a term,
/// each between the two markers, and the rest of the text as it is.
pub open spec fn highlighted(text: Seq<char>, terms: Seq<Seq<char>>, max_edits: u8) -> Seq<u8> {
    let tokens = pipeline_tokens(highlight_stages(), text);
    marked(
        encode_utf8(text),
        tokens,
        hits_of(tokens, terms, max_edits),
        open_marker(),
        close_marker(),
    )
}

/// Whether a fuzzy distance is one that highlighting accepts.
pub open spec fn distance_in_range(fuzzy_distance: i64) -> bool {
    0 <= fuzzy_distance <= MAX_EDITS
}

fn matches_any(
    token: &str,
    terms: &Vec<String>,
    automata: &Vec<levenshtein_automata::DFA>,
    Ghost(max_edits): Ghost<u8>,
) -> (hit: bool)
    requires
        automata@.len() == terms@.len(),
        forall|j: int|
            0 <= j < terms@.len() ==> automaton_language(#[trigger] automata@[j]) == edit_language(
                terms@[j]@,
                max_edits,
            ),
    ensures
        hit == token_hit(token@, texts_view(terms@), max_edits),
{
    let ghost views = texts_view(terms@);
    let mut j: usize = 0;
    while j < terms.len()
        invariant
            j <= terms.len(),
            automata@.len() == terms@.len(),
            views == texts_view(terms@),
            forall|k: int|
                0 <= k < terms@.len() ==> automaton_language(#[trigger] automata@[k])
                    == edit_language(terms@[k]@, max_edits),
            !hit_among(token@, views, max_edits, j as int),
        decreases terms.len() - j,
    {
        let term = terms[j].as_str();
        proof {
            assert(views[j as int] == terms@[j as int]@);
        }
        if eq_ignore_ascii_case(token, term) || automaton_accepts(&automata[j], token) {
            proof {
                assert(term_matches(token@, views[j as int], max_edits));
            }
            return true;
        }
        proof {
            assert(!term_matches(token@, views[j as int], max_edits));
        }
        j += 1;
    }
    false
}

impl Query {
    /// Marks in `text` every token that matches one of `terms`, exactly but for
    /// ASCII case or within `fuzzy_distance` edits. A distance below zero or above
    /// [`MAX_EDITS`] is refused.
    pub fn highlight(text: String, terms: Vec<String>, fuzzy_distance: i64) -> (out: Result<
        String,
        Error,
    >)
        ensures
            !distance_in_range(fuzzy_distance) ==> out == Err::<String, Error>(
                Error::ConversionFailure,
            ),
            distance_in_range(fuzzy_distance) ==> out is Ok && encode_utf8(out->Ok_0@) == highlighted(
                text@,
                texts_view(terms@),
                fuzzy_distance as u8,
            ),
            distance_in_range(fuzzy_distance) ==> spans_in_order(
                encode_utf8(text@),
                pipeline_tokens(highlight_stages(), text@),
            ),
            distance_in_range(fuzzy_distance) ==> encode_utf8(out->Ok_0@).len() == encode_utf8(
                text@,
            ).len() + 7 * hit_count(
                hits_of(
                    pipeline_tokens(highlight_stages(), text@),
                    texts_view(terms@),
                    fuzzy_distance as u8,
                ),
                pipeline_tokens(highlight_stages(), text@).len(),
            ),
    {
        if fuzzy_distance < 0 || fuzzy_distance > MAX_EDITS as i64 {
            return Err(Error::ConversionFailure);
        }
        let max_edits = fuzzy_distance as u8;
        let analyzer = plain_analyzer();
        let tokens = run_analyzer(&analyzer, text.as_str());
        let builder = automaton_builder(max_edits);
        let mut automata: Vec<levenshtein_automata::DFA> = Vec::new();
        let mut j: usize = 0;
        while j < terms.len()
            invariant
                j <= terms.len(),
                automata@.len() == j,
                crate::engine::fuzzy::builder_max_edits(builder) == max_edits,
                forall|k: int|
                    0 <= k < j ==> automaton_language(#[trigger] automata@[k]) == edit_language(
                        terms@[k]@,
                        max_edits,
                    ),
            decreases terms.len() - j,
        {
            let automaton = build_automaton(&builder, terms[j].as_str());
            automata.push(automaton);
            j += 1;
        }
        let ghost views = tokens_view(tokens@);
        let ghost term_views = texts_view(terms@);
        let mut hits: Vec<bool> = Vec::new();
        let mut i: usize = 0;
        while i < tokens.len()
            invariant
                i <= tokens.len(),
                hits@.len() == i,
                views == tokens_view(tokens@),
                term_views == texts_view(terms@),
                automata@.len() == terms@.len(),
                forall|k: int|
                    0 <= k < terms@.len() ==> automaton_language(#[trigger] automata@[k])
                        == edit_language(terms@[k]@, max_edits),
                forall|k: int|
                    0 <= k < i ==> hits@[k] == token_hit(views[k].text, term_views, max_edits),
            decreases tokens.len() - i,
        {
            let hit = matches_any(tokens[i].text.as_str(), &terms, &automata, Ghost(max_edits));
            proof {
                assert(views[i as int].text == tokens@[i as int].text@);
            }
            hits.push(hit);
            i += 1;
        }
        proof {
            assert(hits@ =~= hits_of(views, term_views, max_edits));
            lemma_marked_length(encode_utf8(text@), views, hits@, open_marker(), close_marker());
        }
        Ok(mark_tokens(text.as_str(), &tokens, &hits))
    }
}

} // verus!
