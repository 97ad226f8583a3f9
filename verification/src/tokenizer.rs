//! Tokenizer pipelines: simple, stemming and n-gram.

use vstd::prelude::*;
use crate::engine::analysis::{
    analyzer_stages, clone_analyzer, engine_language, ngram_analyzer, pipeline_tokens, run_analyzer,
    simple_analyzer, stemmer_analyzer, tokens_view,
};
use crate::error::Error;
use crate::helpers::{Language, LanguageWrapper, language_for_code};
use crate::model::{Stage, TokenView};
use tantivy::tokenizer::TextAnalyzer;

verus! {

/// The longest token that the simple and the stemming pipeline keep, by the
/// engine's count: the bytes of the token's UTF-8 text.
pub const LONGEST_TOKEN: usize = 40;

/// The length from which on the two pipelines drop a token: the engine's
/// filter keeps the tokens below its limit, so the limit is one above the
/// longest token kept.
pub const TOKEN_LENGTH_LIMIT: usize = LONGEST_TOKEN + 1;

/// A token of a text: its text after every stage, and the byte offsets in the
/// input that it was taken from.
pub struct Token {
    pub text: String,
    pub offset_from: usize,
    pub offset_to: usize,
}

impl View for Token {
    type V = TokenView;

    open spec fn view(&self) -> TokenView {
        TokenView { text: self.text@, from: self.offset_from as int, to: self.offset_to as int }
    }
}

/// The stages of the simple pipeline.
pub open spec fn simple_stages() -> Seq<Stage> {
    seq![Stage::SimpleSplit, Stage::RemoveLong(TOKEN_LENGTH_LIMIT), Stage::LowerCase]
}

/// The stages of the stemming pipeline for a language.
pub open spec fn stemmer_stages(language: Language) -> Seq<Stage> {
    seq![
        Stage::SimpleSplit,
        Stage::RemoveLong(TOKEN_LENGTH_LIMIT),
        Stage::LowerCase,
        Stage::Stem(language),
    ]
}

/// The n-gram sizes that a pipeline can be built for.
pub open spec fn ngram_sizes_valid(min_gram: i64, max_gram: i64) -> bool {
    1 <= min_gram <= max_gram < usize::MAX
}

/// The texts of a sequence of tokens, in order.
pub open spec fn token_texts(tokens: Seq<TokenView>) -> Seq<Seq<char>> {
    tokens.map_values(|token: TokenView| token.text)
}

/// The views of a sequence of strings.
pub open spec fn texts_view(texts: Seq<String>) -> Seq<Seq<char>> {
    texts.map_values(|text: String| text@)
}

/// An ordered pipeline of stages that turns a text into tokens.
pub struct Tokenizer(TextAnalyzer);

impl View for Tokenizer {
    type V = Seq<Stage>;

    closed spec fn view(&self) -> Seq<Stage> {
        analyzer_stages(self.0)
    }
}

impl Clone for Tokenizer {
    /// A second tokenizer of the same stages.
    fn clone(&self) -> (copy: Tokenizer)
        ensures
            copy@ == self@,
    {
        Tokenizer(clone_analyzer(&self.0))
    }
}

impl Tokenizer {
    /// An analyzer of the same stages, for the engine to index with.
    pub fn get_analyzer(&self) -> (analyzer: TextAnalyzer)
        ensures
            analyzer_stages(analyzer) == self@,
    {
        clone_analyzer(&self.0)
    }

    /// The simple pipeline: split on non-alphanumeric characters, drop the
    /// tokens longer than [`LONGEST_TOKEN`], lower-case.
    pub fn new_simple() -> (made: Result<Tokenizer, Error>)
        ensures
            made is Ok,
            made->Ok_0@ == simple_stages(),
    {
        Ok(Tokenizer(simple_analyzer(TOKEN_LENGTH_LIMIT)))
    }

    /// The simple pipeline followed by a stemmer for the language of the
    /// two-letter code; any other code is refused.
    pub fn new_stemmer(language: String) -> (made: Result<Tokenizer, Error>)
        ensures
            match language_for_code(language@) {
                Some(selected) => made is Ok && made->Ok_0@ == stemmer_stages(selected),
                None => made == Err::<Tokenizer, Error>(Error::UnsupportedLanguage),
            },
    {
        match LanguageWrapper::try_from(language) {
            Ok(wrapper) => {
                let engine = engine_language(wrapper.0);
                Ok(Tokenizer(stemmer_analyzer(TOKEN_LENGTH_LIMIT, engine)))
            },
            Err(error) => Err(error),
        }
    }

    /// The pipeline that emits every n-gram of `min_gram` to `max_gram`
    /// characters, or only those at the start of the text. Sizes that are not
    /// positive, not in order or too large to index with are refused.
    pub fn new_ngram(min_gram: i64, max_gram: i64, prefix_only: bool) -> (made: Result<
        Tokenizer,
        Error,
    >)
        ensures
            ngram_sizes_valid(min_gram, max_gram) ==> made is Ok && made->Ok_0@ == seq![
                Stage::Ngram { min: min_gram as usize, max: max_gram as usize, prefix_only },
            ],
            !ngram_sizes_valid(min_gram, max_gram) ==> made == Err::<Tokenizer, Error>(
                Error::ConversionFailure,
            ),
    {
        if min_gram < 1 || min_gram > max_gram {
            return Err(Error::ConversionFailure);
        }
        if max_gram as u64 >= usize::MAX as u64 {
            return Err(Error::ConversionFailure);
        }
        match ngram_analyzer(min_gram as usize, max_gram as usize, prefix_only) {
            Ok(analyzer) => Ok(Tokenizer(analyzer)),
            Err(_) => Err(Error::ConversionFailure),
        }
    }

    /// Runs the pipeline on a text and keeps the text of each token, in order.
    pub fn extract_terms(&self, text: String) -> (terms: Result<Vec<String>, Error>)
        ensures
            terms is Ok,
            texts_view(terms->Ok_0@) == token_texts(pipeline_tokens(self@, text@)),
    {
        let tokens = run_analyzer(&self.0, text.as_str());
        Ok(texts_of(&tokens))
    }
}

/// The text of each token, in order.
pub fn texts_of(tokens: &Vec<Token>) -> (texts: Vec<String>)
    ensures
        texts_view(texts@) == token_texts(tokens_view(tokens@)),
{
    let mut texts: Vec<String> = Vec::new();
    let mut i: usize = 0;
    while i < tokens.len()
        invariant
            i <= tokens.len(),
            texts_view(texts@) == token_texts(tokens_view(tokens@)).take(i as int),
        decreases tokens.len() - i,
    {
        let text = tokens[i].text.clone();
        let ghost before = texts@;
        texts.push(text);
        proof {
            assert(texts_view(texts@) =~= texts_view(before).push(tokens@[i as int].text@));
        }
        i += 1;
    }
    texts
}

} // verus!
