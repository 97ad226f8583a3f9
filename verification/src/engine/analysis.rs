//! Tokenizer pipelines of the engine.

use vstd::prelude::*;
use vstd::utf8::*;
use crate::helpers::Language;
use crate::model::{Stage, TokenView};
use crate::tokenizer::Token;
use tantivy::tokenizer::Language as EngineLanguage;
use tantivy::tokenizer::TextAnalyzer;

verus! {

/// The engine's analyzer: a tokenizer and its filters.
#[verifier::external_type_specification]
#[verifier::external_body]
pub struct ExTextAnalyzer(TextAnalyzer);

/// The engine's stemmer languages.
#[verifier::external_type_specification]
#[verifier::external_body]
pub struct ExLanguage(EngineLanguage);

/// The stages that an analyzer was built from, in order.
pub uninterp spec fn analyzer_stages(analyzer: TextAnalyzer) -> Seq<Stage>;

/// The tokens that a pipeline of these stages makes of a text.
pub uninterp spec fn pipeline_tokens(stages: Seq<Stage>, text: Seq<char>) -> Seq<TokenView>;

/// The views of a sequence of tokens.
pub open spec fn tokens_view(tokens: Seq<Token>) -> Seq<TokenView> {
    tokens.map_values(|token: Token| token@)
}

/// Tokens that lie in the text one after the other: every span is within the
/// text, starts and ends between two characters, and ends before the next starts.
pub open spec fn spans_in_order(bytes: Seq<u8>, tokens: Seq<TokenView>) -> bool {
    &&& forall|i: int|
        0 <= i < tokens.len() ==> {
            &&& 0 <= (#[trigger] tokens[i]).from <= tokens[i].to <= bytes.len()
            &&& is_char_boundary(bytes, tokens[i].from)
            &&& is_char_boundary(bytes, tokens[i].to)
        }
    &&& forall|i: int, j: int|
        0 <= i < j < tokens.len() ==> (#[trigger] tokens[i]).to <= (#[trigger] tokens[j]).from
}

/// Whether a pipeline begins by splitting on non-alphanumeric characters.
pub open spec fn splits_first(stages: Seq<Stage>) -> bool {
    stages.len() > 0 && stages[0] == Stage::SimpleSplit
}

/// `TextAnalyzer::builder` on a `SimpleTokenizer`, with `RemoveLongFilter::limit`
/// and `LowerCaser`: split, drop tokens that reach `limit` bytes, lower-case.
#[verifier::external_body]
pub(crate) fn simple_analyzer(limit: usize) -> (analyzer: TextAnalyzer)
    ensures
        analyzer_stages(analyzer) == seq![
            Stage::SimpleSplit,
            Stage::RemoveLong(limit),
            Stage::LowerCase,
        ],
{
    TextAnalyzer::builder(tantivy::tokenizer::SimpleTokenizer::default())
        .filter(tantivy::tokenizer::RemoveLongFilter::limit(limit))
        .filter(tantivy::tokenizer::LowerCaser)
        .build()
}

/// The language of this library that one of the engine's stands for.
pub uninterp spec fn language_of(language: EngineLanguage) -> Language;

/// The variant of `tantivy::tokenizer::Language` for each language of this
/// library.
#[verifier::external_body]
pub(crate) fn engine_language(language: Language) -> (engine: EngineLanguage)
    ensures
        language_of(engine) == language,
{
    match language {
        Language::Arabic => EngineLanguage::Arabic, Language::Danish => EngineLanguage::Danish,
        Language::Dutch => EngineLanguage::Dutch, Language::English => EngineLanguage::English,
        Language::Finnish => EngineLanguage::Finnish, Language::French => EngineLanguage::French,
        Language::German => EngineLanguage::German, Language::Greek => EngineLanguage::Greek,
        Language::Hungarian => EngineLanguage::Hungarian,
        Language::Italian => EngineLanguage::Italian,
        Language::Norwegian => EngineLanguage::Norwegian,
        Language::Portuguese => EngineLanguage::Portuguese,
        Language::Romanian => EngineLanguage::Romanian, Language::Russian => EngineLanguage::Russian,
        Language::Spanish => EngineLanguage::Spanish, Language::Swedish => EngineLanguage::Swedish,
        Language::Tamil => EngineLanguage::Tamil, Language::Turkish => EngineLanguage::Turkish,
    }
}

/// `TextAnalyzer::builder` as for the simple pipeline, followed by
/// `Stemmer::new` for the language.
#[verifier::external_body]
pub(crate) fn stemmer_analyzer(limit: usize, language: EngineLanguage) -> (analyzer: TextAnalyzer)
    ensures
        analyzer_stages(analyzer) == seq![
            Stage::SimpleSplit,
            Stage::RemoveLong(limit),
            Stage::LowerCase,
            Stage::Stem(language_of(language)),
        ],
{
    TextAnalyzer::builder(tantivy::tokenizer::SimpleTokenizer::default())
        .filter(tantivy::tokenizer::RemoveLongFilter::limit(limit))
        .filter(tantivy::tokenizer::LowerCaser)
        .filter(tantivy::tokenizer::Stemmer::new(language))
        .build()
}

/// `NgramTokenizer::new`, which refuses a `min_gram` of zero and one above
/// `max_gram`, as the whole pipeline. A token stream computes `max_gram + 1`,
/// so the largest `max_gram` is left out.
#[verifier::external_body]
pub(crate) fn ngram_analyzer(min_gram: usize, max_gram: usize, prefix_only: bool) -> (built: Result<
    TextAnalyzer,
    tantivy::TantivyError,
>)
    requires
        max_gram < usize::MAX,
    ensures
        built is Ok <==> 1 <= min_gram <= max_gram,
        built is Ok ==> analyzer_stages(built->Ok_0) == seq![
            Stage::Ngram { min: min_gram, max: max_gram, prefix_only },
        ],
{
    let tokenizer = tantivy::tokenizer::NgramTokenizer::new(min_gram, max_gram, prefix_only)?;
    Ok(TextAnalyzer::builder(tokenizer).build())
}

/// `TextAnalyzer::builder` on a `SimpleTokenizer`, with `LowerCaser` alone:
/// split, then lower-case.
#[verifier::external_body]
pub(crate) fn plain_analyzer() -> (analyzer: TextAnalyzer)
    ensures
        analyzer_stages(analyzer) == seq![Stage::SimpleSplit, Stage::LowerCase],
{
    TextAnalyzer::builder(tantivy::tokenizer::SimpleTokenizer::default())
        .filter(tantivy::tokenizer::LowerCaser)
        .build()
}

/// `TextAnalyzer::clone`: a second analyzer of the same stages.
#[verifier::external_body]
pub(crate) fn clone_analyzer(analyzer: &TextAnalyzer) -> (copy: TextAnalyzer)
    ensures
        analyzer_stages(copy) == analyzer_stages(*analyzer),
{
    analyzer.clone()
}

/// `TextAnalyzer::token_stream` on a copy of the analyzer, every token handed
/// out by `TokenStream::process`. The tokens are those of the analyzer's stages
/// on this text. A pipeline that splits first takes each token from a run of
/// alphanumeric characters, so its spans lie in the text one after the other.
#[verifier::external_body]
pub(crate) fn run_analyzer(analyzer: &TextAnalyzer, text: &str) -> (tokens: Vec<Token>)
    ensures
        tokens_view(tokens@) == pipeline_tokens(analyzer_stages(*analyzer), text@),
        splits_first(analyzer_stages(*analyzer)) ==> spans_in_order(
            encode_utf8(text@),
            tokens_view(tokens@),
        ),
{
    let mut analyzer = analyzer.clone();
    let mut tokens = Vec::new();
    analyzer.token_stream(text).process(&mut |token| tokens.push(Token {
        text: token.text.clone(),
        offset_from: token.offset_from,
        offset_to: token.offset_to,
    }));
    tokens
}

} // verus!
