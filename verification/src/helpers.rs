//! Input normalisation and stemmer language codes.

use vstd::prelude::*;
use vstd::string::*;
use crate::error::Error;

verus! {

/// A field's input: one value, or several in order.
pub enum MultiValue<T> {
    /// A single value.
    Scalar(T),
    /// A sequence of values.
    List(Vec<T>),
}

impl<T> MultiValue<T> {
    /// The values in input order.
    pub open spec fn values(self) -> Seq<T> {
        match self {
            MultiValue::Scalar(value) => seq![value],
            MultiValue::List(values) => values@,
        }
    }

    /// Turns the input into the sequence of its values.
    pub fn into_values(self) -> (values: Vec<T>)
        ensures
            values@ == self.values(),
    {
        match self {
            MultiValue::Scalar(value) => {
                let mut values: Vec<T> = Vec::new();
                values.push(value);
                values
            },
            MultiValue::List(values) => values,
        }
    }
}

/// What `hash_to_multivalue_map` makes of one entry.
pub open spec fn normalized_entry<K, V>(entry: (K, MultiValue<V>), out: (K, Vec<V>)) -> bool {
    &&& out.0 == entry.0
    &&& out.1@ == entry.1.values()
}

/// Whether the entries are those of a mapping: no key occurs twice.
pub open spec fn keys_distinct<V>(entries: Seq<(String, MultiValue<V>)>) -> bool {
    forall|i: int, j: int|
        0 <= i < j < entries.len() ==> (#[trigger] entries[i]).0@ != (#[trigger] entries[j]).0@
}

/// Whether a mapping came out of its entries: as many, each normalised in its
/// place.
pub open spec fn normalized<V>(
    entries: Seq<(String, MultiValue<V>)>,
    map: Seq<(String, Vec<V>)>,
) -> bool {
    &&& map.len() == entries.len()
    &&& forall|i: int| 0 <= i < entries.len() ==> normalized_entry(entries[i], #[trigger] map[i])
}

fn has_distinct_keys<V>(entries: &Vec<(String, MultiValue<V>)>) -> (distinct: bool)
    ensures
        distinct == keys_distinct(entries@),
{
    let mut i: usize = 0;
    while i < entries.len()
        invariant
            i <= entries.len(),
            forall|k: int, l: int|
                0 <= k < l < i ==> (#[trigger] entries@[k]).0@ != (#[trigger] entries@[l]).0@,
        decreases entries.len() - i,
    {
        let mut j: usize = 0;
        while j < i
            invariant
                j <= i < entries.len(),
                forall|k: int| 0 <= k < j ==> (#[trigger] entries@[k]).0@ != entries@[i as int].0@,
            decreases i - j,
        {
            if entries[j].0 == entries[i].0 {
                return false;
            }
            j += 1;
        }
        i += 1;
    }
    true
}

/// Normalises a field mapping: every key keeps its place, and its scalar or
/// list becomes the sequence of its values, in input order. Entries in which a
/// key occurs twice are no mapping, and are refused.
pub fn hash_to_multivalue_map<V>(hash: Vec<(String, MultiValue<V>)>) -> (map: Result<
    Vec<(String, Vec<V>)>,
    Error,
>)
    ensures
        keys_distinct(hash@) ==> map is Ok && normalized(hash@, map->Ok_0@),
        !keys_distinct(hash@) ==> map is Err && map->Err_0 == Error::ConversionFailure,
{
    if !has_distinct_keys(&hash) {
        return Err(Error::ConversionFailure);
    }
    Ok(normalize(hash))
}

fn normalize<K, V>(hash: Vec<(K, MultiValue<V>)>) -> (map: Vec<(K, Vec<V>)>)
    ensures
        map@.len() == hash@.len(),
        forall|i: int| 0 <= i < hash@.len() ==> normalized_entry(hash@[i], #[trigger] map@[i]),
{
    let ghost entries = hash@;
    let mut rest = hash;
    let mut reversed: Vec<(K, Vec<V>)> = Vec::new();
    while rest.len() > 0
        invariant
            rest@.len() + reversed@.len() == entries.len(),
            rest@ == entries.take(rest@.len() as int),
            forall|j: int|
                0 <= j < reversed@.len() ==> normalized_entry(
                    entries[entries.len() - 1 - j],
                    #[trigger] reversed@[j],
                ),
        decreases rest@.len(),
    {
        let entry = rest.pop().unwrap();
        let key = entry.0;
        let values = entry.1.into_values();
        reversed.push((key, values));
    }
    let ghost staged = reversed@;
    let mut map: Vec<(K, Vec<V>)> = Vec::new();
    while reversed.len() > 0
        invariant
            staged.len() == entries.len(),
            reversed@.len() + map@.len() == staged.len(),
            reversed@ == staged.take(reversed@.len() as int),
            forall|j: int|
                0 <= j < staged.len() ==> normalized_entry(
                    entries[entries.len() - 1 - j],
                    #[trigger] staged[j],
                ),
            forall|i: int| 0 <= i < map@.len() ==> normalized_entry(entries[i], #[trigger] map@[i]),
        decreases reversed@.len(),
    {
        let ghost j = reversed@.len() - 1;
        let item = reversed.pop().unwrap();
        proof {
            assert(entries.len() - 1 - j == map@.len());
        }
        map.push(item);
    }
    map
}

/// A language that the stemmer supports.
#[derive(Clone, Copy, Debug, PartialEq, Eq, Structural)]
pub enum Language {
    Arabic,
    Danish,
    Dutch,
    English,
    Finnish,
    French,
    German,
    Greek,
    Hungarian,
    Italian,
    Norwegian,
    Portuguese,
    Romanian,
    Russian,
    Spanish,
    Swedish,
    Tamil,
    Turkish,
}

/// A stemmer language selected by its two-letter code.
pub struct LanguageWrapper(pub Language);

/// The language that a pair of letters stands for.
pub open spec fn language_for_letters(first: char, second: char) -> Option<Language> {
    match (first, second) {
        ('e', 'n') => Some(Language::English),
        ('a', 'r') => Some(Language::Arabic),
        ('d', 'a') => Some(Language::Danish),
        ('n', 'l') => Some(Language::Dutch),
        ('f', 'i') => Some(Language::Finnish),
        ('f', 'r') => Some(Language::French),
        ('d', 'e') => Some(Language::German),
        ('e', 'l') => Some(Language::Greek),
        ('h', 'u') => Some(Language::Hungarian),
        ('i', 't') => Some(Language::Italian),
        ('n', 'o') => Some(Language::Norwegian),
        ('p', 't') => Some(Language::Portuguese),
        ('r', 'o') => Some(Language::Romanian),
        ('r', 'u') => Some(Language::Russian),
        ('e', 's') => Some(Language::Spanish),
        ('s', 'v') => Some(Language::Swedish),
        ('t', 'a') => Some(Language::Tamil),
        ('t', 'r') => Some(Language::Turkish),
        _ => None,
    }
}

/// The language that a code stands for: a code is exactly two letters.
pub open spec fn language_for_code(code: Seq<char>) -> Option<Language> {
    if code.len() == 2 {
        language_for_letters(code[0], code[1])
    } else {
        None
    }
}

/// The two-letter code of a language.
pub open spec fn code_of_language(language: Language) -> Seq<char> {
    match language {
        Language::English => seq!['e', 'n'],
        Language::Arabic => seq!['a', 'r'],
        Language::Danish => seq!['d', 'a'],
        Language::Dutch => seq!['n', 'l'],
        Language::Finnish => seq!['f', 'i'],
        Language::French => seq!['f', 'r'],
        Language::German => seq!['d', 'e'],
        Language::Greek => seq!['e', 'l'],
        Language::Hungarian => seq!['h', 'u'],
        Language::Italian => seq!['i', 't'],
        Language::Norwegian => seq!['n', 'o'],
        Language::Portuguese => seq!['p', 't'],
        Language::Romanian => seq!['r', 'o'],
        Language::Russian => seq!['r', 'u'],
        Language::Spanish => seq!['e', 's'],
        Language::Swedish => seq!['s', 'v'],
        Language::Tamil => seq!['t', 'a'],
        Language::Turkish => seq!['t', 'r'],
    }
}

/// Every language is found again by its own code, and by no other.
pub proof fn lemma_language_codes_distinct(language: Language, code: Seq<char>)
    ensures
        language_for_code(code_of_language(language)) == Some(language),
        language_for_code(code) == Some(language) ==> code =~= code_of_language(language),
{
}

fn language_by_letters(first: char, second: char) -> (language: Option<Language>)
    ensures
        language == language_for_letters(first, second),
{
    match (first, second) {
        ('e', 'n') => Some(Language::English),
        ('a', 'r') => Some(Language::Arabic),
        ('d', 'a') => Some(Language::Danish),
        ('n', 'l') => Some(Language::Dutch),
        ('f', 'i') => Some(Language::Finnish),
        ('f', 'r') => Some(Language::French),
        ('d', 'e') => Some(Language::German),
        ('e', 'l') => Some(Language::Greek),
        ('h', 'u') => Some(Language::Hungarian),
        ('i', 't') => Some(Language::Italian),
        ('n', 'o') => Some(Language::Norwegian),
        ('p', 't') => Some(Language::Portuguese),
        ('r', 'o') => Some(Language::Romanian),
        ('r', 'u') => Some(Language::Russian),
        ('e', 's') => Some(Language::Spanish),
        ('s', 'v') => Some(Language::Swedish),
        ('t', 'a') => Some(Language::Tamil),
        ('t', 'r') => Some(Language::Turkish),
        _ => None,
    }
}

impl LanguageWrapper {
    /// Selects the stemmer language of a two-letter code; any other text is
    /// refused as an unsupported language.
    pub fn try_from(s: String) -> (selected: Result<LanguageWrapper, Error>)
        ensures
            match language_for_code(s@) {
                Some(language) => selected == Ok::<LanguageWrapper, Error>(LanguageWrapper(language)),
                None => selected == Err::<LanguageWrapper, Error>(Error::UnsupportedLanguage),
            },
    {
        let code = s.as_str();
        if code.unicode_len() != 2 {
            return Err(Error::UnsupportedLanguage);
        }
        let first = code.get_char(0);
        let second = code.get_char(1);
        match language_by_letters(first, second) {
            Some(language) => Ok(LanguageWrapper(language)),
            None => Err(Error::UnsupportedLanguage),
        }
    }
}

} // verus!
