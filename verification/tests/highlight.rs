use tantiny::error::Error;
use tantiny::highlight::mark_tokens;
use tantiny::query::Query;
use tantiny::tokenizer::Token;

fn strings(items: &[&str]) -> Vec<String> {
    items.iter().map(|s| s.to_string()).collect()
}

#[test]
fn highlight_marks_fuzzy_match() {
    let out = Query::highlight("The helo world".to_string(), strings(&["hello"]), 1);
    assert_eq!(out, Ok("The <b>helo</b> world".to_string()));
}

#[test]
fn highlight_adds_seven_bytes_per_hit() {
    let input = "The helo world";
    let out = Query::highlight(input.to_string(), strings(&["hello"]), 1).unwrap();
    assert_eq!(out.len(), input.len() + 7);
    assert_eq!(out.replace("<b>", "").replace("</b>", ""), input);
}

#[test]
fn highlight_without_match_returns_input() {
    let input = "Nothing to see -- here!";
    let out = Query::highlight(input.to_string(), strings(&["zebra"]), 1);
    assert_eq!(out, Ok(input.to_string()));
}

#[test]
fn highlight_exact_match_ignores_ascii_case() {
    let out = Query::highlight("Say HELLO twice".to_string(), strings(&["Hello"]), 0);
    assert_eq!(out, Ok("Say <b>HELLO</b> twice".to_string()));
}

#[test]
fn highlight_distance_zero_rejects_one_edit() {
    let out = Query::highlight("The helo world".to_string(), strings(&["hello"]), 0);
    assert_eq!(out, Ok("The helo world".to_string()));
}

#[test]
fn highlight_distance_boundary() {
    let text = "help me".to_string();
    assert_eq!(Query::highlight(text.clone(), strings(&["hello"]), 0), Ok("help me".to_string()));
    assert_eq!(Query::highlight(text.clone(), strings(&["hello"]), 1), Ok("help me".to_string()));
    assert_eq!(Query::highlight(text, strings(&["hello"]), 2), Ok("<b>help</b> me".to_string()));
}

#[test]
fn highlight_counts_transposition_as_one_edit() {
    let out = Query::highlight("hlelo there".to_string(), strings(&["hello"]), 1);
    assert_eq!(out, Ok("<b>hlelo</b> there".to_string()));
}

#[test]
fn highlight_keeps_multibyte_text() {
    let out = Query::highlight("caf\u{e9} — na\u{ef}ve caf\u{e9}s".to_string(), strings(&["caf\u{e9}"]), 1);
    assert_eq!(out, Ok("<b>caf\u{e9}</b> — na\u{ef}ve <b>caf\u{e9}s</b>".to_string()));
}

#[test]
fn highlight_marks_every_matching_token() {
    let out = Query::highlight("red, green; red".to_string(), strings(&["red", "green"]), 0);
    assert_eq!(out, Ok("<b>red</b>, <b>green</b>; <b>red</b>".to_string()));
}

#[test]
fn highlight_empty_text_and_no_terms() {
    assert_eq!(Query::highlight(String::new(), strings(&["a"]), 1), Ok(String::new()));
    assert_eq!(Query::highlight("plain text".to_string(), Vec::new(), 2), Ok("plain text".to_string()));
}

#[test]
fn highlight_refuses_distance_out_of_range() {
    assert_eq!(Query::highlight("a".to_string(), strings(&["a"]), -1), Err(Error::ConversionFailure));
    assert_eq!(Query::highlight("a".to_string(), strings(&["a"]), 6), Err(Error::ConversionFailure));
}

#[test]
fn mark_tokens_wraps_only_hits() {
    let tokens = vec![
        Token { text: "ab".to_string(), offset_from: 0, offset_to: 2 },
        Token { text: "cd".to_string(), offset_from: 3, offset_to: 5 },
    ];
    assert_eq!(mark_tokens("ab cd!", &tokens, &vec![false, true]), "ab <b>cd</b>!");
    assert_eq!(mark_tokens("ab cd!", &tokens, &vec![true, false]), "<b>ab</b> cd!");
    assert_eq!(mark_tokens("ab cd!", &tokens, &vec![false, false]), "ab cd!");
    assert_eq!(mark_tokens("ab cd!", &Vec::new(), &Vec::new()), "ab cd!");
}

#[test]
fn highlight_at_distance_three() {
    let out = Query::highlight("halp me".to_string(), strings(&["hello"]), 3);
    assert_eq!(out, Ok("<b>halp</b> me".to_string()));
}

#[test]
fn texts_compare_without_ascii_case() {
    use_eq("Hello", "hELLO", true);
    use_eq("", "", true);
    use_eq("a", "", false);
    use_eq("", "a", false);
    use_eq("abc", "abd", false);
    use_eq("abc", "ab", false);
    use_eq("\u{c9}t\u{e9}", "\u{c9}T\u{e9}", true);
    use_eq("\u{c9}t\u{e9}", "\u{e9}t\u{e9}", false);
    use_eq("@[`{", "@[`{", true);
    use_eq("@", "`", false);
    use_eq("[", "{", false);
    use_eq("AZ", "az", true);
}

fn use_eq(left: &str, right: &str, expected: bool) {
    assert_eq!(tantiny::text::eq_ignore_ascii_case(left, right), expected);
    assert_eq!(left.eq_ignore_ascii_case(right), expected);
}

#[test]
fn ascii_letters_are_lowered() {
    assert_eq!(tantiny::text::to_ascii_lower('A'), 'a');
    assert_eq!(tantiny::text::to_ascii_lower('Z'), 'z');
    assert_eq!(tantiny::text::to_ascii_lower('m'), 'm');
    assert_eq!(tantiny::text::to_ascii_lower('@'), '@');
    assert_eq!(tantiny::text::to_ascii_lower('['), '[');
    assert_eq!(tantiny::text::to_ascii_lower('\u{c9}'), '\u{c9}');
}
