use numfmt_tokens::{
    exclamation, formats, next_item, quoted, single, standard, FailureKind, FormatItem,
    ParseError,
};

fn source_text(items: &[FormatItem]) -> String {
    let mut out = String::new();
    for it in items {
        match it {
            FormatItem::Standard(text) => out.push_str(text),
            FormatItem::Quoted(text) => {
                out.push('"');
                out.push_str(text);
                out.push('"');
            }
            FormatItem::Single(c) => out.push(*c),
            FormatItem::Exclamation(c) => {
                out.push('!');
                out.push(*c);
            }
        }
    }
    out
}

fn no_match(remainder: &str) -> ParseError<'_> {
    ParseError { kind: FailureKind::NoMatch, remainder }
}

#[test]
fn it_works() {
    let at = FormatItem::Standard("@".to_string());
    let xyz = FormatItem::Quoted("xyz".to_string());
    assert_eq!(quoted("\"xyz\"abc"), Ok(("abc", xyz)));
    assert_eq!(standard("@aaa"), Ok(("aaa", at)));
    let res = vec![
        FormatItem::Single('+'),
        FormatItem::Quoted("xyz".to_string()),
        FormatItem::Exclamation('@'),
        FormatItem::Standard("@".to_string()),
        FormatItem::Quoted("abc".to_string()),
    ];
    assert_eq!(formats("+\"xyz\"!@@\"abc\""), Ok(("", res)));
}

#[test]
fn exclamation_takes_marker_and_next_character() {
    assert_eq!(exclamation("!@"), Ok(("", FormatItem::Exclamation('@'))));
    assert_eq!(exclamation("!!x"), Ok(("x", FormatItem::Exclamation('!'))));
    assert_eq!(exclamation("!\"abc"), Ok(("abc", FormatItem::Exclamation('"'))));
    assert_eq!(exclamation("!General"), Ok(("eneral", FormatItem::Exclamation('G'))));
}

#[test]
fn exclamation_keeps_a_wide_character_whole() {
    assert_eq!(exclamation("!\u{e9}z"), Ok(("z", FormatItem::Exclamation('\u{e9}'))));
    assert_eq!(exclamation("!\u{6a19}"), Ok(("", FormatItem::Exclamation('\u{6a19}'))));
}

#[test]
fn exclamation_fails_without_marker_or_payload() {
    assert_eq!(exclamation(""), Err(no_match("")));
    assert_eq!(exclamation("@!"), Err(no_match("@!")));
    assert_eq!(exclamation("!"), Err(no_match("")));
}

#[test]
fn standard_matches_each_keyword() {
    assert_eq!(
        standard("General;x"),
        Ok((";x", FormatItem::Standard("General".to_string())))
    );
    assert_eq!(
        standard("G/\u{6a19}\u{6e96}@"),
        Ok(("@", FormatItem::Standard("G/\u{6a19}\u{6e96}".to_string())))
    );
    assert_eq!(standard("@"), Ok(("", FormatItem::Standard("@".to_string()))));
    assert_eq!(standard("@@"), Ok(("@", FormatItem::Standard("@".to_string()))));
}

#[test]
fn standard_fails_on_anything_else() {
    assert_eq!(standard(""), Err(no_match("")));
    assert_eq!(standard("Genera"), Err(no_match("Genera")));
    assert_eq!(standard("general"), Err(no_match("general")));
    assert_eq!(standard("G/\u{6a19}"), Err(no_match("G/\u{6a19}")));
    assert_eq!(standard(" @"), Err(no_match(" @")));
}

#[test]
fn quoted_leaves_any_remainder() {
    for rest in ["", "abc", "\"", "\"xyz\"", "!@", " \u{a5}"] {
        let input = format!("\"xyz\"{}", rest);
        assert_eq!(quoted(&input), Ok((rest, FormatItem::Quoted("xyz".to_string()))));
    }
}

#[test]
fn quoted_may_be_empty() {
    assert_eq!(quoted("\"\""), Ok(("", FormatItem::Quoted(String::new()))));
    assert_eq!(quoted("\"\"x"), Ok(("x", FormatItem::Quoted(String::new()))));
}

#[test]
fn quoted_keeps_what_stands_between_the_quotes() {
    assert_eq!(
        quoted("\"a !@ \u{6a19}\"@"),
        Ok(("@", FormatItem::Quoted("a !@ \u{6a19}".to_string())))
    );
}

#[test]
fn quoted_fails_without_opening_quote() {
    assert_eq!(quoted(""), Err(no_match("")));
    assert_eq!(quoted("abc\""), Err(no_match("abc\"")));
}

#[test]
fn quoted_fails_when_unterminated() {
    let unterminated = ParseError { kind: FailureKind::UnterminatedQuote, remainder: "" };
    assert_eq!(quoted("\"abc"), Err(unterminated));
    assert_eq!(quoted("\""), Err(unterminated));
}

#[test]
fn single_matches_the_whole_alphabet() {
    let alphabet = [
        '\u{a5}', '$', '+', '(', ':', '^', '\'', '{', '<', '=', '-', '/', ')', '&', '~', '}',
        '>', ' ',
    ];
    assert_eq!(alphabet.len(), 18);
    for c in alphabet {
        let input = format!("{}rest", c);
        assert_eq!(single(&input), Ok(("rest", FormatItem::Single(c))));
    }
}

#[test]
fn single_fails_outside_the_alphabet() {
    assert_eq!(single(""), Err(no_match("")));
    for input in ["a", "!", "\"", "@", "G", "0", "#", "*", "\u{a3}", "\t"] {
        assert_eq!(single(input), Err(no_match(input)));
    }
}

#[test]
fn item_prefers_the_escape_form() {
    assert_eq!(next_item("!@"), Ok(("", FormatItem::Exclamation('@'))));
    assert_eq!(next_item("!+"), Ok(("", FormatItem::Exclamation('+'))));
    assert_eq!(next_item("!\"x\""), Ok(("x\"", FormatItem::Exclamation('"'))));
}

#[test]
fn item_tries_the_matchers_in_order() {
    assert_eq!(next_item("@+"), Ok(("+", FormatItem::Standard("@".to_string()))));
    assert_eq!(next_item("\"q\"@"), Ok(("@", FormatItem::Quoted("q".to_string()))));
    assert_eq!(next_item("$@"), Ok(("@", FormatItem::Single('$'))));
    assert_eq!(
        next_item("General"),
        Ok(("", FormatItem::Standard("General".to_string())))
    );
}

#[test]
fn item_fails_where_all_four_fail() {
    assert_eq!(next_item(""), Err(no_match("")));
    assert_eq!(next_item("x@"), Err(no_match("x@")));
    assert_eq!(next_item("!"), Err(no_match("!")));
    assert_eq!(next_item("\"abc"), Err(no_match("\"abc")));
}

#[test]
fn escape_is_one_token() {
    assert_eq!(formats("!@"), Ok(("", vec![FormatItem::Exclamation('@')])));
}

#[test]
fn formats_fails_on_empty_input() {
    assert_eq!(formats(""), Err(no_match("")));
}

#[test]
fn formats_fails_on_unterminated_quote() {
    assert_eq!(formats("\"abc"), Err(no_match("\"abc")));
}

#[test]
fn formats_fails_when_nothing_matches_at_the_front() {
    assert_eq!(formats("x+"), Err(no_match("x+")));
}

#[test]
fn formats_hands_back_what_it_could_not_match() {
    assert_eq!(
        formats("@x+"),
        Ok(("x+", vec![FormatItem::Standard("@".to_string())]))
    );
    assert_eq!(
        formats("+\"abc"),
        Ok(("\"abc", vec![FormatItem::Single('+')]))
    );
    assert_eq!(formats("$!"), Ok(("!", vec![FormatItem::Single('$')])));
}

#[test]
fn formats_keeps_keywords_whole() {
    assert_eq!(
        formats("General G/\u{6a19}\u{6e96}"),
        Ok((
            "",
            vec![
                FormatItem::Standard("General".to_string()),
                FormatItem::Single(' '),
                FormatItem::Standard("G/\u{6a19}\u{6e96}".to_string()),
            ]
        ))
    );
}

#[test]
fn formats_stops_inside_a_broken_keyword() {
    assert_eq!(formats("(Gen"), Ok(("Gen", vec![FormatItem::Single('(')])));
}

#[test]
fn tokens_rebuild_the_input() {
    for input in [
        "+\"xyz\"!@@\"abc\"",
        "General",
        "\"\"\"\"",
        "!!!\"!G",
        "\u{a5}$+(:^'{<=-/)&~}> ",
        "@@@ rest is not matched",
        "(General)x\"y\"",
    ] {
        let (rest, items) = formats(input).unwrap();
        assert_eq!(format!("{}{}", source_text(&items), rest), input);
    }
}

#[test]
fn parsing_the_rebuilt_text_gives_the_same_tokens() {
    for input in [
        "+\"xyz\"!@@\"abc\"",
        "G/\u{6a19}\u{6e96}!G\"General\"",
        "@@@ rest is not matched",
        "+\"abc",
        "$!",
    ] {
        let (_, items) = formats(input).unwrap();
        let rebuilt = source_text(&items);
        assert_eq!(formats(&rebuilt), Ok(("", items)));
    }
}
