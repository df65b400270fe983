use html_tokenizer::{Attribute, HtmlToken, HtmlTokenizer};

fn all_tokens(html: &str) -> Vec<HtmlToken> {
    let mut tokenizer = HtmlTokenizer::new(html.to_string());
    let mut out = Vec::new();
    while let Some(t) = tokenizer.next() {
        out.push(t);
    }
    out
}

fn attr(name: &str, value: &str) -> Attribute {
    let mut a = Attribute::new();
    for c in name.chars() {
        a.add_char(c, true);
    }
    for c in value.chars() {
        a.add_char(c, false);
    }
    a
}

fn start(tag: &str, self_closing: bool, attributes: Vec<Attribute>) -> HtmlToken {
    HtmlToken::StartTag { tag: tag.to_string(), self_closing, attributes }
}

fn end(tag: &str) -> HtmlToken {
    HtmlToken::EndTag { tag: tag.to_string() }
}

#[test]
fn test_empty() {
    let html = "".to_string();
    let mut tokenizer = HtmlTokenizer::new(html);
    assert!(tokenizer.next().is_none());
}

#[test]
fn test_start_and_end_tag() {
    let html = "<body></body>".to_string();
    let mut tokenizer = HtmlTokenizer::new(html);
    let expected = [
        HtmlToken::StartTag { tag: "body".to_string(), self_closing: false, attributes: Vec::new() },
        HtmlToken::EndTag { tag: "body".to_string() },
    ];
    for e in expected {
        assert_eq!(Some(e), tokenizer.next());
    }
}

#[test]
fn test_attributes() {
    let html = "<p class=\"A\" id='B' foo=bar></p>".to_string();
    let mut tokenizer = HtmlTokenizer::new(html);
    let mut attr1 = Attribute::new();
    attr1.add_char('c', true);
    attr1.add_char('l', true);
    attr1.add_char('a', true);
    attr1.add_char('s', true);
    attr1.add_char('s', true);
    attr1.add_char('A', false);

    let mut attr2 = Attribute::new();
    attr2.add_char('i', true);
    attr2.add_char('d', true);
    attr2.add_char('B', false);

    let mut attr3 = Attribute::new();
    attr3.add_char('f', true);
    attr3.add_char('o', true);
    attr3.add_char('o', true);
    attr3.add_char('b', false);
    attr3.add_char('a', false);
    attr3.add_char('r', false);

    let expected = [
        HtmlToken::StartTag {
            tag: "p".to_string(),
            self_closing: false,
            attributes: vec![attr1, attr2, attr3],
        },
        HtmlToken::EndTag { tag: "p".to_string() },
    ];
    for e in expected {
        assert_eq!(Some(e), tokenizer.next());
    }
}

#[test]
fn test_self_closing_tag() {
    let html = "<img />".to_string();
    let mut tokenizer = HtmlTokenizer::new(html);
    let expected =
        [HtmlToken::StartTag { tag: "img".to_string(), self_closing: true, attributes: Vec::new() }];
    for e in expected {
        assert_eq!(Some(e), tokenizer.next());
    }
}

#[test]
fn test_script_tag() {
    let html = "<script>js code;</script>".to_string();
    let mut tokenizer = HtmlTokenizer::new(html);
    let expected = [
        HtmlToken::StartTag { tag: "script".to_string(), self_closing: false, attributes: Vec::new() },
        HtmlToken::Char('j'),
        HtmlToken::Char('s'),
        HtmlToken::Char(' '),
        HtmlToken::Char('c'),
        HtmlToken::Char('o'),
        HtmlToken::Char('d'),
        HtmlToken::Char('e'),
        HtmlToken::Char(';'),
        HtmlToken::EndTag { tag: "script".to_string() },
    ];
    for e in expected {
        assert_eq!(Some(e), tokenizer.next());
    }
}

#[test]
fn text_without_markup_is_one_char_per_scalar_then_eof() {
    let expected = vec![
        HtmlToken::Char('h'),
        HtmlToken::Char('é'),
        HtmlToken::Char(' '),
        HtmlToken::Char('→'),
        HtmlToken::Char('>'),
        HtmlToken::Eof,
    ];
    assert_eq!(all_tokens("hé →>"), expected);
}

#[test]
fn nothing_after_eof() {
    let mut tokenizer = HtmlTokenizer::new("a".to_string());
    assert_eq!(tokenizer.next(), Some(HtmlToken::Char('a')));
    assert_eq!(tokenizer.next(), Some(HtmlToken::Eof));
    assert_eq!(tokenizer.next(), None);
    assert_eq!(tokenizer.next(), None);
}

#[test]
fn names_are_folded_values_kept() {
    assert_eq!(all_tokens("<DIV CLASS=\"x\">"), vec![
        start("div", false, vec![attr("class", "x")]),
        HtmlToken::Eof,
    ]);
    assert_eq!(all_tokens("<A Href=UpPer></A>"), vec![
        start("a", false, vec![attr("href", "UpPer")]),
        end("a"),
        HtmlToken::Eof,
    ]);
}

#[test]
fn two_tokenizers_on_one_input_agree() {
    let html = "<p class=\"A\" id='B' foo=bar>text</p><img/>";
    assert_eq!(all_tokens(html), all_tokens(html));
}

#[test]
fn unterminated_tag_gives_only_eof() {
    assert_eq!(all_tokens("<div"), vec![HtmlToken::Eof]);
    assert_eq!(all_tokens("<div class=\"a"), vec![HtmlToken::Eof]);
    assert_eq!(all_tokens("<img /"), vec![HtmlToken::Eof]);
    assert_eq!(all_tokens("x</"), vec![HtmlToken::Char('x'), HtmlToken::Eof]);
}

#[test]
fn missing_attribute_value() {
    assert_eq!(all_tokens("<a b=>"), vec![
        start("a", false, vec![attr("b", "")]),
        HtmlToken::Eof,
    ]);
}

#[test]
fn unquoted_value_keeps_reserved_characters() {
    assert_eq!(all_tokens("<a b=x\"'=`<>"), vec![
        start("a", false, vec![attr("b", "x\"'=`<")]),
        HtmlToken::Eof,
    ]);
}

#[test]
fn quoted_value_followed_by_name() {
    assert_eq!(all_tokens("<a b=\"1\"c='2'>"), vec![
        start("a", false, vec![attr("b", "1"), attr("c", "2")]),
        HtmlToken::Eof,
    ]);
}

#[test]
fn stray_slash_counts_as_space() {
    assert_eq!(all_tokens("<a/b>"), vec![
        start("a", false, vec![attr("b", "")]),
        HtmlToken::Eof,
    ]);
}

#[test]
fn duplicate_attributes_are_kept() {
    assert_eq!(all_tokens("<a x=1 x=2>"), vec![
        start("a", false, vec![attr("x", "1"), attr("x", "2")]),
        HtmlToken::Eof,
    ]);
}

#[test]
fn end_tag_drops_attributes_and_slash() {
    assert_eq!(all_tokens("</p class=x>"), vec![end("p"), HtmlToken::Eof]);
    assert_eq!(all_tokens("</br/>"), vec![end("br"), HtmlToken::Eof]);
}

#[test]
fn less_than_before_non_letter_is_dropped() {
    assert_eq!(all_tokens("a<1"), vec![
        HtmlToken::Char('a'),
        HtmlToken::Char('1'),
        HtmlToken::Eof,
    ]);
    assert_eq!(all_tokens("<<b>"), vec![start("b", false, Vec::new()), HtmlToken::Eof]);
}

#[test]
fn unicode_white_space_separates_attributes() {
    assert_eq!(all_tokens("<a\u{3000}b>"), vec![
        start("a", false, vec![attr("b", "")]),
        HtmlToken::Eof,
    ]);
}

#[test]
fn script_data_end_tag_is_recognised() {
    let mut tokenizer = HtmlTokenizer::new("<script>a<b</script>".to_string());
    assert_eq!(tokenizer.next(), Some(start("script", false, Vec::new())));
    tokenizer.switch_to_script_data();
    let mut rest = Vec::new();
    while let Some(t) = tokenizer.next() {
        rest.push(t);
    }
    assert_eq!(rest, vec![
        HtmlToken::Char('a'),
        HtmlToken::Char('<'),
        HtmlToken::Char('b'),
        end("script"),
        HtmlToken::Eof,
    ]);
}

#[test]
fn script_data_abandoned_end_tag_is_replayed_as_text() {
    let mut tokenizer = HtmlTokenizer::new("<script>x</Ab c".to_string());
    assert_eq!(tokenizer.next(), Some(start("script", false, Vec::new())));
    tokenizer.switch_to_script_data();
    let mut rest = Vec::new();
    while let Some(t) = tokenizer.next() {
        rest.push(t);
    }
    assert_eq!(rest, vec![
        HtmlToken::Char('x'),
        HtmlToken::Char('<'),
        HtmlToken::Char('/'),
        HtmlToken::Char('A'),
        HtmlToken::Char('b'),
        HtmlToken::Char(' '),
        HtmlToken::Char('c'),
        HtmlToken::Eof,
    ]);
}

#[test]
fn script_data_end_tag_cut_by_end_of_input() {
    let mut tokenizer = HtmlTokenizer::new("<script></sc".to_string());
    assert_eq!(tokenizer.next(), Some(start("script", false, Vec::new())));
    tokenizer.switch_to_script_data();
    let mut rest = Vec::new();
    while let Some(t) = tokenizer.next() {
        rest.push(t);
    }
    assert_eq!(rest, vec![
        HtmlToken::Char('<'),
        HtmlToken::Char('/'),
        HtmlToken::Char('s'),
        HtmlToken::Char('c'),
        HtmlToken::Eof,
    ]);
}

#[test]
fn script_data_slash_then_non_letter_gives_less_than() {
    let mut tokenizer = HtmlTokenizer::new("<script></1".to_string());
    assert_eq!(tokenizer.next(), Some(start("script", false, Vec::new())));
    tokenizer.switch_to_script_data();
    let mut rest = Vec::new();
    while let Some(t) = tokenizer.next() {
        rest.push(t);
    }
    assert_eq!(rest, vec![HtmlToken::Char('<'), HtmlToken::Char('1'), HtmlToken::Eof]);
}

#[test]
fn attribute_accessors() {
    let mut a = Attribute::default();
    assert_eq!(a.name(), "");
    assert_eq!(a.value(), "");
    a.add_char('k', true);
    a.add_char('V', false);
    a.add_char('e', true);
    assert_eq!(a.name(), "ke");
    assert_eq!(a.value(), "V");
    assert_eq!(a, attr("ke", "V"));
}
