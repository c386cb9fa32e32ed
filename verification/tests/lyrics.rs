use inako::lyrics::lrc_entries;

fn pairs(input: &str) -> Vec<(String, String)> {
    lrc_entries(input)
}

fn owned(items: &[(&str, &str)]) -> Vec<(String, String)> {
    items.iter().map(|(a, b)| (a.to_string(), b.to_string())).collect()
}

#[test]
fn lrc_lines_give_each_tag_with_the_text() {
    assert_eq!(
        pairs("[00:01.00][00:05.50] hello \n[ar:someone]\nno tags\n  [00:02]  text  \r\n"),
        owned(&[
            ("00:01.00", "hello"),
            ("00:05.50", "hello"),
            ("ar:someone", ""),
            ("00:02", "text"),
        ])
    );
}

#[test]
fn lrc_tag_reading_stops_at_an_unclosed_bracket() {
    assert_eq!(pairs("[00:01]a[00:02]b\n[00:03"), owned(&[("00:01", "a[00:02]b")]));
}

#[test]
fn lrc_tags_must_follow_each_other_directly() {
    assert_eq!(pairs("[00:01] [00:02]x"), owned(&[("00:01", "[00:02]x")]));
}

#[test]
fn lrc_without_tags_is_empty() {
    assert!(pairs("").is_empty());
    assert!(pairs("plain text\nmore").is_empty());
}
