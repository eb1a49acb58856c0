use quotebot::text::{quote_help, truncate_str};

#[test]
fn short_strings_pass_through() {
    assert_eq!(truncate_str("hello", 10), "hello");
    assert_eq!(truncate_str("hello", 5), "hello");
    assert_eq!(truncate_str("", 0), "");
    assert_eq!(truncate_str("", 3), "");
}

#[test]
fn long_strings_are_cut_to_the_character_count() {
    assert_eq!(truncate_str("hello world", 5), "hello");
    assert_eq!(truncate_str("abc", 0), "");
    assert_eq!(truncate_str("abc", 1), "a");
}

#[test]
fn truncation_counts_characters_not_bytes() {
    // Each of these characters is more than one byte long in UTF-8.
    assert_eq!(truncate_str("héllo", 2), "hé");
    assert_eq!(truncate_str("ααββ", 3), "ααβ");
    assert_eq!(truncate_str("ααββ", 4), "ααββ");
}

#[test]
fn help_text_is_the_expected_usage_message() {
    let help = quote_help();
    assert_eq!(
        help,
        "Accessible via /quote or ~quote, in the server or in DMs. ~quote will show to
other people in the server. Usually, people don't see who submits hellquotes, so
consider using /quote or ~quote in DMs. ~quote is the only way to write multiple
lines. To add tags, prefix tag:[tag] as many times as you want, separated by
spaces.

Example usage:
~quote tag:anon tag:blacker my awesome quote

-anonymous"
    );
}
