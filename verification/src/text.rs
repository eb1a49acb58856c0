use vstd::prelude::*;
use vstd::string::*;

verus! {

/// The help text shown for the quote command.
pub open spec fn quote_help_text() -> Seq<char> {
    "\
Accessible via /quote or ~quote, in the server or in DMs. ~quote will show to
other people in the server. Usually, people don't see who submits hellquotes, so
consider using /quote or ~quote in DMs. ~quote is the only way to write multiple
lines. To add tags, prefix tag:[tag] as many times as you want, separated by
spaces.

Example usage:
~quote tag:anon tag:blacker my awesome quote

-anonymous"@
}

/// Usage help for the quote command, word for word.
pub fn quote_help() -> (r: String)
    ensures
        r@ == quote_help_text(),
{
    String::from_str(
        "\
Accessible via /quote or ~quote, in the server or in DMs. ~quote will show to
other people in the server. Usually, people don't see who submits hellquotes, so
consider using /quote or ~quote in DMs. ~quote is the only way to write multiple
lines. To add tags, prefix tag:[tag] as many times as you want, separated by
spaces.

Example usage:
~quote tag:anon tag:blacker my awesome quote

-anonymous",
    )
}

/// The leading characters of `s`: all of it when it has at most `max_chars`
/// characters, otherwise exactly its first `max_chars` characters. Used to
/// keep a delivered message under the destination's length limit.
pub fn truncate_str(s: &str, max_chars: usize) -> (r: &str)
    ensures
        s@.len() <= max_chars ==> r@ == s@,
        s@.len() > max_chars ==> r@ == s@.subrange(0, max_chars as int),
{
    let n = s.unicode_len();
    if n <= max_chars {
        s
    } else {
        s.substring_char(0, max_chars)
    }
}

} // verus!
