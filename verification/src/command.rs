use vstd::prelude::*;
use vstd::string::*;

verus! {

/// Whether a character counts as whitespace when a quote message is split
/// into tokens.
pub uninterp spec fn white_space(c: char) -> bool;

/// Relies on char::is_whitespace: whether `c` has the Unicode White_Space
/// property, a fixed function of the character alone.
#[verifier::external_body]
fn is_ws(c: char) -> (r: bool)
    ensures
        r == white_space(c),
{
    c.is_whitespace()
}

/// First position at or after `i` that holds a non-whitespace character,
/// or the end of `s`.
pub open spec fn skip_ws(s: Seq<char>, i: int) -> int
    decreases s.len() - i,
    when 0 <= i <= s.len()
{
    if i >= s.len() {
        s.len() as int
    } else if white_space(s[i]) {
        skip_ws(s, i + 1)
    } else {
        i
    }
}

/// Position just past the token that starts at `i`: the first position at
/// or after `i` that holds whitespace, or the end of `s`.
pub open spec fn token_end(s: Seq<char>, i: int) -> int
    decreases s.len() - i,
    when 0 <= i <= s.len()
{
    if i >= s.len() {
        s.len() as int
    } else if white_space(s[i]) {
        i
    } else {
        token_end(s, i + 1)
    }
}

pub proof fn lemma_skip_ws_bounds(s: Seq<char>, i: int)
    requires
        0 <= i <= s.len(),
    ensures
        i <= skip_ws(s, i) <= s.len(),
        skip_ws(s, i) < s.len() ==> !white_space(s[skip_ws(s, i)]),
    decreases s.len() - i,
{
    if i < s.len() && white_space(s[i]) {
        lemma_skip_ws_bounds(s, i + 1);
    }
}

pub proof fn lemma_token_end_bounds(s: Seq<char>, i: int)
    requires
        0 <= i <= s.len(),
    ensures
        i <= token_end(s, i) <= s.len(),
        i < s.len() && !white_space(s[i]) ==> token_end(s, i) >= i + 1,
    decreases s.len() - i,
{
    if i < s.len() && !white_space(s[i]) {
        lemma_token_end_bounds(s, i + 1);
    }
}

/// The token starting at position `t` carries the tag marker: its first
/// four characters are exactly `tag:`.
pub open spec fn tag_marked(s: Seq<char>, t: int) -> bool {
    &&& token_end(s, t) - t >= 4
    &&& s[t] == 't'
    &&& s[t + 1] == 'a'
    &&& s[t + 2] == 'g'
    &&& s[t + 3] == ':'
}

/// Whether the next token at or after position `j` exists and carries the
/// tag marker.
pub open spec fn more_tags(s: Seq<char>, j: int) -> bool {
    skip_ws(s, j) < s.len() && tag_marked(s, skip_ws(s, j))
}

/// The start of the quote body: the first token from position `i` on that
/// does not carry the tag marker, or the end of `s` when every remaining
/// token is a tag (or none remains).
pub open spec fn quote_start(s: Seq<char>, i: int) -> int
    decreases s.len() - i,
    when 0 <= i <= s.len()
{
    let t = skip_ws(s, i);
    if t >= s.len() {
        s.len() as int
    } else if tag_marked(s, t) {
        proof {
            lemma_skip_ws_bounds(s, i);
            lemma_token_end_bounds(s, t);
        }
        quote_start(s, token_end(s, t))
    } else {
        t
    }
}

/// The bodies of the leading tag-marked tokens from position `i` on, with
/// the `tag:` markers dropped, joined by single spaces.
pub open spec fn tag_join(s: Seq<char>, i: int) -> Seq<char>
    decreases s.len() - i,
    when 0 <= i <= s.len()
{
    let t = skip_ws(s, i);
    if t >= s.len() || !tag_marked(s, t) {
        Seq::<char>::empty()
    } else {
        let body = s.subrange(t + 4, token_end(s, t));
        let rest = token_end(s, t);
        proof {
            lemma_skip_ws_bounds(s, i);
            lemma_token_end_bounds(s, t);
        }
        if more_tags(s, rest) {
            body + seq![' '] + tag_join(s, rest)
        } else {
            body
        }
    }
}

/// `s` with its trailing whitespace removed.
pub open spec fn trim_end_ws(s: Seq<char>) -> Seq<char>
    decreases s.len(),
{
    if s.len() == 0 {
        s
    } else if white_space(s[s.len() - 1]) {
        trim_end_ws(s.drop_last())
    } else {
        s
    }
}

/// What parsing a quote message yields: the joined tag bodies of its
/// leading tag-marked tokens, and everything from its first other token to
/// its end with trailing whitespace removed — or nothing when no such token
/// exists, because the message is empty or all tags.
pub open spec fn parse_spec(s: Seq<char>) -> Option<(Seq<char>, Seq<char>)> {
    let qs = quote_start(s, 0);
    if qs >= s.len() {
        None
    } else {
        Some((tag_join(s, 0), trim_end_ws(s.subrange(qs, s.len() as int))))
    }
}

/// Position of the first non-whitespace character at or after `i`.
fn find_skip_ws(text: &str, i: usize) -> (t: usize)
    requires
        i <= text@.len(),
    ensures
        t == skip_ws(text@, i as int),
        i <= t <= text@.len(),
        t < text@.len() ==> !white_space(text@[t as int]),
{
    let ghost s = text@;
    let n = text.unicode_len();
    let mut t = i;
    while t < n && is_ws(text.get_char(t))
        invariant
            i <= t <= n,
            n == s.len(),
            s == text@,
            skip_ws(s, i as int) == skip_ws(s, t as int),
        decreases n - t,
    {
        proof {
            assert(skip_ws(s, t as int) == skip_ws(s, t as int + 1));
        }
        t += 1;
    }
    proof {
        assert(skip_ws(s, t as int) == t as int);
    }
    t
}

/// Position just past the token that starts at `t`.
fn find_token_end(text: &str, t: usize) -> (e: usize)
    requires
        t <= text@.len(),
    ensures
        e == token_end(text@, t as int),
        t <= e <= text@.len(),
{
    let ghost s = text@;
    let n = text.unicode_len();
    let mut e = t;
    while e < n && !is_ws(text.get_char(e))
        invariant
            t <= e <= n,
            n == s.len(),
            s == text@,
            token_end(s, t as int) == token_end(s, e as int),
        decreases n - e,
    {
        proof {
            assert(token_end(s, e as int) == token_end(s, e as int + 1));
        }
        e += 1;
    }
    proof {
        assert(token_end(s, e as int) == e as int);
    }
    e
}

/// Split one quote-command message into its tag string and its quote body.
///
/// The message is read as whitespace-separated tokens. Every leading token
/// of the form `tag:<body>` contributes `<body>` to the returned tag
/// string, joined by single spaces; the quote body is everything from the
/// first other token to the end of the message, with trailing whitespace
/// removed. A message without such a token — empty, or consisting only of
/// tags — has no non-empty, non-tag portion and is rejected with `None`.
pub fn parse_quote_message(text: &str) -> (r: Option<(String, String)>)
    ensures
        r matches Some(p) ==> parse_spec(text@) == Some((p.0@, p.1@)),
        r is None ==> parse_spec(text@) is None,
{
    let ghost s = text@;
    let n = text.unicode_len();
    let mut tags = String::new();
    let mut first: bool = true;
    let mut i: usize = 0;
    loop
        invariant
            i <= n,
            n == s.len(),
            s == text@,
            quote_start(s, 0) == quote_start(s, i as int),
            first ==> tags@ == Seq::<char>::empty() && tag_join(s, 0) == tag_join(s, i as int),
            !first ==> tag_join(s, 0) == (if more_tags(s, i as int) {
                tags@ + seq![' '] + tag_join(s, i as int)
            } else {
                tags@
            }),
        decreases n - i,
    {
        let t = find_skip_ws(text, i);
        if t >= n {
            proof {
                assert(quote_start(s, i as int) == s.len() as int);
                assert(parse_spec(s) is None);
            }
            return None;
        }
        let e = find_token_end(text, t);
        proof {
            lemma_token_end_bounds(s, t as int);
            assert(e >= t + 1);
        }
        let tagged = e - t >= 4 && text.get_char(t) == 't' && text.get_char(t + 1) == 'a'
            && text.get_char(t + 2) == 'g' && text.get_char(t + 3) == ':';
        proof {
            assert(tagged == tag_marked(s, t as int));
        }
        if tagged {
            let ghost tags_old = tags@;
            if !first {
                tags.append(" ");
                proof {
                    reveal_strlit(" ");
                    assert(" "@ =~= seq![' ']);
                }
            }
            let body = text.substring_char(t + 4, e);
            tags.append(body);
            proof {
                let body_spec = s.subrange(t as int + 4, e as int);
                assert(body@ == body_spec);
                assert(quote_start(s, i as int) == quote_start(s, e as int));
                assert(tag_join(s, i as int) == (if more_tags(s, e as int) {
                    body_spec + seq![' '] + tag_join(s, e as int)
                } else {
                    body_spec
                }));
                if first {
                    assert(tags@ =~= body_spec);
                    if more_tags(s, e as int) {
                        assert(tag_join(s, 0) =~= tags@ + seq![' '] + tag_join(s, e as int));
                    } else {
                        assert(tag_join(s, 0) =~= tags@);
                    }
                } else {
                    assert(more_tags(s, i as int));
                    assert(tags@ =~= tags_old + seq![' '] + body_spec);
                    if more_tags(s, e as int) {
                        assert(tag_join(s, 0) =~= tags@ + seq![' '] + tag_join(s, e as int));
                    } else {
                        assert(tag_join(s, 0) =~= tags@);
                    }
                }
            }
            first = false;
            i = e;
        } else {
            let mut endpos = n;
            while endpos > t && is_ws(text.get_char(endpos - 1))
                invariant
                    t <= endpos <= n,
                    t < n,
                    n == s.len(),
                    s == text@,
                    trim_end_ws(s.subrange(t as int, n as int)) == trim_end_ws(
                        s.subrange(t as int, endpos as int),
                    ),
                decreases endpos,
            {
                proof {
                    assert(s.subrange(t as int, endpos as int).drop_last() =~= s.subrange(
                        t as int,
                        endpos as int - 1,
                    ));
                }
                endpos -= 1;
            }
            proof {
                assert(trim_end_ws(s.subrange(t as int, endpos as int)) == s.subrange(
                    t as int,
                    endpos as int,
                ));
            }
            let quote = text.substring_char(t, endpos).to_owned();
            proof {
                assert(quote_start(s, i as int) == t as int);
                let qs = quote_start(s, 0);
                assert(qs == t as int);
                assert(quote@ == trim_end_ws(s.subrange(qs, s.len() as int)));
                if first {
                    assert(tag_join(s, i as int) == Seq::<char>::empty());
                    assert(tags@ == tag_join(s, 0));
                } else {
                    assert(!more_tags(s, i as int));
                    assert(tags@ == tag_join(s, 0));
                }
                assert(parse_spec(s) == Some((tags@, quote@)));
            }
            return Some((tags, quote));
        }
    }
}

} // verus!
