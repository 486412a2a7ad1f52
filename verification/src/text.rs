//! The free-text match primitive of the catalog.
//!
//! A token is a maximal run of ASCII letters and digits; matching folds
//! upper-case letters, so it is case-insensitive.  A query matches a name
//! when the query has at least one token and every query token occurs
//! verbatim among the name's tokens; a query without any token matches
//! nothing.  This realizes the superset-safe case-insensitive token match
//! the filter compiler requires of the store's text-search capability.

use vstd::prelude::*;
use vstd::string::StrSliceExecFns;

verus! {

/// Token characters: ASCII letters and digits.
pub open spec fn is_token_char(c: char) -> bool {
    ('a' <= c && c <= 'z') || ('A' <= c && c <= 'Z') || ('0' <= c && c <= '9')
}

/// Case folding: upper-case ASCII letters map to lower case, every other
/// character stays.
pub open spec fn fold_char(c: char) -> char {
    if 'A' <= c && c <= 'Z' {
        (((c as u32) + 32) as char)
    } else {
        c
    }
}

/// `[i, j)` is a maximal run of token characters in `s`.
pub open spec fn token_run(s: Seq<char>, i: int, j: int) -> bool {
    &&& 0 <= i < j <= s.len()
    &&& (forall|k: int| i <= k < j ==> is_token_char(#[trigger] s[k]))
    &&& (i == 0 || !is_token_char(s[i - 1]))
    &&& (j == s.len() || !is_token_char(s[j]))
}

/// The folded token spanning `[i, j)` of `s`.
pub open spec fn token_at(s: Seq<char>, i: int, j: int) -> Seq<char> {
    s.subrange(i, j).map_values(|c: char| fold_char(c))
}

/// Whether `s` holds at least one token.
pub open spec fn has_token(s: Seq<char>) -> bool {
    exists|i: int, j: int| token_run(s, i, j)
}

/// Whether some token of `s` equals the folded token `t`.
pub open spec fn contains_token(s: Seq<char>, t: Seq<char>) -> bool {
    exists|i: int, j: int| token_run(s, i, j) && token_at(s, i, j) == t
}

/// The text-match contract: the query has at least one token and every
/// query token occurs among the name's tokens.
pub open spec fn text_matches(name: Seq<char>, q: Seq<char>) -> bool {
    &&& has_token(q)
    &&& forall|i: int, j: int| token_run(q, i, j) ==> contains_token(name, token_at(q, i, j))
}

/// Every listed token stems from a maximal token run of `s`.
pub open spec fn tokens_sound(s: Seq<char>, toks: Seq<Seq<char>>) -> bool {
    forall|idx: int|
        0 <= idx < toks.len() ==> exists|i: int, j: int|
            token_run(s, i, j) && token_at(s, i, j) == #[trigger] toks[idx]
}

/// Every maximal token run of `s` is listed.
pub open spec fn tokens_complete(s: Seq<char>, toks: Seq<Seq<char>>) -> bool {
    forall|i: int, j: int| token_run(s, i, j) ==> toks.contains(token_at(s, i, j))
}

/// Decides whether a character is a token character.
fn is_token_char_exec(c: char) -> (r: bool)
    ensures
        r == is_token_char(c),
{
    ('a' <= c && c <= 'z') || ('A' <= c && c <= 'Z') || ('0' <= c && c <= '9')
}

/// Folds one character to lower case.
fn fold_char_exec(c: char) -> (r: char)
    ensures
        r == fold_char(c),
{
    if 'A' <= c && c <= 'Z' {
        let b = (c as u32) + 32;
        proof {
            assert(97 <= b <= 122);
        }
        ((b as u8) as char)
    } else {
        c
    }
}

/// Splits a string into its folded tokens.  The result lists exactly the
/// maximal token runs of the string, in order of appearance.
pub fn tokenize(s: &str) -> (r: Vec<Vec<char>>)
    ensures
        tokens_sound(s@, r.deep_view()),
        tokens_complete(s@, r.deep_view()),
{
    let n = s.unicode_len();
    let mut r: Vec<Vec<char>> = Vec::new();
    let mut i: usize = 0;
    while i < n
        invariant
            n == s@.len(),
            i <= n,
            i == n || i == 0 || !is_token_char(s@[i as int - 1]) || !is_token_char(s@[i as int]),
            tokens_sound(s@, r.deep_view()),
            forall|a: int, b: int|
                token_run(s@, a, b) && b <= i ==> r.deep_view().contains(token_at(s@, a, b)),
        decreases n - i,
    {
        let c = s.get_char(i);
        if !is_token_char_exec(c) {
            proof {
                assert forall|a: int, b: int|
                    token_run(s@, a, b) && b <= i + 1 implies r.deep_view().contains(
                    token_at(s@, a, b),
                ) by {
                    if b == i + 1 {
                        assert(is_token_char(s@[b - 1]));
                    }
                }
            }
            i = i + 1;
        } else {
            let ghost start = i as int;
            proof {
                assert(i == 0 || !is_token_char(s@[i as int - 1]));
            }
            let mut cur: Vec<char> = Vec::new();
            let mut j: usize = i;
            while j < n && is_token_char_exec(s.get_char(j))
                invariant
                    n == s@.len(),
                    start == i,
                    i <= j <= n,
                    forall|k: int| start <= k < j ==> is_token_char(#[trigger] s@[k]),
                    cur@ == token_at(s@, start, j as int),
                decreases n - j,
            {
                let f = fold_char_exec(s.get_char(j));
                cur.push(f);
                j = j + 1;
                proof {
                    assert(cur@ =~= token_at(s@, start, j as int));
                }
            }
            proof {
                assert(token_run(s@, start, j as int));
            }
            let ghost prev_tokens = r.deep_view();
            r.push(cur);
            proof {
                assert(r.deep_view() =~~= prev_tokens.push(token_at(s@, start, j as int)));
                assert forall|idx: int| 0 <= idx < r.deep_view().len() implies exists|a: int, b: int|
                    token_run(s@, a, b) && token_at(s@, a, b) == #[trigger] r.deep_view()[idx] by {
                    if idx < prev_tokens.len() {
                        assert(r.deep_view()[idx] == prev_tokens[idx]);
                        let (a, b) = choose|a: int, b: int|
                            token_run(s@, a, b) && token_at(s@, a, b) == prev_tokens[idx];
                        assert(token_run(s@, a, b) && token_at(s@, a, b) == r.deep_view()[idx]);
                    } else {
                        assert(r.deep_view()[idx] == token_at(s@, start, j as int));
                        assert(token_run(s@, start, j as int) && token_at(s@, start, j as int)
                            == r.deep_view()[idx]);
                    }
                }
                assert forall|a: int, b: int|
                    token_run(s@, a, b) && b <= j implies r.deep_view().contains(
                    token_at(s@, a, b),
                ) by {
                    if b <= i {
                        assert(prev_tokens.contains(token_at(s@, a, b)));
                        let w = choose|w: int|
                            0 <= w < prev_tokens.len() && prev_tokens[w] == token_at(s@, a, b);
                        assert(r.deep_view()[w] == token_at(s@, a, b));
                    } else {
                        // The only maximal run ending past `i` and by `j`
                        // is the run just collected.
                        assert(b == j) by {
                            if b < j {
                                assert(is_token_char(s@[b]));
                            }
                        }
                        assert(a == start) by {
                            if a < start {
                                assert(is_token_char(s@[start - 1]));
                            } else if a > start {
                                assert(is_token_char(s@[a - 1]));
                            }
                        }
                        assert(r.deep_view()[r.deep_view().len() - 1] == token_at(s@, a, b));
                    }
                }
            }
            i = j;
        }
    }
    r
}

/// Character-for-character equality of two character lists.
fn chars_eq(a: &Vec<char>, b: &Vec<char>) -> (r: bool)
    ensures
        r == (a@ == b@),
{
    if a.len() != b.len() {
        proof {
            assert(a@ != b@);
        }
        return false;
    }
    let n = a.len();
    let mut i: usize = 0;
    while i < n
        invariant
            n == a@.len(),
            n == b@.len(),
            i <= n,
            forall|k: int| 0 <= k < i ==> a@[k] == b@[k],
        decreases n - i,
    {
        if a[i] != b[i] {
            return false;
        }
        i = i + 1;
    }
    proof {
        assert(a@ =~= b@);
    }
    true
}

/// Whether the token list holds the given token.
fn holds_token(tokens: &Vec<Vec<char>>, t: &Vec<char>) -> (r: bool)
    ensures
        r == tokens.deep_view().contains(t@),
{
    let n = tokens.len();
    let mut i: usize = 0;
    while i < n
        invariant
            n == tokens.deep_view().len(),
            n == tokens@.len(),
            i <= n,
            forall|k: int| 0 <= k < i ==> tokens.deep_view()[k] != t@,
        decreases n - i,
    {
        let hit = chars_eq(&tokens[i], t);
        proof {
            assert(tokens.deep_view()[i as int] == tokens@[i as int]@);
        }
        if hit {
            proof {
                assert(tokens.deep_view()[i as int] == t@);
            }
            return true;
        }
        i = i + 1;
    }
    proof {
        assert forall|k: int| 0 <= k < tokens.deep_view().len() implies tokens.deep_view()[k]
            != t@ by {}
        if tokens.deep_view().contains(t@) {
            let w = choose|w: int|
                0 <= w < tokens.deep_view().len() && tokens.deep_view()[w] == t@;
        }
    }
    false
}

/// Decides the text-match contract: whether every token of `query` occurs
/// among the tokens of `name`, the query having at least one.
pub fn text_match(name: &str, query: &str) -> (r: bool)
    ensures
        r == text_matches(name@, query@),
{
    let qt = tokenize(query);
    if qt.len() == 0 {
        proof {
            if has_token(query@) {
                let (i, j) = choose|i: int, j: int| token_run(query@, i, j);
                assert(qt.deep_view().contains(token_at(query@, i, j)));
            }
        }
        return false;
    }
    let nt = tokenize(name);
    let m = qt.len();
    let mut qi: usize = 0;
    while qi < m
        invariant
            m == qt@.len(),
            m == qt.deep_view().len(),
            qi <= m,
            tokens_sound(query@, qt.deep_view()),
            tokens_complete(query@, qt.deep_view()),
            tokens_sound(name@, nt.deep_view()),
            tokens_complete(name@, nt.deep_view()),
            forall|idx: int|
                0 <= idx < qi ==> contains_token(name@, #[trigger] qt.deep_view()[idx]),
        decreases m - qi,
    {
        let found = holds_token(&nt, &qt[qi]);
        if !found {
            proof {
                // The query token at `qi` stems from a run of the query;
                // were it among the name's tokens, `nt` would list it.
                let t = qt.deep_view()[qi as int];
                assert(qt@[qi as int]@ == t);
                if contains_token(name@, t) {
                    let (i, j) = choose|i: int, j: int|
                        token_run(name@, i, j) && token_at(name@, i, j) == t;
                    assert(nt.deep_view().contains(t));
                }
                let (i, j) = choose|i: int, j: int|
                    token_run(query@, i, j) && token_at(query@, i, j) == t;
                assert(!text_matches(name@, query@));
            }
            return false;
        }
        proof {
            let t = qt.deep_view()[qi as int];
            assert(qt@[qi as int]@ == t);
            assert(nt.deep_view().contains(t));
            let w = choose|w: int| 0 <= w < nt.deep_view().len() && nt.deep_view()[w] == t;
            let (i, j) = choose|i: int, j: int|
                token_run(name@, i, j) && token_at(name@, i, j) == nt.deep_view()[w];
            assert(contains_token(name@, t));
        }
        qi = qi + 1;
    }
    proof {
        assert(has_token(query@)) by {
            let (i, j) = choose|i: int, j: int|
                token_run(query@, i, j) && token_at(query@, i, j) == qt.deep_view()[0];
        }
        assert forall|i: int, j: int| token_run(query@, i, j) implies contains_token(
            name@,
            token_at(query@, i, j),
        ) by {
            assert(qt.deep_view().contains(token_at(query@, i, j)));
            let idx = choose|idx: int|
                0 <= idx < qt.deep_view().len() && qt.deep_view()[idx] == token_at(query@, i, j);
        }
    }
    true
}

} // verus!
