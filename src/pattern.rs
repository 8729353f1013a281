//! Byte patterns: their textual form, and the search of a pattern in a buffer.
use vstd::prelude::*;

verus! {

/// Characters that separate the tokens of a pattern: those for which
/// `char::is_whitespace` holds.
pub open spec fn is_separator(c: char) -> bool {
    ||| c == ' '
    ||| c == '\t'
    ||| c == '\n'
    ||| c == '\u{0B}'
    ||| c == '\u{0C}'
    ||| c == '\r'
    ||| c == '\u{85}'
    ||| c == '\u{A0}'
    ||| c == '\u{1680}'
    ||| ('\u{2000}' <= c && c <= '\u{200A}')
    ||| c == '\u{2028}'
    ||| c == '\u{2029}'
    ||| c == '\u{202F}'
    ||| c == '\u{205F}'
    ||| c == '\u{3000}'
}

/// The tokens closed so far and the token still open, after reading `s`.
pub open spec fn split_scan(s: Seq<char>) -> (Seq<Seq<char>>, Seq<char>)
    decreases s.len(),
{
    if s.len() == 0 {
        (Seq::empty(), Seq::empty())
    } else {
        let (done, cur) = split_scan(s.drop_last());
        let c = s.last();
        if is_separator(c) {
            if cur.len() > 0 {
                (done.push(cur), Seq::empty())
            } else {
                (done, cur)
            }
        } else {
            (done, cur.push(c))
        }
    }
}

/// The maximal runs of non-separator characters of `s`, in order.
pub open spec fn tokens_of(s: Seq<char>) -> Seq<Seq<char>> {
    let (done, cur) = split_scan(s);
    if cur.len() > 0 {
        done.push(cur)
    } else {
        done
    }
}

pub open spec fn is_hex_digit(c: char) -> bool {
    ('0' <= c && c <= '9') || ('a' <= c && c <= 'f') || ('A' <= c && c <= 'F')
}

pub open spec fn hex_digit_value(c: char) -> int {
    if '0' <= c && c <= '9' {
        c as int - '0' as int
    } else if 'a' <= c && c <= 'f' {
        c as int - 'a' as int + 10
    } else {
        c as int - 'A' as int + 10
    }
}

pub open spec fn all_hex(t: Seq<char>) -> bool {
    forall|i: int| 0 <= i < t.len() ==> is_hex_digit(#[trigger] t[i])
}

/// The number that the hex digits of `t` write, most significant first.
pub open spec fn hex_value(t: Seq<char>) -> int
    decreases t.len(),
{
    if t.len() == 0 {
        0
    } else {
        hex_value(t.drop_last()) * 16 + hex_digit_value(t.last())
    }
}

pub open spec fn is_wildcard_token(t: Seq<char>) -> bool {
    t == seq!['?', '?']
}

/// What one token stands for: `Some(None)` for the wildcard, `Some(Some(b))`
/// for a hex number `b` below 256, `None` for a malformed token.
pub open spec fn token_meaning(t: Seq<char>) -> Option<Option<u8>> {
    if is_wildcard_token(t) {
        Some(None)
    } else if t.len() > 0 && all_hex(t) && hex_value(t) < 256 {
        Some(Some(hex_value(t) as u8))
    } else {
        None
    }
}

pub open spec fn tokens_valid(ts: Seq<Seq<char>>) -> bool {
    forall|i: int| 0 <= i < ts.len() ==> (#[trigger] token_meaning(ts[i])) is Some
}

pub open spec fn tokens_meaning(ts: Seq<Seq<char>>) -> Seq<Option<u8>> {
    ts.map_values(|t: Seq<char>| token_meaning(t)->0)
}

/// The parsed form of a pattern text, when every token is well formed.
pub open spec fn pattern_of(text: Seq<char>) -> Seq<Option<u8>> {
    tokens_meaning(tokens_of(text))
}

/// `index` is the first malformed token of `text`.
pub open spec fn first_malformed(text: Seq<char>, index: int) -> bool {
    let ts = tokens_of(text);
    &&& 0 <= index < ts.len()
    &&& token_meaning(ts[index]) is None
    &&& forall|j: int| 0 <= j < index ==> (#[trigger] token_meaning(ts[j])) is Some
}

/// The pattern occurs in `buf` at offset `o`: it fits there, and each concrete
/// byte of it equals the byte of `buf` that it lies on.
pub open spec fn matches_at(buf: Seq<u8>, pat: Seq<Option<u8>>, o: int) -> bool {
    &&& 0 <= o
    &&& o + pat.len() <= buf.len()
    &&& forall|j: int|
        0 <= j < pat.len() ==> (#[trigger] pat[j] matches Some(b) ==> buf[o + j] == b)
}

/// `r` is what a search of `pat` in `buf` owes: the smallest offset at which
/// the pattern occurs, or `None` when it occurs nowhere.
pub open spec fn is_first_match(buf: Seq<u8>, pat: Seq<Option<u8>>, r: Option<int>) -> bool {
    match r {
        Some(o) => matches_at(buf, pat, o) && forall|k: int|
            0 <= k < o ==> !#[trigger] matches_at(buf, pat, k),
        None => forall|k: int| !#[trigger] matches_at(buf, pat, k),
    }
}

pub open spec fn opt_int(r: Option<usize>) -> Option<int> {
    match r {
        Some(o) => Some(o as int),
        None => None,
    }
}

/// A pattern token was not a hex byte nor `??`.
#[derive(Debug, Clone, Copy, PartialEq, Eq, Structural)]
pub enum PatternError {
    MalformedToken { index: usize },
}

/// How far a token read so far can still become a well-formed one.
#[derive(PartialEq, Eq, Structural)]
enum TokenState {
    Empty,
    OneMark,
    TwoMarks,
    Hex(u8),
    Malformed,
}

spec fn classify(t: Seq<char>) -> TokenState {
    if t.len() == 0 {
        TokenState::Empty
    } else if t == seq!['?'] {
        TokenState::OneMark
    } else if is_wildcard_token(t) {
        TokenState::TwoMarks
    } else if all_hex(t) && hex_value(t) < 256 {
        TokenState::Hex(hex_value(t) as u8)
    } else {
        TokenState::Malformed
    }
}

/// The tokens closed so far have been turned into `out`, or `bad` names the
/// first malformed one among them.
spec fn progress(done: Seq<Seq<char>>, out: Seq<Option<u8>>, bad: Option<usize>) -> bool {
    match bad {
        None => tokens_valid(done) && out == tokens_meaning(done),
        Some(i) => {
            &&& i < done.len()
            &&& token_meaning(done[i as int]) is None
            &&& forall|j: int| 0 <= j < i ==> (#[trigger] token_meaning(done[j])) is Some
        },
    }
}

proof fn lemma_hex_value_push(t: Seq<char>, c: char)
    ensures
        hex_value(t.push(c)) == hex_value(t) * 16 + hex_digit_value(c),
{
    assert(t.push(c).drop_last() =~= t);
}

proof fn lemma_hex_value_nonneg(t: Seq<char>)
    requires
        all_hex(t),
    ensures
        hex_value(t) >= 0,
    decreases t.len(),
{
    if t.len() > 0 {
        assert(all_hex(t.drop_last())) by {
            assert forall|i: int| 0 <= i < t.drop_last().len() implies is_hex_digit(
                #[trigger] t.drop_last()[i],
            ) by {
                assert(is_hex_digit(t[i]));
            }
        }
        lemma_hex_value_nonneg(t.drop_last());
        assert(is_hex_digit(t[t.len() - 1]));
    }
}

fn is_separator_char(c: char) -> (r: bool)
    ensures
        r == is_separator(c),
{
    c == ' ' || c == '\t' || c == '\n' || c == '\u{0B}' || c == '\u{0C}' || c == '\r'
        || c == '\u{85}' || c == '\u{A0}' || c == '\u{1680}' || ('\u{2000}' <= c && c
        <= '\u{200A}') || c == '\u{2028}' || c == '\u{2029}' || c == '\u{202F}' || c
        == '\u{205F}' || c == '\u{3000}'
}

fn hex_digit(c: char) -> (r: Option<u8>)
    ensures
        r is Some <==> is_hex_digit(c),
        r matches Some(d) ==> d as int == hex_digit_value(c) && d < 16,
{
    if '0' <= c && c <= '9' {
        Some((c as u32 - '0' as u32) as u8)
    } else if 'a' <= c && c <= 'f' {
        Some((c as u32 - 'a' as u32 + 10) as u8)
    } else if 'A' <= c && c <= 'F' {
        Some((c as u32 - 'A' as u32 + 10) as u8)
    } else {
        None
    }
}

/// The state after one more non-separator character.
fn next_state(state: TokenState, c: char, Ghost(t): Ghost<Seq<char>>) -> (r: TokenState)
    requires
        classify(t) == state,
        !is_separator(c),
    ensures
        classify(t.push(c)) == r,
{
    let ghost u = t.push(c);
    assert(u.len() == t.len() + 1 && u[u.len() - 1] == c);
    assert(u.drop_last() =~= t);
    proof {
        lemma_hex_value_push(t, c);
    }
    match state {
        TokenState::Empty => {
            assert(u =~= seq![c]);
            assert(hex_value(t) == 0);
            assert(u.len() == 1);
            assert(u != seq!['?', '?']);
            if c == '?' {
                assert(u =~= seq!['?']);
                TokenState::OneMark
            } else {
                assert(u != seq!['?']) by {
                    assert(u[0] == c);
                }
                match hex_digit(c) {
                    Some(d) => {
                        assert(all_hex(u));
                        assert(hex_value(u) == d);
                        TokenState::Hex(d)
                    },
                    None => {
                        assert(!is_hex_digit(u[0]));
                        TokenState::Malformed
                    },
                }
            }
        },
        TokenState::OneMark => {
            if c == '?' {
                assert(u =~= seq!['?', '?']);
                TokenState::TwoMarks
            } else {
                assert(u != seq!['?']);
                assert(u != seq!['?', '?']) by {
                    assert(u[1] == c);
                }
                assert(u[0] == t[0] && t[0] == '?');
                assert(!is_hex_digit(u[0]));
                TokenState::Malformed
            }
        },
        TokenState::TwoMarks => {
            assert(u[0] == t[0] && t[0] == '?');
            assert(!is_hex_digit(u[0]));
            assert(u.len() == 3);
            TokenState::Malformed
        },
        TokenState::Hex(v) => {
            proof {
                lemma_hex_value_nonneg(t);
            }
            assert(is_hex_digit(t[0]));
            assert(u[0] == t[0]);
            assert(u != seq!['?', '?']);
            assert(u != seq!['?']);
            match hex_digit(c) {
                Some(d) => {
                    assert(all_hex(u)) by {
                        assert forall|i: int| 0 <= i < u.len() implies is_hex_digit(
                            #[trigger] u[i],
                        ) by {
                            if i < t.len() {
                                assert(u[i] == t[i]);
                            }
                        }
                    }
                    let w: u32 = v as u32 * 16 + d as u32;
                    if w < 256 {
                        TokenState::Hex(w as u8)
                    } else {
                        TokenState::Malformed
                    }
                },
                None => {
                    assert(!is_hex_digit(u[u.len() - 1]));
                    TokenState::Malformed
                },
            }
        },
        TokenState::Malformed => {
            assert(u != seq!['?']);
            proof {
                if u == seq!['?', '?'] {
                    assert(t =~= seq!['?']);
                }
                if all_hex(u) {
                    assert(all_hex(t)) by {
                        assert forall|i: int| 0 <= i < t.len() implies is_hex_digit(
                            #[trigger] t[i],
                        ) by {
                            assert(u[i] == t[i]);
                        }
                    }
                    assert(is_hex_digit(u[u.len() - 1]));
                    lemma_hex_value_nonneg(t);
                }
            }
            TokenState::Malformed
        },
    }
}

/// Closes the token `t` that `state` classifies.
fn close_token(
    state: &TokenState,
    out: &mut Vec<Option<u8>>,
    bad: &mut Option<usize>,
    Ghost(done): Ghost<Seq<Seq<char>>>,
    Ghost(t): Ghost<Seq<char>>,
)
    requires
        classify(t) == *state,
        t.len() > 0,
        progress(done, old(out)@, *old(bad)),
    ensures
        progress(done.push(t), final(out)@, *final(bad)),
{
    let ghost d2 = done.push(t);
    assert(d2[done.len() as int] == t);
    assert forall|j: int| 0 <= j < done.len() implies d2[j] == done[j] by {}
    proof {
        if t == seq!['?'] {
            assert(!is_hex_digit(t[0]));
        }
    }
    if bad.is_none() {
        let value: Option<Option<u8>> = match state {
            TokenState::TwoMarks => Some(None),
            TokenState::Hex(v) => Some(Some(*v)),
            _ => None,
        };
        assert(value == token_meaning(t));
        match value {
            Some(b) => {
                out.push(b);
                assert(tokens_meaning(d2) =~= tokens_meaning(done).push(b));
                assert(tokens_valid(d2)) by {
                    assert forall|j: int| 0 <= j < d2.len() implies (#[trigger] token_meaning(
                        d2[j],
                    )) is Some by {
                        if j < done.len() {
                            assert(token_meaning(done[j]) is Some);
                        }
                    }
                }
            },
            None => {
                *bad = Some(out.len());
                assert(out@.len() == tokens_meaning(done).len());
                assert forall|j: int| 0 <= j < done.len() implies (#[trigger] token_meaning(
                    d2[j],
                )) is Some by {
                    assert(token_meaning(done[j]) is Some);
                }
            },
        }
    }
}

/// Parses a pattern text: tokens separated by whitespace, each a hex byte
/// (any case) or `??` for a byte that may hold anything.
pub fn parse_pattern(text: &str) -> (r: Result<Vec<Option<u8>>, PatternError>)
    ensures
        match r {
            Ok(p) => tokens_valid(tokens_of(text@)) && p@ == pattern_of(text@),
            Err(PatternError::MalformedToken { index }) => first_malformed(text@, index as int),
        },
{
    let ghost g = text@;
    let ghost mut done: Seq<Seq<char>> = Seq::empty();
    let ghost mut cur: Seq<char> = Seq::empty();
    let mut out: Vec<Option<u8>> = Vec::new();
    let mut bad: Option<usize> = None;
    let mut state = TokenState::Empty;
    assert(g.subrange(0, 0) =~= Seq::<char>::empty());
    assert(tokens_meaning(done) =~= out@);
    for c in it: text.chars()
        invariant
            it.seq() == g,
            split_scan(g.subrange(0, it.index() as int)) == (done, cur),
            classify(cur) == state,
            progress(done, out@, bad),
    {
        let ghost prefix = g.subrange(0, it.index() + 1);
        assert(prefix.drop_last() =~= g.subrange(0, it.index() as int));
        assert(prefix.last() == c);
        if is_separator_char(c) {
            if state != TokenState::Empty {
                close_token(&state, &mut out, &mut bad, Ghost(done), Ghost(cur));
                proof {
                    done = done.push(cur);
                    cur = Seq::empty();
                }
                state = TokenState::Empty;
            }
        } else {
            state = next_state(state, c, Ghost(cur));
            proof {
                cur = cur.push(c);
            }
        }
    }
    assert(g.subrange(0, g.len() as int) =~= g);
    if state != TokenState::Empty {
        close_token(&state, &mut out, &mut bad, Ghost(done), Ghost(cur));
        proof {
            done = done.push(cur);
        }
    }
    assert(tokens_of(g) == done);
    match bad {
        Some(index) => Err(PatternError::MalformedToken { index }),
        None => Ok(out),
    }
}

/// Searches `pattern` in `buf` by a sliding window, and returns the smallest
/// offset at which it occurs.
pub fn find(buf: &[u8], pattern: &[Option<u8>]) -> (r: Option<usize>)
    ensures
        is_first_match(buf@, pattern@, opt_int(r)),
{
    let n = buf.len();
    let m = pattern.len();
    if m > n {
        assert forall|k: int| !#[trigger] matches_at(buf@, pattern@, k) by {}
        return None;
    }
    let last = n - m;
    let mut o: usize = 0;
    while o <= last
        invariant
            n == buf@.len(),
            m == pattern@.len(),
            last == n - m,
            o <= last + 1,
            forall|k: int| 0 <= k < o ==> !#[trigger] matches_at(buf@, pattern@, k),
        decreases last + 1 - o,
    {
        let mut j: usize = 0;
        let mut ok = true;
        while ok && j < m
            invariant
                n == buf@.len(),
                m == pattern@.len(),
                o + m <= n,
                j <= m,
                forall|i: int|
                    0 <= i < j ==> (#[trigger] pattern@[i] matches Some(b) ==> buf@[o + i] == b),
                !ok ==> j < m && (pattern@[j as int] matches Some(b) && buf@[o + j] != b),
            decreases m - j + (if ok { 1int } else { 0int }),
        {
            match pattern[j] {
                Some(b) => {
                    if buf[o + j] != b {
                        ok = false;
                    } else {
                        j = j + 1;
                    }
                },
                None => {
                    j = j + 1;
                },
            }
        }
        if ok {
            return Some(o);
        }
        assert(!matches_at(buf@, pattern@, o as int)) by {
            assert(pattern@[j as int] matches Some(b) && buf@[o + j] != b);
        }
        o = o + 1;
    }
    assert forall|k: int| !#[trigger] matches_at(buf@, pattern@, k) by {
        if 0 <= k && k + m <= n {
            assert(k < o);
        }
    }
    None
}

/// Parses `text` and searches the pattern in `buf`; a malformed token stops
/// the search.
pub fn pattern_search(buf: &[u8], text: &str) -> (r: Result<Option<usize>, PatternError>)
    ensures
        match r {
            Ok(o) => tokens_valid(tokens_of(text@)) && is_first_match(
                buf@,
                pattern_of(text@),
                opt_int(o),
            ),
            Err(PatternError::MalformedToken { index }) => first_malformed(text@, index as int),
        },
{
    match parse_pattern(text) {
        Ok(pattern) => Ok(find(buf, pattern.as_slice())),
        Err(e) => Err(e),
    }
}

/// A pattern made of wildcards alone occurs at the start of every buffer that
/// is at least as long as the pattern.
pub proof fn lemma_wildcards_match_at_start(buf: Seq<u8>, pat: Seq<Option<u8>>, r: Option<int>)
    requires
        forall|j: int| 0 <= j < pat.len() ==> (#[trigger] pat[j]) is None,
        pat.len() <= buf.len(),
        is_first_match(buf, pat, r),
    ensures
        r == Some(0int),
{
    assert(matches_at(buf, pat, 0));
}

} // verus!
