//! Verified text utilities: whitespace tokenization, joining tokens back into
//! a string, substring search, and ASCII-case-insensitive comparison. All of
//! the corpus and mutator logic speaks about strings through these.

use vstd::prelude::*;
use vstd::string::*;

verus! {

/// The characters treated as token separators: ASCII whitespace.
pub open spec fn is_ws_char(c: char) -> bool {
    c == ' ' || c == '\t' || c == '\n' || c == '\r' || c == '\u{b}' || c == '\u{c}'
}

/// The whitespace-separated tokens of `s`, defined one character at a time:
/// a whitespace character closes the current token, a non-whitespace
/// character either extends the current token or opens a new one.
pub open spec fn tokenize(s: Seq<char>) -> Seq<Seq<char>>
    decreases s.len(),
{
    if s.len() == 0 {
        Seq::empty()
    } else {
        let p = s.drop_last();
        let c = s.last();
        let tks = tokenize(p);
        if is_ws_char(c) {
            tks
        } else if p.len() > 0 && !is_ws_char(p.last()) {
            tks.update(tks.len() - 1, tks.last().push(c))
        } else {
            tks.push(seq![c])
        }
    }
}

/// Reads the characters of `s` into a vector.
pub fn chars_of(s: &str) -> (r: Vec<char>)
    ensures
        r@ == s@,
{
    let n = s.unicode_len();
    let mut r: Vec<char> = Vec::new();
    let mut i: usize = 0;
    while i < n
        invariant
            n == s@.len(),
            i <= n,
            r@ == s@.subrange(0, i as int),
        decreases n - i,
    {
        r.push(s.get_char(i));
        proof {
            assert(r@ =~= s@.subrange(0, i + 1 as int));
        }
        i += 1;
    }
    proof {
        assert(r@ =~= s@);
    }
    r
}

/// Splits `s` into its whitespace-separated tokens.
pub fn tokens_of(s: &str) -> (r: Vec<String>)
    ensures
        r@.map_values(|t: String| t@) == tokenize(s@),
{
    let n = s.unicode_len();
    let mut toks: Vec<String> = Vec::new();
    let mut start: usize = 0;
    let mut in_tok = false;
    let mut i: usize = 0;
    while i < n
        invariant
            n == s@.len(),
            i <= n,
            in_tok ==> start < i,
            in_tok ==> forall|j: int| start <= j < i ==> !is_ws_char(s@[j]),
            in_tok ==> toks@.map_values(|t: String| t@).push(s@.subrange(start as int, i as int))
                == tokenize(s@.subrange(0, i as int)),
            !in_tok ==> toks@.map_values(|t: String| t@) == tokenize(s@.subrange(0, i as int)),
            !in_tok ==> (i == 0 || is_ws_char(s@[i - 1])),
        decreases n - i,
    {
        let c = s.get_char(i);
        let ghost pre = s@.subrange(0, i as int);
        let ghost post = s@.subrange(0, i + 1 as int);
        proof {
            assert(post.drop_last() =~= pre);
            assert(post.last() == s@[i as int]);
        }
        if c == ' ' || c == '\t' || c == '\n' || c == '\r' || c == '\u{b}' || c == '\u{c}' {
            if in_tok {
                let tok = s.substring_char(start, i);
                toks.push(String::from_str(tok));
                proof {
                    assert(toks@.map_values(|t: String| t@)
                        =~= toks@.drop_last().map_values(|t: String| t@).push(
                            s@.subrange(start as int, i as int)));
                }
                in_tok = false;
            }
        } else {
            if in_tok {
                proof {
                    assert(pre.len() > 0 && !is_ws_char(pre.last()));
                    let tks = tokenize(pre);
                    let views = toks@.map_values(|t: String| t@);
                    assert(views.push(s@.subrange(start as int, i as int)) == tks);
                    assert(tks.last() == s@.subrange(start as int, i as int));
                    assert(tks.len() - 1 == views.len());
                    assert(s@.subrange(start as int, i as int).push(s@[i as int])
                        =~= s@.subrange(start as int, i + 1 as int));
                    assert(tokenize(post)
                        =~= views.push(s@.subrange(start as int, i + 1 as int)));
                }
            } else {
                start = i;
                proof {
                    assert(tokenize(post)
                        =~= toks@.map_values(|t: String| t@).push(seq![s@[i as int]]));
                    assert(s@.subrange(start as int, i + 1 as int) =~= seq![s@[i as int]]);
                }
                in_tok = true;
            }
        }
        i += 1;
    }
    proof {
        assert(s@.subrange(0, n as int) =~= s@);
    }
    if in_tok {
        let tok = s.substring_char(start, n);
        toks.push(String::from_str(tok));
        proof {
            assert(toks@.map_values(|t: String| t@)
                =~= toks@.drop_last().map_values(|t: String| t@).push(
                    s@.subrange(start as int, n as int)));
        }
    }
    toks
}

/// Number of whitespace-separated tokens of `s`.
pub fn word_count(s: &str) -> (n: usize)
    ensures
        n == tokenize(s@).len(),
{
    let toks = tokens_of(s);
    proof {
        assert(toks@.map_values(|t: String| t@).len() == toks@.len());
    }
    toks.len()
}

/// The tokens of `ts` joined with a single space between neighbours.
pub open spec fn join_tokens(ts: Seq<Seq<char>>) -> Seq<char>
    decreases ts.len(),
{
    if ts.len() == 0 {
        Seq::empty()
    } else if ts.len() == 1 {
        ts[0]
    } else {
        join_tokens(ts.drop_last()) + seq![' '] + ts.last()
    }
}

/// Joins `tokens` with a single space between neighbours.
pub fn join_with_spaces(tokens: &Vec<String>) -> (r: String)
    ensures
        r@ == join_tokens(tokens@.map_values(|t: String| t@)),
{
    let ghost views = tokens@.map_values(|t: String| t@);
    let mut r = String::new();
    let mut i: usize = 0;
    while i < tokens.len()
        invariant
            i <= tokens.len(),
            views == tokens@.map_values(|t: String| t@),
            r@ == join_tokens(views.subrange(0, i as int)),
        decreases tokens.len() - i,
    {
        if i > 0 {
            r.append(" ");
        }
        r.append(tokens[i].as_str());
        proof {
            reveal_strlit(" ");
            let pre = views.subrange(0, i as int);
            let post = views.subrange(0, i + 1 as int);
            assert(post.drop_last() =~= pre);
            assert(post.last() == views[i as int]);
            if i == 0 {
                assert(r@ =~= join_tokens(post));
            } else {
                assert(r@ =~= join_tokens(post));
            }
        }
        i += 1;
    }
    proof {
        assert(views.subrange(0, tokens@.len() as int) =~= views);
    }
    r
}

/// `needle` occurs contiguously somewhere inside `hay`.
pub open spec fn contains_sub(hay: Seq<char>, needle: Seq<char>) -> bool {
    exists|i: int|
        0 <= i && i + needle.len() <= hay.len() && #[trigger] hay.subrange(i, i + needle.len())
            == needle
}

/// Whether `needle` occurs as a contiguous substring of `hay`.
pub fn contains_substring(hay: &str, needle: &str) -> (b: bool)
    ensures
        b == contains_sub(hay@, needle@),
{
    let h = chars_of(hay);
    let nd = chars_of(needle);
    let hn = h.len();
    let nn = nd.len();
    if nn > hn {
        proof {
            assert(!contains_sub(hay@, needle@));
        }
        return false;
    }
    let mut i: usize = 0;
    while i <= hn - nn
        invariant
            h@ == hay@,
            nd@ == needle@,
            hn == hay@.len(),
            nn == needle@.len(),
            nn <= hn,
            i <= hn - nn + 1,
            forall|k: int|
                0 <= k < i ==> #[trigger] hay@.subrange(k, k + needle@.len()) != needle@,
        decreases hn + 1 - nn - i,
    {
        let mut j: usize = 0;
        let mut all_eq = true;
        while j < nn && all_eq
            invariant
                h@ == hay@,
                nd@ == needle@,
                hn == hay@.len(),
                nn == needle@.len(),
                i + nn <= hn,
                j <= nn,
                all_eq ==> (forall|l: int| 0 <= l < j ==> hay@[i + l] == needle@[l]),
                !all_eq ==> (exists|l: int| 0 <= l < nn && hay@[i + l] != needle@[l]),
            decreases nn - j + (if all_eq { 1int } else { 0int }),
        {
            if h[i + j] != nd[j] {
                all_eq = false;
                proof {
                    assert(hay@[i + j as int] != needle@[j as int]);
                }
            } else {
                proof {
                    assert(hay@[i + j as int] == needle@[j as int]);
                    assert(forall|l: int|
                        0 <= l < j + 1 ==> hay@[i + l] == needle@[l]);
                }
                j += 1;
            }
        }
        if all_eq {
            proof {
                assert(hay@.subrange(i as int, i + needle@.len()) =~= needle@);
            }
            return true;
        }
        proof {
            let w = choose|l: int| 0 <= l < nn && hay@[i + l] != needle@[l];
            if hay@.subrange(i as int, i + needle@.len()) == needle@ {
                assert(hay@.subrange(i as int, i + needle@.len())[w] == needle@[w]);
                assert(false);
            }
        }
        i += 1;
    }
    proof {
        assert(forall|k: int|
            0 <= k && k + needle@.len() <= hay@.len()
                ==> #[trigger] hay@.subrange(k, k + needle@.len()) != needle@);
    }
    false
}

/// Lower-cases an ASCII letter, leaves every other character unchanged.
pub open spec fn lower_char(c: char) -> char {
    if 'A' <= c && c <= 'Z' {
        ((c as u8) + 32) as char
    } else {
        c
    }
}

/// The character-wise ASCII lower-casing of `s`.
pub open spec fn lower_seq(s: Seq<char>) -> Seq<char> {
    s.map_values(|c: char| lower_char(c))
}

/// Whether `tok` equals `lit` up to ASCII case in `tok`.
pub fn eq_lower(tok: &str, lit: &str) -> (b: bool)
    ensures
        b == (lower_seq(tok@) == lit@),
{
    let tn = tok.unicode_len();
    let ln = lit.unicode_len();
    if tn != ln {
        proof {
            assert(lower_seq(tok@).len() == tok@.len());
        }
        return false;
    }
    let mut i: usize = 0;
    while i < tn
        invariant
            tn == tok@.len(),
            ln == lit@.len(),
            tn == ln,
            i <= tn,
            forall|j: int| 0 <= j < i ==> lower_char(tok@[j]) == lit@[j],
        decreases tn - i,
    {
        let c = tok.get_char(i);
        let lc = if 'A' <= c && c <= 'Z' {
            ((c as u8) + 32) as char
        } else {
            c
        };
        proof {
            assert(lc == lower_char(tok@[i as int]));
        }
        if lc != lit.get_char(i) {
            proof {
                assert(lower_seq(tok@)[i as int] != lit@[i as int]);
            }
            return false;
        }
        i += 1;
    }
    proof {
        assert(lower_seq(tok@) =~= lit@);
    }
    true
}

} // verus!
