//! Inline markup substitution. An entered line may carry paired style
//! tokens; each opening token becomes the terminal escape that starts its
//! style, and each closing token becomes the one shared reset escape, so
//! closing any style resets all active styling. The transform is a single
//! left-to-right pass; since no token contains `<` past its first character,
//! occurrences never overlap, and since no replacement contains `<`, the
//! pass agrees with replacing the six tokens one after the other.

use vstd::prelude::*;
use crate::text::is_blank;
use crate::text::is_ws_char;

verus! {

/// The three inline styles a line may carry.
pub enum Style {
    Bold,
    Italic,
    Underline,
}

/// The token that opens a style.
pub open spec fn opening_token(st: Style) -> Seq<char> {
    match st {
        Style::Bold => seq!['<', 'b', '>'],
        Style::Italic => seq!['<', 'i', '>'],
        Style::Underline => seq!['<', 'u', '>'],
    }
}

/// The token that closes a style.
pub open spec fn closing_token(st: Style) -> Seq<char> {
    match st {
        Style::Bold => seq!['<', '\\', 'b', '>'],
        Style::Italic => seq!['<', '\\', 'i', '>'],
        Style::Underline => seq!['<', '\\', 'u', '>'],
    }
}

/// The terminal escape that starts a style.
pub open spec fn style_escape(st: Style) -> Seq<char> {
    match st {
        Style::Bold => seq!['\u{1b}', '[', '1', 'm'],
        Style::Italic => seq!['\u{1b}', '[', '3', 'm'],
        Style::Underline => seq!['\u{1b}', '[', '4', 'm'],
    }
}

/// The one terminal escape that ends every style.
pub open spec fn reset_escape() -> Seq<char> {
    seq!['\u{1b}', '[', '0', 'm']
}

/// `pat` occurs in `s` starting at position `i`.
pub open spec fn occurs_at(s: Seq<char>, i: int, pat: Seq<char>) -> bool {
    0 <= i && i + pat.len() <= s.len() && s.subrange(i, i + pat.len()) == pat
}

/// One of the six markup tokens.
pub open spec fn is_token(p: Seq<char>) -> bool {
    ||| p == opening_token(Style::Bold)
    ||| p == closing_token(Style::Bold)
    ||| p == opening_token(Style::Italic)
    ||| p == closing_token(Style::Italic)
    ||| p == opening_token(Style::Underline)
    ||| p == closing_token(Style::Underline)
}

/// What a token is replaced with.
pub open spec fn token_replacement(p: Seq<char>) -> Seq<char> {
    if p == opening_token(Style::Bold) {
        style_escape(Style::Bold)
    } else if p == opening_token(Style::Italic) {
        style_escape(Style::Italic)
    } else if p == opening_token(Style::Underline) {
        style_escape(Style::Underline)
    } else {
        reset_escape()
    }
}

/// The token standing at the head of the line, if any, with its
/// replacement.
pub open spec fn head_tok(s: Seq<char>) -> Option<(Seq<char>, Seq<char>)> {
    if occurs_at(s, 0, opening_token(Style::Bold)) {
        Some((opening_token(Style::Bold), style_escape(Style::Bold)))
    } else if occurs_at(s, 0, closing_token(Style::Bold)) {
        Some((closing_token(Style::Bold), reset_escape()))
    } else if occurs_at(s, 0, opening_token(Style::Italic)) {
        Some((opening_token(Style::Italic), style_escape(Style::Italic)))
    } else if occurs_at(s, 0, closing_token(Style::Italic)) {
        Some((closing_token(Style::Italic), reset_escape()))
    } else if occurs_at(s, 0, opening_token(Style::Underline)) {
        Some((opening_token(Style::Underline), style_escape(Style::Underline)))
    } else if occurs_at(s, 0, closing_token(Style::Underline)) {
        Some((closing_token(Style::Underline), reset_escape()))
    } else {
        None
    }
}

/// The transformed line: every token occurrence replaced by its escape,
/// every other character kept.
pub open spec fn apply_markup_spec(s: Seq<char>) -> Seq<char>
    decreases s.len(),
{
    if s.len() == 0 {
        Seq::<char>::empty()
    } else {
        match head_tok(s) {
            Some(pr) => pr.1 + apply_markup_spec(s.skip(pr.0.len() as int)),
            None => seq![s[0]] + apply_markup_spec(s.skip(1)),
        }
    }
}

/// `pat` occurs at `i` in `s` exactly when it occurs at `i - d` in
/// `s.skip(d)`.
proof fn lemma_occurs_shift(s: Seq<char>, i: int, pat: Seq<char>, d: int)
    requires
        0 <= d <= i,
        d <= s.len(),
    ensures
        occurs_at(s, i, pat) <==> occurs_at(s.skip(d), i - d, pat),
{
    assert(s.skip(d).len() == s.len() - d);
    if i + pat.len() <= s.len() {
        assert(s.skip(d).subrange(i - d, i - d + pat.len()) =~= s.subrange(i, i + pat.len()));
    }
}

fn match3(s: &str, i: usize, c0: char, c1: char, c2: char) -> (r: bool)
    requires
        i <= s@.len(),
    ensures
        r == occurs_at(s@, i as int, seq![c0, c1, c2]),
{
    let n: usize = s.unicode_len();
    if n - i < 3 {
        return false;
    }
    let r = s.get_char(i) == c0 && s.get_char(i + 1) == c1 && s.get_char(i + 2) == c2;
    proof {
        if r {
            assert(s@.subrange(i as int, i + 3) =~= seq![c0, c1, c2]);
        } else {
            assert(s@.subrange(i as int, i + 3) != seq![c0, c1, c2]) by {
                if s@.subrange(i as int, i + 3) == seq![c0, c1, c2] {
                    assert(s@[i as int] == s@.subrange(i as int, i + 3)[0]);
                    assert(s@[i + 1] == s@.subrange(i as int, i + 3)[1]);
                    assert(s@[i + 2] == s@.subrange(i as int, i + 3)[2]);
                }
            }
        }
    }
    r
}

fn match4(s: &str, i: usize, c0: char, c1: char, c2: char, c3: char) -> (r: bool)
    requires
        i <= s@.len(),
    ensures
        r == occurs_at(s@, i as int, seq![c0, c1, c2, c3]),
{
    let n: usize = s.unicode_len();
    if n - i < 4 {
        return false;
    }
    let r = s.get_char(i) == c0 && s.get_char(i + 1) == c1 && s.get_char(i + 2) == c2
        && s.get_char(i + 3) == c3;
    proof {
        if r {
            assert(s@.subrange(i as int, i + 4) =~= seq![c0, c1, c2, c3]);
        } else {
            assert(s@.subrange(i as int, i + 4) != seq![c0, c1, c2, c3]) by {
                if s@.subrange(i as int, i + 4) == seq![c0, c1, c2, c3] {
                    assert(s@[i as int] == s@.subrange(i as int, i + 4)[0]);
                    assert(s@[i + 1] == s@.subrange(i as int, i + 4)[1]);
                    assert(s@[i + 2] == s@.subrange(i as int, i + 4)[2]);
                    assert(s@[i + 3] == s@.subrange(i as int, i + 4)[3]);
                }
            }
        }
    }
    r
}

/// Replace every markup token in the line by its terminal escape.
pub fn apply_markup(s: &str) -> (r: String)
    ensures
        r@ == apply_markup_spec(s@),
{
    let n: usize = s.unicode_len();
    let mut out = String::new();
    let mut i: usize = 0;
    proof {
        assert(s@.skip(0) =~= s@);
        assert(out@ + apply_markup_spec(s@) =~= apply_markup_spec(s@));
    }
    while i < n
        invariant
            n == s@.len(),
            0 <= i <= n,
            apply_markup_spec(s@) == out@ + apply_markup_spec(s@.skip(i as int)),
        decreases n - i,
    {
        let ghost pre = out@;
        let ghost rest = s@.skip(i as int);
        let ghost mut repl: Seq<char> = Seq::<char>::empty();
        proof {
            lemma_occurs_shift(s@, i as int, opening_token(Style::Bold), i as int);
            lemma_occurs_shift(s@, i as int, closing_token(Style::Bold), i as int);
            lemma_occurs_shift(s@, i as int, opening_token(Style::Italic), i as int);
            lemma_occurs_shift(s@, i as int, closing_token(Style::Italic), i as int);
            lemma_occurs_shift(s@, i as int, opening_token(Style::Underline), i as int);
            lemma_occurs_shift(s@, i as int, closing_token(Style::Underline), i as int);
            assert(seq!['<', 'b', '>'] =~= opening_token(Style::Bold));
            assert(seq!['<', '\\', 'b', '>'] =~= closing_token(Style::Bold));
            assert(seq!['<', 'i', '>'] =~= opening_token(Style::Italic));
            assert(seq!['<', '\\', 'i', '>'] =~= closing_token(Style::Italic));
            assert(seq!['<', 'u', '>'] =~= opening_token(Style::Underline));
            assert(seq!['<', '\\', 'u', '>'] =~= closing_token(Style::Underline));
        }
        let step: usize;
        if match3(s, i, '<', 'b', '>') {
            step = 3;
            proof {
                repl = style_escape(Style::Bold);
                assert(head_tok(rest) == Some((opening_token(Style::Bold), repl)));
                reveal_strlit("\u{1b}[1m");
                assert("\u{1b}[1m"@ =~= repl);
            }
            out.append("\u{1b}[1m");
        } else if match4(s, i, '<', '\\', 'b', '>') {
            step = 4;
            proof {
                repl = reset_escape();
                assert(head_tok(rest) == Some((closing_token(Style::Bold), repl)));
                reveal_strlit("\u{1b}[0m");
                assert("\u{1b}[0m"@ =~= repl);
            }
            out.append("\u{1b}[0m");
        } else if match3(s, i, '<', 'i', '>') {
            step = 3;
            proof {
                repl = style_escape(Style::Italic);
                assert(head_tok(rest) == Some((opening_token(Style::Italic), repl)));
                reveal_strlit("\u{1b}[3m");
                assert("\u{1b}[3m"@ =~= repl);
            }
            out.append("\u{1b}[3m");
        } else if match4(s, i, '<', '\\', 'i', '>') {
            step = 4;
            proof {
                repl = reset_escape();
                assert(head_tok(rest) == Some((closing_token(Style::Italic), repl)));
                reveal_strlit("\u{1b}[0m");
                assert("\u{1b}[0m"@ =~= repl);
            }
            out.append("\u{1b}[0m");
        } else if match3(s, i, '<', 'u', '>') {
            step = 3;
            proof {
                repl = style_escape(Style::Underline);
                assert(head_tok(rest) == Some((opening_token(Style::Underline), repl)));
                reveal_strlit("\u{1b}[4m");
                assert("\u{1b}[4m"@ =~= repl);
            }
            out.append("\u{1b}[4m");
        } else if match4(s, i, '<', '\\', 'u', '>') {
            step = 4;
            proof {
                repl = reset_escape();
                assert(head_tok(rest) == Some((closing_token(Style::Underline), repl)));
                reveal_strlit("\u{1b}[0m");
                assert("\u{1b}[0m"@ =~= repl);
            }
            out.append("\u{1b}[0m");
        } else {
            step = 1;
            proof {
                assert(head_tok(rest) is None);
                assert(rest[0] == s@[i as int]);
                repl = seq![s@[i as int]];
            }
            let piece = s.substring_char(i, i + 1);
            proof {
                assert(piece@ =~= seq![s@[i as int]]);
            }
            out.append(piece);
        }
        proof {
            assert(out@ == pre + repl);
            assert(apply_markup_spec(rest) == repl + apply_markup_spec(rest.skip(step as int)));
            assert(rest.skip(step as int) =~= s@.skip(i + step));
            assert(out@ + apply_markup_spec(s@.skip(i + step)) =~= pre + apply_markup_spec(rest));
        }
        i += step;
    }
    proof {
        assert(s@.skip(n as int) =~= Seq::<char>::empty());
        assert(out@ + apply_markup_spec(s@.skip(n as int)) =~= out@);
    }
    out
}

proof fn lemma_token_facts()
    ensures
        forall|p: Seq<char>| is_token(p) ==> 3 <= p.len() <= 4,
        forall|p: Seq<char>| is_token(p) ==> p[0] == '<',
        forall|p: Seq<char>, k: int| is_token(p) && 1 <= k < p.len() ==> p[k] != '<',
        token_replacement(opening_token(Style::Bold)) == style_escape(Style::Bold),
        token_replacement(opening_token(Style::Italic)) == style_escape(Style::Italic),
        token_replacement(opening_token(Style::Underline)) == style_escape(Style::Underline),
        token_replacement(closing_token(Style::Bold)) == reset_escape(),
        token_replacement(closing_token(Style::Italic)) == reset_escape(),
        token_replacement(closing_token(Style::Underline)) == reset_escape(),
{
    assert forall|p: Seq<char>, k: int| is_token(p) && 1 <= k < p.len() implies p[k] != '<' by {
        assert(opening_token(Style::Bold)[1] == 'b' && opening_token(Style::Bold)[2] == '>');
        assert(opening_token(Style::Italic)[1] == 'i' && opening_token(Style::Italic)[2] == '>');
        assert(opening_token(Style::Underline)[1] == 'u' && opening_token(Style::Underline)[2]
            == '>');
        assert(closing_token(Style::Bold)[1] == '\\' && closing_token(Style::Bold)[2] == 'b'
            && closing_token(Style::Bold)[3] == '>');
        assert(closing_token(Style::Italic)[1] == '\\' && closing_token(Style::Italic)[2] == 'i'
            && closing_token(Style::Italic)[3] == '>');
        assert(closing_token(Style::Underline)[1] == '\\' && closing_token(Style::Underline)[2]
            == 'u' && closing_token(Style::Underline)[3] == '>');
    }
    assert(closing_token(Style::Bold) != opening_token(Style::Bold)) by {
        assert(closing_token(Style::Bold).len() == 4);
    }
    assert(closing_token(Style::Bold) != opening_token(Style::Italic)) by {
        assert(closing_token(Style::Bold).len() == 4);
    }
    assert(closing_token(Style::Bold) != opening_token(Style::Underline)) by {
        assert(closing_token(Style::Bold).len() == 4);
    }
    assert(closing_token(Style::Italic) != opening_token(Style::Bold)) by {
        assert(closing_token(Style::Italic).len() == 4);
    }
    assert(closing_token(Style::Italic) != opening_token(Style::Italic)) by {
        assert(closing_token(Style::Italic).len() == 4);
    }
    assert(closing_token(Style::Italic) != opening_token(Style::Underline)) by {
        assert(closing_token(Style::Italic).len() == 4);
    }
    assert(closing_token(Style::Underline) != opening_token(Style::Bold)) by {
        assert(closing_token(Style::Underline).len() == 4);
    }
    assert(closing_token(Style::Underline) != opening_token(Style::Italic)) by {
        assert(closing_token(Style::Underline).len() == 4);
    }
    assert(closing_token(Style::Underline) != opening_token(Style::Underline)) by {
        assert(closing_token(Style::Underline).len() == 4);
    }
    assert(opening_token(Style::Italic) != opening_token(Style::Bold)) by {
        assert(opening_token(Style::Italic)[1] == 'i' && opening_token(Style::Bold)[1] == 'b');
    }
    assert(opening_token(Style::Underline) != opening_token(Style::Bold)) by {
        assert(opening_token(Style::Underline)[1] == 'u' && opening_token(Style::Bold)[1] == 'b');
    }
    assert(opening_token(Style::Underline) != opening_token(Style::Italic)) by {
        assert(opening_token(Style::Underline)[1] == 'u' && opening_token(Style::Italic)[1]
            == 'i');
    }
}

/// At most one token occurs at any one position: every token starts with
/// `<`, contains no later `<`, and no token is a prefix of another.
proof fn lemma_token_unique(s: Seq<char>, p1: Seq<char>, p2: Seq<char>)
    requires
        is_token(p1),
        is_token(p2),
        occurs_at(s, 0, p1),
        occurs_at(s, 0, p2),
    ensures
        p1 == p2,
{
    assert(s.subrange(0, p1.len() as int)[1] == s[1]);
    assert(s.subrange(0, p2.len() as int)[1] == s[1]);
    assert(s.subrange(0, p1.len() as int)[2] == s[2]);
    assert(s.subrange(0, p2.len() as int)[2] == s[2]);
    assert(p1[1] == s[1] && p2[1] == s[1] && p1[2] == s[2] && p2[2] == s[2]);
}

/// The head token is exactly the token that occurs at position 0.
proof fn lemma_head_tok_some(s: Seq<char>, p: Seq<char>)
    requires
        is_token(p),
        occurs_at(s, 0, p),
    ensures
        head_tok(s) == Some((p, token_replacement(p))),
{
    lemma_token_facts();
    if occurs_at(s, 0, opening_token(Style::Bold)) {
        lemma_token_unique(s, p, opening_token(Style::Bold));
    } else if occurs_at(s, 0, closing_token(Style::Bold)) {
        lemma_token_unique(s, p, closing_token(Style::Bold));
    } else if occurs_at(s, 0, opening_token(Style::Italic)) {
        lemma_token_unique(s, p, opening_token(Style::Italic));
    } else if occurs_at(s, 0, closing_token(Style::Italic)) {
        lemma_token_unique(s, p, closing_token(Style::Italic));
    } else if occurs_at(s, 0, opening_token(Style::Underline)) {
        lemma_token_unique(s, p, opening_token(Style::Underline));
    } else if occurs_at(s, 0, closing_token(Style::Underline)) {
        lemma_token_unique(s, p, closing_token(Style::Underline));
    }
}

proof fn lemma_occurs_take(s: Seq<char>, le: int, pat: Seq<char>)
    requires
        0 <= le <= s.len(),
    ensures
        occurs_at(s.take(le), 0, pat) <==> (pat.len() <= le && occurs_at(s, 0, pat)),
{
    if pat.len() <= le {
        assert(s.take(le).subrange(0, pat.len() as int) =~= s.subrange(0, pat.len() as int));
    }
}

/// Truncating a line behind the head token does not change the head token.
proof fn lemma_head_tok_prefix(s: Seq<char>, le: int)
    requires
        0 <= le <= s.len(),
        head_tok(s) matches Some(pr) ==> pr.0.len() <= le,
    ensures
        head_tok(s.take(le)) == head_tok(s),
{
    lemma_occurs_take(s, le, opening_token(Style::Bold));
    lemma_occurs_take(s, le, closing_token(Style::Bold));
    lemma_occurs_take(s, le, opening_token(Style::Italic));
    lemma_occurs_take(s, le, closing_token(Style::Italic));
    lemma_occurs_take(s, le, opening_token(Style::Underline));
    lemma_occurs_take(s, le, closing_token(Style::Underline));
}

/// Every token occurrence is replaced, wherever it stands: the transform
/// of the whole line splits at the occurrence into the transformed prefix,
/// the token's escape, and the transformed remainder.
pub proof fn lemma_markup_at_occurrence(s: Seq<char>, i: int, p: Seq<char>)
    requires
        is_token(p),
        occurs_at(s, i, p),
    ensures
        apply_markup_spec(s) == apply_markup_spec(s.take(i)) + token_replacement(p)
            + apply_markup_spec(s.skip(i + p.len())),
    decreases i,
{
    lemma_token_facts();
    let pl = p.len() as int;
    if i == 0 {
        lemma_head_tok_some(s, p);
        assert(s.take(0) =~= Seq::<char>::empty());
        assert(apply_markup_spec(s) == token_replacement(p) + apply_markup_spec(s.skip(pl)));
        assert(apply_markup_spec(s.take(0)) + token_replacement(p) + apply_markup_spec(s.skip(pl))
            =~= token_replacement(p) + apply_markup_spec(s.skip(pl)));
    } else {
        assert(s[i] == p[0]) by {
            assert(s.subrange(i, i + pl)[0] == s[i]);
        }
        match head_tok(s) {
            Option::Some(pr) => {
                let q = pr.0;
                let r = pr.1;
                assert(is_token(q) && occurs_at(s, 0, q) && r == token_replacement(q));
                let ql = q.len() as int;
                assert(ql <= i) by {
                    if i < ql {
                        assert(s.subrange(0, ql)[i] == s[i]);
                    }
                }
                lemma_occurs_shift(s, i, p, ql);
                lemma_markup_at_occurrence(s.skip(ql), i - ql, p);
                let mid = s.subrange(ql, i);
                let tail = s.skip(i + pl);
                assert(s.skip(ql).take(i - ql) =~= mid);
                assert(s.skip(ql).skip(i - ql + pl) =~= tail);
                assert(apply_markup_spec(s.skip(ql)) == apply_markup_spec(mid)
                    + token_replacement(p) + apply_markup_spec(tail));
                lemma_head_tok_prefix(s, i);
                assert(s.take(i).skip(ql) =~= mid);
                assert(apply_markup_spec(s.take(i)) == r + apply_markup_spec(mid));
                assert(apply_markup_spec(s) == r + apply_markup_spec(s.skip(ql)));
                assert(r + (apply_markup_spec(mid) + token_replacement(p) + apply_markup_spec(
                    tail,
                )) =~= (r + apply_markup_spec(mid)) + token_replacement(p) + apply_markup_spec(
                    tail,
                ));
            },
            Option::None => {
                lemma_occurs_shift(s, i, p, 1);
                lemma_markup_at_occurrence(s.skip(1), i - 1, p);
                let mid = s.subrange(1, i);
                let tail = s.skip(i + pl);
                assert(s.skip(1).take(i - 1) =~= mid);
                assert(s.skip(1).skip(i - 1 + pl) =~= tail);
                assert(apply_markup_spec(s.skip(1)) == apply_markup_spec(mid) + token_replacement(
                    p,
                ) + apply_markup_spec(tail));
                lemma_head_tok_prefix(s, i);
                assert(s.take(i).skip(1) =~= mid);
                assert(s.take(i)[0] == s[0]);
                assert(apply_markup_spec(s.take(i)) == seq![s[0]] + apply_markup_spec(mid));
                assert(apply_markup_spec(s) == seq![s[0]] + apply_markup_spec(s.skip(1)));
                assert(seq![s[0]] + (apply_markup_spec(mid) + token_replacement(p)
                    + apply_markup_spec(tail)) =~= (seq![s[0]] + apply_markup_spec(mid))
                    + token_replacement(p) + apply_markup_spec(tail));
            },
        }
    }
}

/// A style span is rendered faithfully: wherever an opening token is
/// followed, anywhere later, by its matching closing token, the transformed
/// line is the transformed prefix, the style's escape, the transformed
/// enclosed text, the reset escape, and the transformed remainder — with
/// both tokens' text removed.
#[verifier::rlimit(60)]
pub proof fn lemma_styled_span(s: Seq<char>, st: Style, i: int, j: int)
    requires
        occurs_at(s, i, opening_token(st)),
        occurs_at(s, j, closing_token(st)),
        i + 3 <= j,
    ensures
        apply_markup_spec(s) == apply_markup_spec(s.take(i)) + style_escape(st)
            + apply_markup_spec(s.subrange(i + 3, j)) + reset_escape() + apply_markup_spec(
            s.skip(j + 4),
        ),
{
    lemma_token_facts();
    let op = opening_token(st);
    let cl = closing_token(st);
    assert(is_token(op) && op.len() == 3 && token_replacement(op) == style_escape(st)) by {
        match st {
            Style::Bold => {},
            Style::Italic => {},
            Style::Underline => {},
        }
    }
    assert(is_token(cl) && cl.len() == 4 && token_replacement(cl) == reset_escape()) by {
        match st {
            Style::Bold => {},
            Style::Italic => {},
            Style::Underline => {},
        }
    }
    lemma_markup_at_occurrence(s, i, op);
    lemma_occurs_shift(s, j, cl, i + 3);
    lemma_markup_at_occurrence(s.skip(i + 3), j - (i + 3), cl);
    let a = apply_markup_spec(s.take(i));
    let e = style_escape(st);
    let m = apply_markup_spec(s.subrange(i + 3, j));
    let t = apply_markup_spec(s.skip(j + 4));
    assert(s.skip(i + 3).take(j - (i + 3)) =~= s.subrange(i + 3, j));
    assert(s.skip(i + 3).skip(j - (i + 3) + 4) =~= s.skip(j + 4));
    assert(apply_markup_spec(s.skip(i + 3)) == m + reset_escape() + t);
    assert(a + e + (m + reset_escape() + t) =~= a + e + m + reset_escape() + t);
}

/// A line that does not open with `<` carries no head token.
proof fn lemma_head_none_without_lt(s: Seq<char>)
    requires
        s.len() == 0 || s[0] != '<',
    ensures
        head_tok(s) is None,
{
    lemma_token_facts();
    if occurs_at(s, 0, opening_token(Style::Bold)) {
        assert(s.subrange(0, 3)[0] == s[0]);
    }
    if occurs_at(s, 0, closing_token(Style::Bold)) {
        assert(s.subrange(0, 4)[0] == s[0]);
    }
    if occurs_at(s, 0, opening_token(Style::Italic)) {
        assert(s.subrange(0, 3)[0] == s[0]);
    }
    if occurs_at(s, 0, closing_token(Style::Italic)) {
        assert(s.subrange(0, 4)[0] == s[0]);
    }
    if occurs_at(s, 0, opening_token(Style::Underline)) {
        assert(s.subrange(0, 3)[0] == s[0]);
    }
    if occurs_at(s, 0, closing_token(Style::Underline)) {
        assert(s.subrange(0, 4)[0] == s[0]);
    }
}

/// A line without `<` passes through the transform unchanged.
pub proof fn lemma_markup_plain_unchanged(s: Seq<char>)
    requires
        forall|k: int| 0 <= k < s.len() ==> s[k] != '<',
    ensures
        apply_markup_spec(s) == s,
    decreases s.len(),
{
    lemma_token_facts();
    if s.len() == 0 {
        assert(apply_markup_spec(s) =~= s);
    } else {
        lemma_head_none_without_lt(s);
        lemma_markup_plain_unchanged(s.skip(1));
        assert(seq![s[0]] + s.skip(1) =~= s);
    }
}

/// The transform never turns a non-blank line into a blank one: escapes
/// contain no white space and ordinary characters pass through.
pub proof fn lemma_markup_keeps_nonblank(s: Seq<char>)
    requires
        !is_blank(s),
    ensures
        !is_blank(apply_markup_spec(s)),
    decreases s.len(),
{
    let out = apply_markup_spec(s);
    match head_tok(s) {
        Option::Some(pr) => {
            assert(out[0] == pr.1[0]);
            assert(!is_ws_char(pr.1[0]));
        },
        Option::None => {
            if !is_ws_char(s[0]) {
                assert(out[0] == s[0]);
            } else {
                let k = choose|k: int| 0 <= k < s.len() && !is_ws_char(s[k]);
                assert(k != 0);
                assert(s.skip(1)[k - 1] == s[k]);
                assert(!is_blank(s.skip(1)));
                lemma_markup_keeps_nonblank(s.skip(1));
                let k2 = choose|k2: int|
                    0 <= k2 < apply_markup_spec(s.skip(1)).len() && !is_ws_char(
                        apply_markup_spec(s.skip(1))[k2],
                    );
                assert(out[k2 + 1] == apply_markup_spec(s.skip(1))[k2]);
                assert(!is_blank(out));
            }
        },
    }
}

} // verus!
