//! Lexical tokens of a validation declaration.
//!
//! Declarations are parsed over a token list, not over raw text, so that a
//! comma nested inside delimiters or a generic argument list never splits an
//! argument list in the wrong place.

use vstd::prelude::*;

verus! {

/// One token of a declaration's argument list or of a type expression.
#[derive(Debug, PartialEq, Eq, Clone)]
pub enum Tok {
    /// An identifier, keyword or path segment.
    Ident(String),
    /// A literal, kept as its source text.
    Lit(String),
    /// A single punctuation character, as text; the flag says the token is
    /// joined to the next one with no space in between (as the two halves of
    /// a path separator are).
    Punct(String, bool),
}

/// The mathematical shape of a token: its text and spacing.
pub ghost enum TokView {
    Ident(Seq<char>),
    Lit(Seq<char>),
    Punct(Seq<char>, bool),
}

impl DeepView for Tok {
    type V = TokView;

    open spec fn deep_view(&self) -> TokView {
        match self {
            Tok::Ident(s) => TokView::Ident(s@),
            Tok::Lit(s) => TokView::Lit(s@),
            Tok::Punct(s, j) => TokView::Punct(s@, *j),
        }
    }
}

/// The token opens a nesting level: a bracket, or the start of a generic
/// argument list.
pub open spec fn opens_nesting(t: TokView) -> bool {
    t matches TokView::Punct(s, _) && (s == "("@ || s == "["@ || s == "{"@ || s == "<"@)
}

/// The token closes a nesting level.
pub open spec fn closes_nesting(t: TokView) -> bool {
    t matches TokView::Punct(s, _) && (s == ")"@ || s == "]"@ || s == "}"@ || s == ">"@)
}

/// How the token changes the nesting depth.
pub open spec fn tok_delta(t: TokView) -> int {
    if opens_nesting(t) {
        1
    } else if closes_nesting(t) {
        -1
    } else {
        0
    }
}

/// The token is a comma.
pub open spec fn is_comma(t: TokView) -> bool {
    t matches TokView::Punct(s, _) && s == ","@
}

/// The nesting depth after one token. A closing token seen at depth zero —
/// the second half of an arrow, or a stray closer — leaves the depth at
/// zero instead of pushing it negative, so it cannot unprotect a later
/// comma.
pub open spec fn next_depth(d: int, t: TokView) -> int {
    let nd = d + tok_delta(t);
    if nd < 0 {
        0
    } else {
        nd
    }
}

/// Position of the first comma that stands at nesting depth zero, scanning
/// from position `i` with `d` nesting levels already open.
pub open spec fn comma_at_depth0(ts: Seq<TokView>, i: int, d: int) -> Option<int>
    decreases ts.len() - i,
    when 0 <= i <= ts.len()
{
    if i >= ts.len() {
        None
    } else if d == 0 && is_comma(ts[i]) {
        Some(i)
    } else {
        comma_at_depth0(ts, i + 1, next_depth(d, ts[i]))
    }
}

/// Compares a text field with a given word.
pub fn text_is(s: &String, w: &str) -> (r: bool)
    ensures
        r == (s@ == w@),
{
    let other: String = w.to_owned();
    *s == other
}

/// Nesting-depth change of one token, as executable code.
fn tok_delta_exec(t: &Tok) -> (d: i8)
    ensures
        d as int == tok_delta(t.deep_view()),
{
    match t {
        Tok::Punct(s, _) => {
            if text_is(s, "(") || text_is(s, "[") || text_is(s, "{") || text_is(s, "<") {
                1
            } else if text_is(s, ")") || text_is(s, "]") || text_is(s, "}") || text_is(s, ">") {
                -1
            } else {
                0
            }
        },
        _ => 0,
    }
}

fn is_comma_exec(t: &Tok) -> (r: bool)
    ensures
        r == is_comma(t.deep_view()),
{
    match t {
        Tok::Punct(s, _) => text_is(s, ","),
        _ => false,
    }
}

fn comma_scan_from(ts: &Vec<Tok>, i: usize, d: usize) -> (r: Option<usize>)
    requires
        i <= ts.len(),
        d <= i,
    ensures
        r is None <==> comma_at_depth0(ts.deep_view(), i as int, d as int) is None,
        r matches Some(c) ==> comma_at_depth0(ts.deep_view(), i as int, d as int) == Some(c as int),
    decreases ts.len() - i,
{
    if i == ts.len() {
        None
    } else {
        let t = &ts[i];
        if d == 0 && is_comma_exec(t) {
            Some(i)
        } else {
            let delta = tok_delta_exec(t);
            let nd: usize = if delta == 1 {
                d + 1
            } else if delta == -1 && d > 0 {
                d - 1
            } else if delta == -1 {
                0
            } else {
                d
            };
            comma_scan_from(ts, i + 1, nd)
        }
    }
}

/// First comma at nesting depth zero, at or after `from`.
pub fn comma_scan(ts: &Vec<Tok>, from: usize) -> (r: Option<usize>)
    requires
        from <= ts.len(),
    ensures
        r is None <==> comma_at_depth0(ts.deep_view(), from as int, 0) is None,
        r matches Some(c) ==> comma_at_depth0(ts.deep_view(), from as int, 0) == Some(c as int)
            && from <= c < ts.len(),
{
    proof {
        lemma_comma_scan_bounds(ts.deep_view(), from as int, 0);
    }
    comma_scan_from(ts, from, 0)
}

proof fn lemma_comma_scan_bounds(ts: Seq<TokView>, i: int, d: int)
    requires
        0 <= i <= ts.len(),
    ensures
        comma_at_depth0(ts, i, d) matches Some(c) ==> i <= c < ts.len(),
    decreases ts.len() - i,
{
    if i < ts.len() && !(d == 0 && is_comma(ts[i])) {
        lemma_comma_scan_bounds(ts, i + 1, next_depth(d, ts[i]));
    }
}

/// A copy of one token, with the same shape.
pub fn clone_tok(t: &Tok) -> (r: Tok)
    ensures
        r.deep_view() == t.deep_view(),
{
    match t {
        Tok::Ident(s) => Tok::Ident(s.clone()),
        Tok::Lit(s) => Tok::Lit(s.clone()),
        Tok::Punct(s, j) => Tok::Punct(s.clone(), *j),
    }
}

/// The tokens of positions `a` to `b` (excluded), as a fresh list.
pub fn subtoks(ts: &Vec<Tok>, a: usize, b: usize) -> (r: Vec<Tok>)
    requires
        a <= b <= ts.len(),
    ensures
        r.deep_view() == ts.deep_view().subrange(a as int, b as int),
{
    let mut out: Vec<Tok> = Vec::new();
    let mut i: usize = a;
    while i < b
        invariant
            a <= i <= b <= ts.len(),
            out.deep_view() =~~= ts.deep_view().subrange(a as int, i as int),
        decreases b - i,
    {
        let ghost pre = out@;
        let ghost pre_deep = out.deep_view();
        let x = clone_tok(&ts[i]);
        proof {
            assert(x.deep_view() == ts.deep_view()[i as int]);
        }
        out.push(x);
        i += 1;
        proof {
            assert(pre_deep.len() == pre.len());
            assert(pre.len() == i - 1 - a);
            assert(out.deep_view().len() == out@.len());
            assert forall|k: int| 0 <= k < out@.len() implies out.deep_view()[k]
                == ts.deep_view()[a + k] by {
                assert(out.deep_view()[k] == out@[k].deep_view());
                if k < pre.len() {
                    assert(out@[k] == pre[k]);
                    assert(out@[k].deep_view() == pre_deep[k]);
                    assert(pre_deep[k] == ts.deep_view().subrange(a as int, i - 1)[k]);
                } else {
                    assert(out@[k] == x);
                }
            }
            assert(out.deep_view() =~= ts.deep_view().subrange(a as int, i as int));
        }
    }
    proof {
        assert(out.deep_view() =~~= ts.deep_view().subrange(a as int, b as int));
    }
    out
}

/// Appends the tokens of `other` to `ts`, keeping both shapes.
pub fn extend_toks(ts: &mut Vec<Tok>, other: &Vec<Tok>)
    ensures
        final(ts).deep_view() == old(ts).deep_view() + other.deep_view(),
{
    let mut i: usize = 0;
    while i < other.len()
        invariant
            i <= other.len(),
            ts.deep_view() =~= old(ts).deep_view() + other.deep_view().subrange(0, i as int),
        decreases other.len() - i,
    {
        let ghost pre = ts@;
        let ghost pre_deep = ts.deep_view();
        let x = clone_tok(&other[i]);
        proof {
            assert(x.deep_view() == other.deep_view()[i as int]);
        }
        ts.push(x);
        i += 1;
        proof {
            let goal = old(ts).deep_view() + other.deep_view().subrange(0, i as int);
            assert(pre_deep.len() == pre.len());
            assert(pre.len() == old(ts)@.len() + i - 1);
            assert(ts.deep_view().len() == ts@.len());
            assert forall|k: int| 0 <= k < ts@.len() implies ts.deep_view()[k] == goal[k] by {
                assert(ts.deep_view()[k] == ts@[k].deep_view());
                if k < pre.len() {
                    assert(ts@[k] == pre[k]);
                    assert(ts@[k].deep_view() == pre_deep[k]);
                    assert(pre_deep[k] == (old(ts).deep_view() + other.deep_view().subrange(
                        0,
                        i - 1,
                    ))[k]);
                } else {
                    assert(ts@[k] == x);
                }
            }
            assert(ts.deep_view() =~= goal);
        }
    }
    proof {
        assert(other.deep_view().subrange(0, other.deep_view().len() as int) =~= other.deep_view());
        assert(ts.deep_view() =~= old(ts).deep_view() + other.deep_view());
    }
}

/// Elementwise view of a list: the shape of each element, in order.
pub open spec fn dv_seq<T: DeepView>(s: Seq<T>) -> Seq<T::V> {
    Seq::new(s.len(), |i: int| s[i].deep_view())
}

pub broadcast proof fn lemma_vec_deep_view<T: DeepView>(v: Vec<T>)
    ensures
        #[trigger] v.deep_view() == dv_seq(v@),
{
    assert(v.deep_view() =~= dv_seq(v@));
}

pub broadcast proof fn lemma_dv_insert0<T: DeepView>(s: Seq<T>, x: T)
    ensures
        #[trigger] dv_seq(s.insert(0, x)) == seq![x.deep_view()] + dv_seq(s),
{
    assert(dv_seq(s.insert(0, x)) =~= seq![x.deep_view()] + dv_seq(s));
}

/// Source text of one token: its text, followed by a space unless the token
/// is joined to the next one.
pub open spec fn tok_text(t: TokView) -> Seq<char> {
    match t {
        TokView::Ident(s) => s + " "@,
        TokView::Lit(s) => s + " "@,
        TokView::Punct(s, true) => s,
        TokView::Punct(s, false) => s + " "@,
    }
}

/// Source text of the tokens from position `i` on.
pub open spec fn toks_text_from(ts: Seq<TokView>, i: int) -> Seq<char>
    decreases ts.len() - i,
    when 0 <= i <= ts.len()
{
    if i >= ts.len() {
        Seq::empty()
    } else {
        tok_text(ts[i]) + toks_text_from(ts, i + 1)
    }
}

/// Source text of a token list.
pub open spec fn toks_text(ts: Seq<TokView>) -> Seq<char> {
    toks_text_from(ts, 0)
}

fn push_tok_text(out: &mut String, t: &Tok)
    ensures
        final(out)@ == old(out)@ + tok_text(t.deep_view()),
{
    match t {
        Tok::Ident(s) => {
            out.append(s.as_str());
            out.append(" ");
        },
        Tok::Lit(s) => {
            out.append(s.as_str());
            out.append(" ");
        },
        Tok::Punct(s, j) => {
            out.append(s.as_str());
            if !*j {
                out.append(" ");
            }
        },
    }
}

fn append_toks_text_from(out: &mut String, ts: &Vec<Tok>, i: usize)
    requires
        i <= ts.len(),
    ensures
        final(out)@ == old(out)@ + toks_text_from(ts.deep_view(), i as int),
    decreases ts.len() - i,
{
    if i < ts.len() {
        push_tok_text(out, &ts[i]);
        append_toks_text_from(out, ts, i + 1);
        proof {
            assert(out@ =~= old(out)@ + toks_text_from(ts.deep_view(), i as int));
        }
    } else {
        proof {
            assert(out@ =~= old(out)@ + toks_text_from(ts.deep_view(), i as int));
        }
    }
}

/// Appends the source text of a token list.
pub fn append_toks_text(out: &mut String, ts: &Vec<Tok>)
    ensures
        final(out)@ == old(out)@ + toks_text(ts.deep_view()),
{
    append_toks_text_from(out, ts, 0)
}

} // verus!
