//! Reference validator functions: pure checks from a wire-typed value to a
//! target-typed value or a human-readable error message.

use vstd::prelude::*;
use vstd::string::{StrSliceExecFns, StringExecFns};
use vstd::utf8::encode_utf8;

verus! {

/// Accept any input without any change.
pub fn pass<T>(v: T) -> (r: Result<T, String>)
    ensures
        r == Result::<T, String>::Ok(v),
{
    Ok(v)
}

/// The characters the text normalizer strips from both ends: the Unicode
/// white-space characters.
pub open spec fn is_ws(c: char) -> bool {
    ||| c == ' '
    ||| c == '\t'
    ||| c == '\n'
    ||| c == '\r'
    ||| c == '\u{b}'
    ||| c == '\u{c}'
    ||| c == '\u{85}'
    ||| c == '\u{a0}'
    ||| c == '\u{1680}'
    ||| ('\u{2000}' <= c && c <= '\u{200a}')
    ||| c == '\u{2028}'
    ||| c == '\u{2029}'
    ||| c == '\u{202f}'
    ||| c == '\u{205f}'
    ||| c == '\u{3000}'
}

/// The text without its leading whitespace.
pub open spec fn trim_front(s: Seq<char>) -> Seq<char>
    decreases s.len(),
{
    if s.len() > 0 && is_ws(s[0]) {
        trim_front(s.drop_first())
    } else {
        s
    }
}

/// The text without its trailing whitespace.
pub open spec fn trim_back(s: Seq<char>) -> Seq<char>
    decreases s.len(),
{
    if s.len() > 0 && is_ws(s.last()) {
        trim_back(s.drop_last())
    } else {
        s
    }
}

/// The text without leading and trailing whitespace.
pub open spec fn trimmed(s: Seq<char>) -> Seq<char> {
    trim_back(trim_front(s))
}

proof fn lemma_trim_front_prefix(s: Seq<char>, a: int)
    requires
        0 <= a <= s.len(),
        forall|k: int| 0 <= k < a ==> is_ws(#[trigger] s[k]),
        a == s.len() || !is_ws(s[a]),
    ensures
        trim_front(s) == s.subrange(a, s.len() as int),
    decreases a,
{
    if a == 0 {
        assert(s.subrange(0, s.len() as int) =~= s);
    } else {
        lemma_trim_front_prefix(s.drop_first(), a - 1);
        assert(s.drop_first().subrange(a - 1, s.drop_first().len() as int) =~= s.subrange(
            a,
            s.len() as int,
        ));
    }
}

proof fn lemma_trim_back_suffix(s: Seq<char>, b: int)
    requires
        0 <= b <= s.len(),
        forall|k: int| b <= k < s.len() ==> is_ws(#[trigger] s[k]),
        b == 0 || !is_ws(s[b - 1]),
    ensures
        trim_back(s) == s.subrange(0, b),
    decreases s.len() - b,
{
    if b == s.len() {
        assert(s.subrange(0, b) =~= s);
    } else {
        lemma_trim_back_suffix(s.drop_last(), b);
        assert(s.drop_last().subrange(0, b) =~= s.subrange(0, b));
    }
}

proof fn lemma_trim_front_no_lead(s: Seq<char>)
    ensures
        trim_front(s).len() > 0 ==> !is_ws(trim_front(s)[0]),
    decreases s.len(),
{
    if s.len() > 0 && is_ws(s[0]) {
        lemma_trim_front_no_lead(s.drop_first());
    }
}

proof fn lemma_trim_back_no_trail(s: Seq<char>)
    ensures
        trim_back(s).len() > 0 ==> !is_ws(trim_back(s).last()),
    decreases s.len(),
{
    if s.len() > 0 && is_ws(s.last()) {
        lemma_trim_back_no_trail(s.drop_last());
    }
}

proof fn lemma_trim_back_is_prefix(s: Seq<char>)
    ensures
        trim_back(s).len() <= s.len(),
        forall|k: int| 0 <= k < trim_back(s).len() ==> #[trigger] trim_back(s)[k] == s[k],
    decreases s.len(),
{
    if s.len() > 0 && is_ws(s.last()) {
        lemma_trim_back_is_prefix(s.drop_last());
        assert forall|k: int| 0 <= k < trim_back(s).len() implies #[trigger] trim_back(s)[k]
            == s[k] by {
            assert(trim_back(s)[k] == s.drop_last()[k]);
        }
    }
}

/// Normalization is idempotent: the trimmed form of a trimmed text is that
/// text itself, so the length-bounded text validator maps its own output to
/// itself unchanged.
pub proof fn lemma_trim_idempotent(s: Seq<char>)
    ensures
        trimmed(trimmed(s)) == trimmed(s),
{
    let t = trimmed(s);
    lemma_trim_front_no_lead(s);
    lemma_trim_back_is_prefix(trim_front(s));
    lemma_trim_back_no_trail(trim_front(s));
    if t.len() > 0 {
        assert(t[0] == trim_front(s)[0]);
    }
    assert(trim_front(t) == t);
    assert(trim_back(t) == t);
}

/// The decimal digit character for one digit value.
pub open spec fn dec_digit(d: int) -> char {
    if d == 0 {
        '0'
    } else if d == 1 {
        '1'
    } else if d == 2 {
        '2'
    } else if d == 3 {
        '3'
    } else if d == 4 {
        '4'
    } else if d == 5 {
        '5'
    } else if d == 6 {
        '6'
    } else if d == 7 {
        '7'
    } else if d == 8 {
        '8'
    } else {
        '9'
    }
}

/// The decimal text of a non-negative number.
pub open spec fn dec_text(n: int) -> Seq<char>
    decreases n,
{
    if n < 10 {
        seq![dec_digit(n)]
    } else {
        dec_text(n / 10) + seq![dec_digit(n % 10)]
    }
}

fn dec_digit_str(d: u64) -> (r: &'static str)
    requires
        d < 10,
    ensures
        r@ == seq![dec_digit(d as int)],
{
    let r: &'static str = match d {
        0 => "0",
        1 => "1",
        2 => "2",
        3 => "3",
        4 => "4",
        5 => "5",
        6 => "6",
        7 => "7",
        8 => "8",
        _ => "9",
    };
    proof {
        reveal_strlit("0");
        reveal_strlit("1");
        reveal_strlit("2");
        reveal_strlit("3");
        reveal_strlit("4");
        reveal_strlit("5");
        reveal_strlit("6");
        reveal_strlit("7");
        reveal_strlit("8");
        reveal_strlit("9");
        assert(r@ =~= seq![dec_digit(d as int)]);
    }
    r
}

fn append_dec(out: &mut String, n: u64)
    ensures
        final(out)@ == old(out)@ + dec_text(n as int),
    decreases n,
{
    if n < 10 {
        out.append(dec_digit_str(n));
        proof {
            assert(out@ =~= old(out)@ + dec_text(n as int));
        }
    } else {
        append_dec(out, n / 10);
        out.append(dec_digit_str(n % 10));
        proof {
            assert(out@ =~= old(out)@ + dec_text(n as int));
        }
    }
}

/// The over-length rejection, naming the byte bound and the actual byte
/// length.
pub open spec fn over_long_msg(bound: int, len: int) -> Seq<char> {
    "expected at most "@ + dec_text(bound) + " bytes, got "@ + dec_text(len) + " bytes"@
}

fn is_ws_exec(c: char) -> (r: bool)
    ensures
        r == is_ws(c),
{
    c == ' ' || c == '\t' || c == '\n' || c == '\r' || c == '\u{b}' || c == '\u{c}'
        || c == '\u{85}' || c == '\u{a0}' || c == '\u{1680}'
        || ('\u{2000}' <= c && c <= '\u{200a}') || c == '\u{2028}' || c == '\u{2029}'
        || c == '\u{202f}' || c == '\u{205f}' || c == '\u{3000}'
}

/// Trimmed, non-empty text of at most `N` bytes.
///
/// The value returned on success is the input without leading and trailing
/// whitespace; the empty check and the byte bound apply to that trimmed
/// form.
pub fn max_txt<const N: usize>(text: String) -> (r: Result<String, String>)
    ensures
        r is Ok <==> 0 < trimmed(text@).len() && encode_utf8(trimmed(text@)).len() <= N,
        r matches Ok(s) ==> s@ == trimmed(text@),
        r matches Err(e) ==> e@ == (if trimmed(text@).len() == 0 {
            "expected a non-empty text"@
        } else {
            over_long_msg(N as int, encode_utf8(trimmed(text@)).len() as int)
        }),
{
    let st = text.as_str();
    let n = st.unicode_len();
    let mut a: usize = 0;
    while a < n && is_ws_exec(st.get_char(a))
        invariant
            a <= n,
            n == text@.len(),
            st@ == text@,
            forall|k: int| 0 <= k < a ==> is_ws(#[trigger] text@[k]),
        decreases n - a,
    {
        a += 1;
    }
    let mut b: usize = n;
    while b > a && is_ws_exec(st.get_char(b - 1))
        invariant
            a <= b <= n,
            n == text@.len(),
            st@ == text@,
            forall|k: int| b <= k < n ==> is_ws(#[trigger] text@[k]),
        decreases b,
    {
        b -= 1;
    }
    proof {
        if a == b {
            if a < n {
                assert(is_ws(text@[a as int]));
                assert(false);
            }
            lemma_trim_front_prefix(text@, a as int);
            assert(text@.subrange(a as int, n as int).len() == 0);
            assert(trimmed(text@) =~= Seq::<char>::empty());
        } else {
            lemma_trim_front_prefix(text@, a as int);
            let sub = text@.subrange(a as int, n as int);
            lemma_trim_back_suffix(sub, b - a);
            assert(sub.subrange(0, b - a) =~= text@.subrange(a as int, b as int));
            assert(trimmed(text@) == text@.subrange(a as int, b as int));
        }
    }
    if a == b {
        return Err("expected a non-empty text".to_owned());
    }
    let piece = st.substring_char(a, b);
    let bytes = piece.as_bytes();
    if bytes.len() > N {
        let mut msg: String = "expected at most ".to_owned();
        append_dec(&mut msg, N as u64);
        msg.append(" bytes, got ");
        append_dec(&mut msg, bytes.len() as u64);
        msg.append(" bytes");
        proof {
            assert(msg@ =~= over_long_msg(
                N as int,
                encode_utf8(trimmed(text@)).len() as int,
            ));
        }
        return Err(msg);
    }
    Ok(piece.to_owned())
}

/// The list is strictly increasing.
pub open spec fn strictly_sorted(s: Seq<i16>) -> bool {
    forall|i: int, j: int| 0 <= i < j < s.len() ==> s[i] < s[j]
}

proof fn lemma_sorted_positions(s: Seq<i16>, k: int)
    requires
        strictly_sorted(s),
        0 <= k < s.len(),
        forall|i: int| 0 <= i < s.len() ==> 0 <= #[trigger] s[i],
    ensures
        s[k] >= k,
    decreases k,
{
    if k > 0 {
        lemma_sorted_positions(s, k - 1);
    }
}

/// A strictly increasing list of values out of `[0, n)` has at most `n`
/// entries.
proof fn lemma_sorted_bounded_len(s: Seq<i16>, n: int)
    requires
        0 <= n,
        strictly_sorted(s),
        forall|i: int| 0 <= i < s.len() ==> 0 <= #[trigger] s[i] && (s[i] as int) < n,
    ensures
        s.len() <= n,
{
    if s.len() > n {
        lemma_sorted_positions(s, n);
        assert(false);
    }
}

/// Sorted list of the distinct values, all between `0` (included) and `N`
/// (excluded).
///
/// Succeeds exactly when every given value is in range; the result then
/// holds the same values, each once, in increasing order, and no more than
/// `N` of them.
pub fn indexes<const N: usize>(v: Vec<i16>) -> (r: Result<Vec<i16>, String>)
    ensures
        r is Ok <==> (forall|k: int|
            0 <= k < v@.len() ==> 0 <= #[trigger] v@[k] && (v@[k] as int) < N as int),
        r matches Ok(out) ==> strictly_sorted(out@) && (forall|x: i16|
            out@.contains(x) <==> v@.contains(x)) && out@.len() <= N,
        r matches Err(e) ==> e@ == "bad index"@,
{
    let mut out: Vec<i16> = Vec::new();
    let mut i: usize = 0;
    while i < v.len()
        invariant
            i <= v.len(),
            strictly_sorted(out@),
            forall|k: int| 0 <= k < i ==> 0 <= #[trigger] v@[k] && (v@[k] as int) < N as int,
            forall|x: i16| out@.contains(x) <==> v@.subrange(0, i as int).contains(x),
            forall|k: int| 0 <= k < out@.len() ==> 0 <= #[trigger] out@[k] && (out@[k] as int)
                < N as int,
        decreases v.len() - i,
    {
        let x = v[i];
        if x < 0 {
            return Err("bad index".to_owned());
        }
        if N <= i16::MAX as usize && x >= (N as i16) {
            return Err("bad index".to_owned());
        }
        if N > i16::MAX as usize {
            proof {
                assert((x as int) < N as int);
            }
        }
        let mut pos: usize = 0;
        while pos < out.len() && out[pos] < x
            invariant
                pos <= out@.len(),
                forall|k: int| 0 <= k < pos ==> #[trigger] out@[k] < x,
            decreases out.len() - pos,
        {
            pos += 1;
        }
        let ghost pre = out@;
        if pos < out.len() && out[pos] == x {
            proof {
                assert(out@.contains(x));
                assert forall|y: i16| out@.contains(y) <==> v@.subrange(
                    0,
                    i as int + 1,
                ).contains(y) by {
                    assert(v@.subrange(0, i as int).push(v@[i as int]) =~= v@.subrange(
                        0,
                        i as int + 1,
                    ));
                }
            }
        } else {
            out.insert(pos, x);
            proof {
                assert forall|a: int, b: int| 0 <= a < b < out@.len() implies out@[a]
                    < out@[b] by {
                    if b < pos {
                    } else if a == pos {
                        assert(out@[b] == pre[b - 1]);
                    } else if b == pos {
                        if a < pos {
                            assert(out@[a] == pre[a]);
                        }
                    } else if a > pos {
                        assert(out@[a] == pre[a - 1]);
                        assert(out@[b] == pre[b - 1]);
                    } else {
                        assert(out@[a] == pre[a]);
                        assert(out@[b] == pre[b - 1]);
                        if (pos as int) < pre.len() {
                            assert(pre[pos as int] >= x);
                        }
                    }
                }
                assert(out@[pos as int] == x);
                assert(out@.contains(x));
                assert forall|y: i16| out@.contains(y) implies v@.subrange(
                    0,
                    i as int + 1,
                ).contains(y) by {
                    let idx = choose|idx: int| 0 <= idx < out@.len() && out@[idx] == y;
                    if idx < pos {
                        assert(pre[idx] == y);
                        assert(pre.contains(y));
                        assert(v@.subrange(0, i as int).contains(y));
                        let w = choose|w: int|
                            0 <= w < i && v@.subrange(0, i as int)[w] == y;
                        assert(v@.subrange(0, i as int + 1)[w] == y);
                    } else if idx == pos {
                        assert(v@.subrange(0, i as int + 1)[i as int] == x);
                    } else {
                        assert(pre[idx - 1] == y);
                        assert(pre.contains(y));
                        assert(v@.subrange(0, i as int).contains(y));
                        let w = choose|w: int|
                            0 <= w < i && v@.subrange(0, i as int)[w] == y;
                        assert(v@.subrange(0, i as int + 1)[w] == y);
                    }
                }
                assert forall|y: i16| v@.subrange(0, i as int + 1).contains(y) implies
                    out@.contains(y) by {
                    let w = choose|w: int|
                        0 <= w <= i && #[trigger] v@.subrange(0, i as int + 1)[w] == y;
                    if w < i {
                        assert(v@.subrange(0, i as int)[w] == y);
                        assert(pre.contains(y));
                        let idx = choose|idx: int| 0 <= idx < pre.len() && pre[idx] == y;
                        if idx < pos {
                            assert(out@[idx] == y);
                        } else {
                            assert(out@[idx + 1] == y);
                        }
                    } else {
                        assert(y == x);
                    }
                }
            }
        }
        i += 1;
    }
    proof {
        assert(v@.subrange(0, v@.len() as int) =~= v@);
        lemma_sorted_bounded_len(out@, N as int);
    }
    Ok(out)
}

/// Names the mailbox-grammar acceptance relied on below: a pure function
/// of the characters alone.
pub uninterp spec fn is_email(s: Seq<char>) -> bool;

/// Names the grammar check's message for a rejected address.
pub uninterp spec fn email_err_of(s: Seq<char>) -> Seq<char>;

/// Relies on fast_chemail::parse_email: acceptance and the text of the
/// rejection both depend on the characters alone.
#[verifier::external_body]
fn check_email(v: &str) -> (r: Result<(), String>)
    ensures
        r is Ok <==> is_email(v@),
        r matches Err(e) ==> e@ == email_err_of(v@),
{
    match fast_chemail::parse_email(v) {
        Ok(()) => Ok(()),
        Err(e) => Err(e.to_string()),
    }
}

/// Email address: the input passes through unchanged exactly when the
/// mailbox grammar accepts it; a rejection carries the grammar check's own
/// message.
pub fn email(v: String) -> (r: Result<String, String>)
    ensures
        r is Ok <==> is_email(v@),
        r matches Ok(s) ==> s == v,
        r matches Err(e) ==> e@ == email_err_of(v@),
{
    match check_email(v.as_str()) {
        Ok(()) => Ok(v),
        Err(e) => Err(e),
    }
}

#[verifier::external_type_specification]
#[verifier::external_body]
pub struct ExUrl(url::Url);

/// Names the scheme part of a parsed address: a pure function of the
/// address value alone.
pub uninterp spec fn scheme_of(u: url::Url) -> Seq<char>;

/// Relies on url::Url::scheme: hands back the scheme part of the parsed
/// address as text, a function of the address value alone.
#[verifier::external_body]
fn url_scheme(u: &url::Url) -> (r: String)
    ensures
        r@ == scheme_of(*u),
{
    u.scheme().to_string()
}

/// The scheme names secure transport.
pub fn scheme_is_secure(s: &String) -> (r: bool)
    ensures
        r == (s@ == "https"@),
{
    let h: String = "https".to_owned();
    *s == h
}

/// Address restricted to secure transport: the given address passes
/// through unchanged exactly when its scheme is `https`, and is rejected
/// with the fixed message otherwise.
pub fn secure_url(u: url::Url) -> (r: Result<url::Url, String>)
    ensures
        r is Ok <==> scheme_of(u) == "https"@,
        r matches Ok(out) ==> out == u,
        r matches Err(e) ==> e@ == "not https"@,
{
    let s = url_scheme(&u);
    if scheme_is_secure(&s) {
        Ok(u)
    } else {
        Err("not https".to_owned())
    }
}

#[verifier::external_type_specification]
#[verifier::external_body]
pub struct ExPhoneNumber(phonenumber::PhoneNumber);

/// Names the parser acceptance relied on below: whether the text parses as
/// a phone number against the default region, a function of the characters
/// alone for one bundled metadata set.
pub uninterp spec fn parses_as_phone(s: Seq<char>) -> bool;

/// Names the number the parser yields for an accepted text: a function of
/// the characters alone for one bundled metadata set.
pub uninterp spec fn phone_of(s: Seq<char>) -> phonenumber::PhoneNumber;

/// Names the parser's message for a rejected text.
pub uninterp spec fn phone_parse_err_of(s: Seq<char>) -> Seq<char>;

/// Relies on phonenumber::parse with the default region: acceptance, the
/// parsed number and the failure text all depend on the characters alone.
#[verifier::external_body]
fn parse_phone_default_region(v: &str) -> (r: Result<phonenumber::PhoneNumber, String>)
    ensures
        r is Ok <==> parses_as_phone(v@),
        r matches Ok(n) ==> n == phone_of(v@),
        r matches Err(e) ==> e@ == phone_parse_err_of(v@),
{
    match phonenumber::parse(Some(phonenumber::country::FR), v) {
        Ok(n) => Ok(n),
        Err(e) => Err(e.to_string()),
    }
}

/// Names the validity judgement relied on below: a function of the number
/// value alone for one bundled metadata set.
pub uninterp spec fn phone_valid(n: phonenumber::PhoneNumber) -> bool;

/// Relies on phonenumber::PhoneNumber::is_valid: judges the parsed number
/// against the bundled metadata, on the number value alone.
#[verifier::external_body]
fn phone_is_valid(n: &phonenumber::PhoneNumber) -> (r: bool)
    ensures
        r == phone_valid(*n),
{
    n.is_valid()
}

/// Keeps a parsed number exactly when the validity check accepted it.
pub fn accept_checked_number(n: phonenumber::PhoneNumber, valid: bool) -> (r: Result<
    phonenumber::PhoneNumber,
    String,
>)
    ensures
        valid ==> r == Result::<phonenumber::PhoneNumber, String>::Ok(n),
        !valid ==> (r matches Err(e) && e@ == "invalid phone number"@),
{
    if valid {
        Ok(n)
    } else {
        Err("invalid phone number".to_owned())
    }
}

/// Valid phone number for the default region: succeeds with the parsed
/// number exactly when the text parses and the parsed number passes the
/// validity check; a text that parses to an invalid number is rejected
/// with the fixed message, one that does not parse with the parser's own.
pub fn international_phone_number(v: String) -> (r: Result<phonenumber::PhoneNumber, String>)
    ensures
        r is Ok <==> parses_as_phone(v@) && phone_valid(phone_of(v@)),
        r matches Ok(n) ==> n == phone_of(v@),
        parses_as_phone(v@) ==> (r matches Err(e) ==> e@ == "invalid phone number"@),
        !parses_as_phone(v@) ==> (r matches Err(e) && e@ == phone_parse_err_of(v@)),
{
    match parse_phone_default_region(v.as_str()) {
        Err(e) => Err(e),
        Ok(n) => {
            let valid = phone_is_valid(&n);
            accept_checked_number(n, valid)
        },
    }
}

/// A validator's result, lifted into the present case of an optional
/// value.
pub open spec fn lift_opt<Out>(fr: Result<Out, String>) -> Result<Option<Out>, String> {
    match fr {
        Ok(o) => Ok(Some(o)),
        Err(e) => Err(e),
    }
}

/// Lifts a validator over an absent value: absence always passes through
/// untouched, whatever the validator; a present value is handed to the
/// validator and its result wrapped back.
pub fn opt<In, Out, F: Fn(In) -> Result<Out, String>>(f: F) -> (r: impl Fn(Option<In>) -> Result<
    Option<Out>,
    String,
>)
    ensures
        forall|v: Option<In>|
            (v matches Some(x) ==> call_requires(f, (x,))) ==> #[trigger] call_requires(r, (v,)),
        forall|v: Option<In>, res: Result<Option<Out>, String>|
            #[trigger] call_ensures(r, (v,), res) ==> match v {
                None => res == Result::<Option<Out>, String>::Ok(None),
                Some(x) => exists|fr: Result<Out, String>|
                    #[trigger] call_ensures(f, (x,), fr) && res == lift_opt(fr),
            },
{
    move |v: Option<In>| -> (res: Result<Option<Out>, String>)
        requires
            v matches Some(x) ==> call_requires(f, (x,)),
        ensures
            match v {
                None => res == Result::<Option<Out>, String>::Ok(None),
                Some(x) => exists|fr: Result<Out, String>|
                    #[trigger] call_ensures(f, (x,), fr) && res == lift_opt(fr),
            },
        {
            match v {
                None => Ok(None),
                Some(x) => match f(x) {
                    Ok(o) => Ok(Some(o)),
                    Err(e) => Err(e),
                },
            }
        }
}

} // verus!
