//! Character-level string helpers the parsers and tables share, each with
//! the exact statement of what it computes over the strings' character
//! sequences.

use vstd::prelude::*;
use vstd::string::*;

verus! {

/// Whether `suf` is a suffix of `s`.
pub open spec fn has_suffix(s: Seq<char>, suf: Seq<char>) -> bool {
    suf.len() <= s.len() && s.subrange(s.len() - suf.len(), s.len() as int) == suf
}

/// Whether `pre` is a prefix of `s`.
pub open spec fn has_prefix(s: Seq<char>, pre: Seq<char>) -> bool {
    pre.len() <= s.len() && s.subrange(0, pre.len() as int) == pre
}

/// `a == b` on two string slices.
pub fn str_eq(a: &str, b: &str) -> (r: bool)
    ensures
        r == (a@ == b@),
{
    let n = a.unicode_len();
    if n != b.unicode_len() {
        return false;
    }
    let mut i: usize = 0;
    while i < n
        invariant
            n == a@.len(),
            n == b@.len(),
            i <= n,
            forall|j: int| 0 <= j < i ==> a@[j] == b@[j],
        decreases n - i,
    {
        if a.get_char(i) != b.get_char(i) {
            assert(a@[i as int] != b@[i as int]);
            return false;
        }
        i = i + 1;
    }
    assert(a@ =~= b@);
    true
}

/// Whether `s` ends with `suf` (`str::ends_with`).
pub fn ends_with(s: &str, suf: &str) -> (r: bool)
    ensures
        r == has_suffix(s@, suf@),
{
    let n = s.unicode_len();
    let m = suf.unicode_len();
    if m > n {
        return false;
    }
    let off = n - m;
    let mut i: usize = 0;
    while i < m
        invariant
            n == s@.len(),
            m == suf@.len(),
            off == n - m,
            i <= m,
            forall|j: int| 0 <= j < i ==> s@[off + j] == suf@[j],
        decreases m - i,
    {
        if s.get_char(off + i) != suf.get_char(i) {
            assert(s@.subrange(off as int, n as int)[i as int] != suf@[i as int]);
            return false;
        }
        i = i + 1;
    }
    assert(s@.subrange(off as int, n as int) =~= suf@);
    true
}

/// Whether `s` starts with `pre` (`str::starts_with`).
pub fn starts_with(s: &str, pre: &str) -> (r: bool)
    ensures
        r == has_prefix(s@, pre@),
{
    let n = s.unicode_len();
    let m = pre.unicode_len();
    if m > n {
        return false;
    }
    let mut i: usize = 0;
    while i < m
        invariant
            n == s@.len(),
            m == pre@.len(),
            m <= n,
            i <= m,
            forall|j: int| 0 <= j < i ==> s@[j] == pre@[j],
        decreases m - i,
    {
        if s.get_char(i) != pre.get_char(i) {
            assert(s@.subrange(0, m as int)[i as int] != pre@[i as int]);
            return false;
        }
        i = i + 1;
    }
    assert(s@.subrange(0, m as int) =~= pre@);
    true
}

/// Whether `t` is the first `keep` characters of `s` followed by `suf`:
/// the `format!("{base}{suf}")` comparison with `base` a prefix of `s`.
pub fn equals_concat(t: &str, s: &str, keep: usize, suf: &str) -> (r: bool)
    requires
        keep <= s@.len(),
    ensures
        r == (t@ == s@.subrange(0, keep as int) + suf@),
{
    let ghost want = s@.subrange(0, keep as int) + suf@;
    let n = t.unicode_len();
    let m = suf.unicode_len();
    if keep > n || n - keep != m {
        assert(want.len() != t@.len());
        return false;
    }
    let mut i: usize = 0;
    while i < n
        invariant
            n == t@.len(),
            m == suf@.len(),
            keep <= s@.len(),
            n == keep + m,
            want == s@.subrange(0, keep as int) + suf@,
            i <= n,
            forall|j: int| 0 <= j < i ==> t@[j] == want[j],
        decreases n - i,
    {
        let c = if i < keep {
            s.get_char(i)
        } else {
            suf.get_char(i - keep)
        };
        assert(c == want[i as int]);
        if t.get_char(i) != c {
            return false;
        }
        i = i + 1;
    }
    assert(t@ =~= want);
    true
}

/// `String::push`: one character appended.
#[verifier::external_body]
pub fn push_char(s: &mut String, c: char)
    ensures
        final(s)@ == old(s)@.push(c),
{
    s.push(c);
}


/// `char::is_whitespace`: the Unicode `White_Space` property.
pub open spec fn is_ws(c: char) -> bool {
    ||| c == '\u{9}'
    ||| c == '\u{a}'
    ||| c == '\u{b}'
    ||| c == '\u{c}'
    ||| c == '\u{d}'
    ||| c == ' '
    ||| c == '\u{85}'
    ||| c == '\u{a0}'
    ||| c == '\u{1680}'
    ||| ('\u{2000}' <= c && c <= '\u{200a}')
    ||| c == '\u{2028}'
    ||| c == '\u{2029}'
    ||| c == '\u{202f}'
    ||| c == '\u{205f}'
    ||| c == '\u{3000}'
}

/// `char::is_whitespace`.
pub fn is_whitespace(c: char) -> (r: bool)
    ensures
        r == is_ws(c),
{
    c == '\u{9}' || c == '\u{a}' || c == '\u{b}' || c == '\u{c}' || c == '\u{d}' || c == ' '
        || c == '\u{85}' || c == '\u{a0}' || c == '\u{1680}' || ('\u{2000}' <= c && c
        <= '\u{200a}') || c == '\u{2028}' || c == '\u{2029}' || c == '\u{202f}' || c
        == '\u{205f}' || c == '\u{3000}'
}

/// How many characters the word at the front of `s` runs for.
pub open spec fn word_len(s: Seq<char>) -> nat
    decreases s.len(),
{
    if s.len() == 0 || is_ws(s[0]) {
        0
    } else {
        1 + word_len(s.drop_first())
    }
}

/// `str::split_whitespace`: the maximal runs of non-whitespace characters,
/// in order.
pub open spec fn tokens(s: Seq<char>) -> Seq<Seq<char>>
    decreases s.len(),
{
    if s.len() == 0 {
        seq![]
    } else if is_ws(s[0]) {
        tokens(s.drop_first())
    } else {
        let n = word_len(s);
        proof {
            lemma_word_len_bound(s);
        }
        seq![s.take(n as int)] + tokens(s.skip(n as int))
    }
}

pub proof fn lemma_word_len(s: Seq<char>, k: int)
    requires
        0 <= k <= s.len(),
        forall|j: int| 0 <= j < k ==> !is_ws(s[j]),
        k == s.len() || is_ws(s[k]),
    ensures
        word_len(s) == k,
    decreases k,
{
    if k > 0 {
        lemma_word_len(s.drop_first(), k - 1);
    }
}

pub proof fn lemma_word_len_bound(s: Seq<char>)
    ensures
        word_len(s) <= s.len(),
        s.len() > 0 && !is_ws(s[0]) ==> word_len(s) >= 1,
    decreases s.len(),
{
    if s.len() > 0 && !is_ws(s[0]) {
        lemma_word_len_bound(s.drop_first());
    }
}

/// The views of a list of strings.
pub open spec fn views(v: Seq<String>) -> Seq<Seq<char>> {
    Seq::new(v.len(), |i: int| v[i]@)
}

/// `s.split_whitespace()`, collected.
pub fn split_whitespace(s: &str) -> (r: Vec<String>)
    ensures
        views(r@) == tokens(s@),
{
    let n = s.unicode_len();
    let mut out: Vec<String> = Vec::new();
    let mut i: usize = 0;
    assert(s@.skip(0) =~= s@);
    while i < n
        invariant
            n == s@.len(),
            i <= n,
            views(out@) + tokens(s@.skip(i as int)) == tokens(s@),
        decreases n - i,
    {
        let c = s.get_char(i);
        if is_whitespace(c) {
            assert(s@.skip(i as int).drop_first() =~= s@.skip(i + 1));
            i = i + 1;
        } else {
            let mut word = String::new();
            let mut j = i;
            while j < n && !is_whitespace(s.get_char(j))
                invariant
                    n == s@.len(),
                    i < j <= n || (i == j && j < n),
                    word@ == s@.subrange(i as int, j as int),
                    forall|k: int| i <= k < j ==> !is_ws(s@[k]),
                decreases n - j,
            {
                push_char(&mut word, s.get_char(j));
                assert(word@ =~= s@.subrange(i as int, j + 1));
                j = j + 1;
            }
            let ghost rest = s@.skip(i as int);
            proof {
                lemma_word_len(rest, j - i);
                assert(rest.take(j - i) =~= s@.subrange(i as int, j as int));
                assert(rest.skip(j - i) =~= s@.skip(j as int));
            }
            let ghost before = views(out@);
            out.push(word);
            assert(views(out@) =~= before.push(s@.subrange(i as int, j as int)));
            assert(views(out@) + tokens(s@.skip(j as int)) =~= before + tokens(rest));
            i = j;
        }
    }
    assert(s@.skip(n as int) =~= Seq::<char>::empty());
    assert(views(out@) =~= tokens(s@));
    out
}

/// The value of a run of ASCII decimal digits.
pub open spec fn digits_value(d: Seq<char>) -> int
    decreases d.len(),
{
    if d.len() == 0 {
        0
    } else {
        digits_value(d.drop_last()) * 10 + (d.last() as int - '0' as int)
    }
}

/// Whether every character is an ASCII decimal digit.
pub open spec fn all_digits(d: Seq<char>) -> bool {
    forall|i: int| 0 <= i < d.len() ==> '0' <= #[trigger] d[i] && d[i] <= '9'
}

/// `i32::from_str`: an optional `+` or `-`, then at least one ASCII digit
/// and nothing else, with a value that fits; anything else is an error.
pub open spec fn parse_i32_of(s: Seq<char>) -> Option<i32> {
    let neg = s.len() > 0 && s[0] == '-';
    let signed = s.len() > 0 && (s[0] == '-' || s[0] == '+');
    let d = if signed {
        s.drop_first()
    } else {
        s
    };
    let v = if neg {
        -digits_value(d)
    } else {
        digits_value(d)
    };
    if d.len() > 0 && all_digits(d) && i32::MIN <= v <= i32::MAX {
        Some(v as i32)
    } else {
        None
    }
}

proof fn lemma_digits_grow(d: Seq<char>, k: int)
    requires
        all_digits(d),
        0 <= k <= d.len(),
    ensures
        digits_value(d.take(k)) <= digits_value(d),
        0 <= digits_value(d.take(k)),
    decreases d.len() - k,
{
    if k < d.len() {
        lemma_digits_grow(d, k + 1);
        assert(d.take(k + 1).drop_last() =~= d.take(k));
    } else {
        assert(d.take(k) =~= d);
    }
    lemma_digits_nonneg(d.take(k));
}

proof fn lemma_digits_nonneg(d: Seq<char>)
    requires
        all_digits(d),
    ensures
        0 <= digits_value(d),
    decreases d.len(),
{
    if d.len() > 0 {
        lemma_digits_nonneg(d.drop_last());
    }
}

/// `str::parse::<i32>`.
pub fn parse_i32(s: &str) -> (r: Option<i32>)
    ensures
        r == parse_i32_of(s@),
{
    let n = s.unicode_len();
    if n == 0 {
        return None;
    }
    let first = s.get_char(0);
    let neg = first == '-';
    let start: usize = if first == '-' || first == '+' {
        1
    } else {
        0
    };
    let ghost d = if start == 1 {
        s@.drop_first()
    } else {
        s@
    };
    if start == n {
        return None;
    }
    assert(s@.skip(1) =~= s@.drop_first());
    assert(s@.skip(0) =~= s@);
    let mut acc: i64 = 0;
    let mut i: usize = start;
    while i < n
        invariant
            n == s@.len(),
            start <= i <= n,
            start < n,
            start == (if s@[0] == '-' || s@[0] == '+' {
                1usize
            } else {
                0usize
            }),
            neg == (s@[0] == '-'),
            d == s@.skip(start as int),
            0 <= acc <= 0x8000_0000i64,
            all_digits(d.take(i - start)),
            acc == digits_value(d.take(i - start)),
        decreases n - i,
    {
        let c = s.get_char(i);
        assert(d[i - start] == c);
        if !('0' <= c && c <= '9') {
            assert(!all_digits(d));
            return None;
        }
        assert(d.take(i - start + 1).drop_last() =~= d.take(i - start));
        assert(all_digits(d.take(i - start + 1)));
        acc = acc * 10 + (c as u32 - '0' as u32) as i64;
        assert(d.take(i - start + 1).last() == c);
        assert(acc == digits_value(d.take(i - start + 1)));
        if acc > 0x8000_0000i64 {
            proof {
                if all_digits(d) {
                    lemma_digits_grow(d, i - start + 1);
                    assert(digits_value(d) > 0x8000_0000);
                }
                let ghost sd = if s@.len() > 0 && (s@[0] == '-' || s@[0] == '+') {
                    s@.drop_first()
                } else {
                    s@
                };
                assert(sd == d);
            }
            return None;
        }
        i = i + 1;
    }
    assert(d.take(n - start) =~= d);
    if neg {
        Some((0 - acc) as i32)
    } else if acc <= 0x7fff_ffffi64 {
        Some(acc as i32)
    } else {
        None
    }
}

/// `i64::from_str`: an optional `+` or `-`, then at least one ASCII digit
/// and nothing else, with a value that fits; anything else is an error.
pub open spec fn parse_i64_of(s: Seq<char>) -> Option<i64> {
    let neg = s.len() > 0 && s[0] == '-';
    let signed = s.len() > 0 && (s[0] == '-' || s[0] == '+');
    let d = if signed {
        s.drop_first()
    } else {
        s
    };
    let v = if neg {
        -digits_value(d)
    } else {
        digits_value(d)
    };
    if d.len() > 0 && all_digits(d) && i64::MIN <= v <= i64::MAX {
        Some(v as i64)
    } else {
        None
    }
}

/// `str::parse::<i64>`.
pub fn parse_i64(s: &str) -> (r: Option<i64>)
    ensures
        r == parse_i64_of(s@),
{
    let n = s.unicode_len();
    if n == 0 {
        return None;
    }
    let first = s.get_char(0);
    let neg = first == '-';
    let start: usize = if first == '-' || first == '+' {
        1
    } else {
        0
    };
    let ghost d = if start == 1 {
        s@.drop_first()
    } else {
        s@
    };
    if start == n {
        return None;
    }
    assert(s@.skip(1) =~= s@.drop_first());
    assert(s@.skip(0) =~= s@);
    let mut acc: i128 = 0;
    let mut i: usize = start;
    while i < n
        invariant
            n == s@.len(),
            start <= i <= n,
            start < n,
            start == (if s@[0] == '-' || s@[0] == '+' {
                1usize
            } else {
                0usize
            }),
            neg == (s@[0] == '-'),
            d == s@.skip(start as int),
            0 <= acc <= 0x8000_0000_0000_0000i128,
            all_digits(d.take(i - start)),
            acc == digits_value(d.take(i - start)),
        decreases n - i,
    {
        let c = s.get_char(i);
        assert(d[i - start] == c);
        if !('0' <= c && c <= '9') {
            assert(!all_digits(d));
            return None;
        }
        assert(d.take(i - start + 1).drop_last() =~= d.take(i - start));
        assert(all_digits(d.take(i - start + 1)));
        acc = acc * 10 + (c as u32 - '0' as u32) as i128;
        assert(d.take(i - start + 1).last() == c);
        assert(acc == digits_value(d.take(i - start + 1)));
        if acc > 0x8000_0000_0000_0000i128 {
            proof {
                if all_digits(d) {
                    lemma_digits_grow(d, i - start + 1);
                    assert(digits_value(d) > 0x8000_0000_0000_0000);
                }
                let ghost sd = if s@.len() > 0 && (s@[0] == '-' || s@[0] == '+') {
                    s@.drop_first()
                } else {
                    s@
                };
                assert(sd == d);
            }
            return None;
        }
        i = i + 1;
    }
    assert(d.take(n - start) =~= d);
    if neg {
        Some((0 - acc) as i64)
    } else if acc <= 0x7fff_ffff_ffff_ffffi128 {
        Some(acc as i64)
    } else {
        None
    }
}

/// The length of the run of characters satisfying `p` at the front of `s`.
pub open spec fn lead_run(s: Seq<char>, p: spec_fn(char) -> bool) -> nat
    decreases s.len(),
{
    if s.len() > 0 && p(s[0]) {
        1 + lead_run(s.drop_first(), p)
    } else {
        0
    }
}

/// The length of the run of characters satisfying `p` at the back of `s`.
pub open spec fn tail_run(s: Seq<char>, p: spec_fn(char) -> bool) -> nat
    decreases s.len(),
{
    if s.len() > 0 && p(s.last()) {
        1 + tail_run(s.drop_last(), p)
    } else {
        0
    }
}

/// `s` without its leading run of `p` characters.
pub open spec fn trim_start_by(s: Seq<char>, p: spec_fn(char) -> bool) -> Seq<char> {
    s.skip(lead_run(s, p) as int)
}

/// `s` without its leading and trailing runs of `p` characters
/// (`str::trim_matches`).
pub open spec fn trim_by(s: Seq<char>, p: spec_fn(char) -> bool) -> Seq<char> {
    let t = trim_start_by(s, p);
    t.take(t.len() - tail_run(t, p))
}

/// Unicode whitespace, as `str::trim` strips it.
pub open spec fn ws_pred() -> spec_fn(char) -> bool {
    |c: char| is_ws(c)
}

/// The double quote `trim_matches('"')` strips.
pub open spec fn quote_pred() -> spec_fn(char) -> bool {
    |c: char| c == '"'
}

/// A run of `k` characters satisfying `p`, ended by the end of `s` or by
/// one that does not, is the leading run.
pub proof fn lemma_lead_run(s: Seq<char>, p: spec_fn(char) -> bool, k: int)
    requires
        0 <= k <= s.len(),
        forall|j: int| 0 <= j < k ==> #[trigger] p(s[j]),
        k == s.len() || !p(s[k]),
    ensures
        lead_run(s, p) == k,
    decreases k,
{
    if k > 0 {
        let t = s.drop_first();
        assert forall|j: int| 0 <= j < k - 1 implies #[trigger] p(t[j]) by {
            assert(t[j] == s[j + 1]);
        }
        if k < s.len() {
            assert(t[k - 1] == s[k]);
        }
        lemma_lead_run(t, p, k - 1);
    }
}

/// The trailing counterpart of `lemma_lead_run`.
pub proof fn lemma_tail_run(s: Seq<char>, p: spec_fn(char) -> bool, k: int)
    requires
        0 <= k <= s.len(),
        forall|j: int| s.len() - k <= j < s.len() ==> #[trigger] p(s[j]),
        k == s.len() || !p(s[s.len() - k - 1]),
    ensures
        tail_run(s, p) == k,
    decreases k,
{
    if k > 0 {
        let t = s.drop_last();
        assert(p(s[s.len() - 1]));
        assert forall|j: int| t.len() - (k - 1) <= j < t.len() implies #[trigger] p(t[j]) by {
            assert(t[j] == s[j]);
        }
        if k < s.len() {
            assert(t[t.len() - (k - 1) - 1] == s[s.len() - k - 1]);
        }
        lemma_tail_run(t, p, k - 1);
    } else if s.len() > 0 {
        assert(!p(s.last()));
    }
}

/// The characters of `s` from `a` up to `b`, as a new string.
pub fn substring(s: &str, a: usize, b: usize) -> (r: String)
    requires
        a <= b <= s@.len(),
    ensures
        r@ == s@.subrange(a as int, b as int),
{
    let mut out = String::new();
    let mut i: usize = a;
    while i < b
        invariant
            a <= i <= b,
            b <= s@.len(),
            out@ == s@.subrange(a as int, i as int),
        decreases b - i,
    {
        push_char(&mut out, s.get_char(i));
        assert(out@ =~= s@.subrange(a as int, i + 1));
        i = i + 1;
    }
    out
}

fn matches_pred(c: char, quotes: bool) -> (r: bool)
    ensures
        r == (if quotes {
            quote_pred()
        } else {
            ws_pred()
        })(c),
{
    if quotes {
        c == '"'
    } else {
        is_whitespace(c)
    }
}

/// Where the leading run of whitespace (or of quotes) ends.
fn lead_end(s: &str, quotes: bool) -> (a: usize)
    ensures
        a == lead_run(
            s@,
            if quotes {
                quote_pred()
            } else {
                ws_pred()
            },
        ),
        a <= s@.len(),
{
    let ghost p = if quotes {
        quote_pred()
    } else {
        ws_pred()
    };
    let n = s.unicode_len();
    let mut a: usize = 0;
    while a < n && matches_pred(s.get_char(a), quotes)
        invariant
            a <= n,
            n == s@.len(),
            p == (if quotes {
                quote_pred()
            } else {
                ws_pred()
            }),
            forall|j: int| 0 <= j < a ==> #[trigger] p(s@[j]),
        decreases n - a,
    {
        a = a + 1;
    }
    proof {
        lemma_lead_run(s@, p, a as int);
    }
    a
}

fn trim_run(s: &str, quotes: bool) -> (r: String)
    ensures
        r@ == trim_by(
            s@,
            if quotes {
                quote_pred()
            } else {
                ws_pred()
            },
        ),
{
    let ghost p = if quotes {
        quote_pred()
    } else {
        ws_pred()
    };
    let n = s.unicode_len();
    let a = lead_end(s, quotes);
    let mut b: usize = n;
    while b > a && matches_pred(s.get_char(b - 1), quotes)
        invariant
            a <= b <= n,
            n == s@.len(),
            p == (if quotes {
                quote_pred()
            } else {
                ws_pred()
            }),
            forall|j: int| b <= j < n ==> #[trigger] p(s@[j]),
        decreases b,
    {
        b = b - 1;
    }
    proof {
        let t = s@.skip(a as int);
        assert forall|j: int| t.len() - (n - b) <= j < t.len() implies #[trigger] p(t[j]) by {
            assert(t[j] == s@[a + j]);
        }
        if b > a {
            assert(t[t.len() - (n - b) - 1] == s@[b - 1]);
        }
        lemma_tail_run(t, p, (n - b) as int);
        assert(t.take(t.len() - (n - b)) =~= s@.subrange(a as int, b as int));
    }
    substring(s, a, b)
}

/// `str::trim`: without leading and trailing Unicode whitespace.
pub fn trim(s: &str) -> (r: String)
    ensures
        r@ == trim_by(s@, ws_pred()),
{
    trim_run(s, false)
}

/// `str::trim_matches('"')`: without leading and trailing double quotes.
pub fn trim_quotes(s: &str) -> (r: String)
    ensures
        r@ == trim_by(s@, quote_pred()),
{
    trim_run(s, true)
}

/// `str::trim_start`: without leading Unicode whitespace.
pub fn trim_start(s: &str) -> (r: String)
    ensures
        r@ == trim_start_by(s@, ws_pred()),
{
    let a = lead_end(s, false);
    let r = substring(s, a, s.unicode_len());
    assert(r@ =~= s@.skip(a as int));
    r
}

} // verus!
