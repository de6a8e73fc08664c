//! Text helpers: the std string operations the screen logic relies on, and the
//! rendering of fixed-point amounts with thousands separators.

use vstd::prelude::*;
use vstd::string::*;

verus! {

// ---------------------------------------------------------------------------
// std operations on strings
// ---------------------------------------------------------------------------

/// `String::push`: appends one character at the end.
#[verifier::external_body]
pub(crate) fn push_char(s: &mut String, c: char)
    ensures
        final(s)@ == old(s)@.push(c),
{
    s.push(c);
}

/// `String::pop`: removes the last character and returns it, or `None` on an
/// empty string (which is then left unchanged).
#[verifier::external_body]
pub(crate) fn pop_char(s: &mut String) -> (r: Option<char>)
    ensures
        old(s)@.len() == 0 ==> r is None && final(s)@ == old(s)@,
        old(s)@.len() > 0 ==> r == Some(old(s)@.last()) && final(s)@ == old(s)@.drop_last(),
{
    s.pop()
}

/// A character with the Unicode `White_Space` property (what
/// `char::is_whitespace` and `str::trim` go by).
pub open spec fn is_white_space(c: char) -> bool {
    ||| ('\u{9}' <= c && c <= '\u{d}')
    ||| c == ' '
    ||| c == '\u{85}'
    ||| c == '\u{a0}'
    ||| c == '\u{1680}'
    ||| ('\u{2000}' <= c && c <= '\u{200a}')
    ||| c == '\u{2028}'
    ||| c == '\u{2029}'
    ||| c == '\u{202f}'
    ||| c == '\u{205f}'
    ||| c == '\u{3000}'
}

/// The string without its leading white space.
pub open spec fn trim_start(s: Seq<char>) -> Seq<char>
    decreases s.len(),
{
    if s.len() > 0 && is_white_space(s[0]) {
        trim_start(s.drop_first())
    } else {
        s
    }
}

/// The string without its trailing white space.
pub open spec fn trim_end(s: Seq<char>) -> Seq<char>
    decreases s.len(),
{
    if s.len() > 0 && is_white_space(s.last()) {
        trim_end(s.drop_last())
    } else {
        s
    }
}

/// What `str::trim` leaves of a string: the part between the first and the
/// last character that is not white space (empty when there is none).
pub open spec fn trimmed(s: Seq<char>) -> Seq<char> {
    trim_end(trim_start(s))
}

fn white_space(c: char) -> (r: bool)
    ensures
        r == is_white_space(c),
{
    ('\u{9}' <= c && c <= '\u{d}') || c == ' ' || c == '\u{85}' || c == '\u{a0}' || c
        == '\u{1680}' || ('\u{2000}' <= c && c <= '\u{200a}') || c == '\u{2028}' || c
        == '\u{2029}' || c == '\u{202f}' || c == '\u{205f}' || c == '\u{3000}'
}

proof fn lemma_trim_start(s: Seq<char>, i: int)
    requires
        0 <= i <= s.len(),
        forall|k: int| 0 <= k < i ==> is_white_space(#[trigger] s[k]),
        i == s.len() || !is_white_space(s[i]),
    ensures
        trim_start(s) == s.skip(i),
    decreases i,
{
    if i == 0 {
        assert(s.skip(0) =~= s);
    } else {
        assert(is_white_space(s[0]));
        lemma_trim_start(s.drop_first(), i - 1);
        assert(s.drop_first().skip(i - 1) =~= s.skip(i));
    }
}

proof fn lemma_trim_end(s: Seq<char>, j: int)
    requires
        0 <= j <= s.len(),
        forall|k: int| j <= k < s.len() ==> is_white_space(#[trigger] s[k]),
        j == 0 || !is_white_space(s[j - 1]),
    ensures
        trim_end(s) == s.take(j),
    decreases s.len() - j,
{
    if j == s.len() {
        assert(s.take(j) =~= s);
    } else {
        assert(is_white_space(s[s.len() - 1]));
        lemma_trim_end(s.drop_last(), j);
        assert(s.drop_last().take(j) =~= s.take(j));
    }
}

/// `str::trim`, copied into a new `String`.
pub fn trim_owned(s: &str) -> (r: String)
    ensures
        r@ == trimmed(s@),
{
    let v = chars_of(s);
    let n = v.len();
    let mut i: usize = 0;
    while i < n && white_space(v[i])
        invariant
            i <= n,
            n == v@.len(),
            v@ == s@,
            forall|k: int| 0 <= k < i ==> is_white_space(#[trigger] v@[k]),
        decreases n - i,
    {
        i = i + 1;
    }
    let mut j: usize = n;
    while j > i && white_space(v[j - 1])
        invariant
            i <= j <= n,
            n == v@.len(),
            forall|k: int| j <= k < n ==> is_white_space(#[trigger] v@[k]),
        decreases j,
    {
        j = j - 1;
    }
    proof {
        lemma_trim_start(s@, i as int);
        let t = s@.skip(i as int);
        assert forall|k: int| (j - i) <= k < t.len() implies is_white_space(#[trigger] t[k]) by {
            assert(t[k] == v@[k + i]);
        }
        if j > i {
            assert(t[j - i - 1] == v@[j - 1]);
        }
        lemma_trim_end(t, (j - i) as int);
        assert(t.take((j - i) as int) =~= s@.subrange(i as int, j as int));
    }
    let mut r = String::new();
    push_range(&mut r, &v, i, j);
    r
}

/// What `str::to_lowercase` makes of a string (Unicode lower-case mapping).
pub uninterp spec fn lowercased(s: Seq<char>) -> Seq<char>;

/// `str::to_lowercase`.
#[verifier::external_body]
pub(crate) fn to_lower(s: &str) -> (r: String)
    ensures
        r@ == lowercased(s@),
{
    s.to_lowercase()
}

/// An ASCII decimal digit.
pub open spec fn is_digit(c: char) -> bool {
    '0' <= c && c <= '9'
}

/// Every character is an ASCII decimal digit.
pub open spec fn all_digits(d: Seq<char>) -> bool {
    forall|i: int| 0 <= i < d.len() ==> #[trigger] is_digit(d[i])
}

/// The number written by a sequence of decimal digits.
pub open spec fn digits_value(d: Seq<char>) -> int
    decreases d.len(),
{
    if d.len() == 0 {
        0
    } else {
        digits_value(d.drop_last()) * 10 + ((d.last() as int) - ('0' as int))
    }
}

/// What `str::parse::<i64>` accepts: an optional `+` or `-`, then one or more
/// decimal digits, whose value fits in an `i64`.
pub open spec fn parsed_i64(s: Seq<char>) -> Option<i64> {
    let neg = s.len() > 0 && s[0] == '-';
    let body = if s.len() > 0 && (s[0] == '-' || s[0] == '+') {
        s.drop_first()
    } else {
        s
    };
    let v: int = if neg {
        -digits_value(body)
    } else {
        digits_value(body)
    };
    if body.len() > 0 && all_digits(body) && i64::MIN <= v && v <= i64::MAX {
        Some(v as i64)
    } else {
        None
    }
}

proof fn lemma_digits_value_nonneg(d: Seq<char>)
    requires
        all_digits(d),
    ensures
        digits_value(d) >= 0,
    decreases d.len(),
{
    if d.len() > 0 {
        assert(all_digits(d.drop_last())) by {
            assert forall|i: int| 0 <= i < d.drop_last().len() implies #[trigger] is_digit(
                d.drop_last()[i],
            ) by {
                assert(is_digit(d[i]));
            }
        }
        lemma_digits_value_nonneg(d.drop_last());
        assert(is_digit(d[d.len() - 1]));
    }
}

proof fn lemma_digits_value_prefix(d: Seq<char>, m: int)
    requires
        all_digits(d),
        0 <= m <= d.len(),
    ensures
        digits_value(d.take(m)) <= digits_value(d),
    decreases d.len() - m,
{
    if m < d.len() {
        lemma_digits_value_prefix(d, m + 1);
        let t = d.take(m + 1);
        assert(t.drop_last() =~= d.take(m));
        assert(all_digits(d.take(m))) by {
            assert forall|i: int| 0 <= i < d.take(m).len() implies #[trigger] is_digit(
                d.take(m)[i],
            ) by {
                assert(is_digit(d[i]));
            }
        }
        lemma_digits_value_nonneg(d.take(m));
        assert(is_digit(d[m]));
    } else {
        assert(d.take(m) =~= d);
    }
}

/// `str::parse::<i64>`: an optional sign, then decimal digits, whose value
/// fits in an `i64`.
pub fn parse_i64(s: &str) -> (r: Option<i64>)
    ensures
        r == parsed_i64(s@),
{
    let v = chars_of(s);
    let n = v.len();
    let neg = n > 0 && v[0] == '-';
    let start: usize = if n > 0 && (v[0] == '-' || v[0] == '+') {
        1
    } else {
        0
    };
    let ghost body = if s@.len() > 0 && (s@[0] == '-' || s@[0] == '+') {
        s@.drop_first()
    } else {
        s@
    };
    assert(body =~= s@.skip(start as int));
    if start == n {
        return None;
    }
    let mut acc: i128 = 0;
    let mut k: usize = start;
    while k < n
        invariant
            start <= k <= n,
            n == v@.len(),
            v@ == s@,
            body == s@.skip(start as int),
            body == (if s@.len() > 0 && (s@[0] == '-' || s@[0] == '+') {
                s@.drop_first()
            } else {
                s@
            }),
            neg == (s@.len() > 0 && s@[0] == '-'),
            forall|q: int| 0 <= q < k - start ==> #[trigger] is_digit(body[q]),
            acc == (if neg {
                -digits_value(body.take(k - start))
            } else {
                digits_value(body.take(k - start))
            }),
            i64::MIN <= acc <= i64::MAX,
        decreases n - k,
    {
        let c = v[k];
        assert(c == body[k - start]);
        if !('0' <= c && c <= '9') {
            assert(!is_digit(body[k - start]));
            assert(!all_digits(body));
            assert(parsed_i64(s@) is None);
            return None;
        }
        let d = (c as u32 - '0' as u32) as i128;
        let next = if neg {
            acc * 10 - d
        } else {
            acc * 10 + d
        };
        proof {
            let t = body.take(k - start + 1);
            assert(t.drop_last() =~= body.take(k - start));
            assert(t.last() == c);
            assert(d == (c as int) - ('0' as int));
            assert(digits_value(t) == digits_value(body.take(k - start)) * 10 + d);
            assert(next == (if neg {
                -digits_value(t)
            } else {
                digits_value(t)
            }));
        }
        if next < i64::MIN as i128 || next > i64::MAX as i128 {
            proof {
                let t = body.take(k - start + 1);
                if all_digits(body) {
                    lemma_digits_value_prefix(body, k - start + 1);
                    assert(all_digits(t)) by {
                        assert forall|q: int| 0 <= q < t.len() implies #[trigger] is_digit(t[q]) by {
                            assert(is_digit(body[q]));
                        }
                    }
                    lemma_digits_value_nonneg(t);
                    assert(body.len() > 0);
                }
                assert(parsed_i64(s@) is None);
            }
            return None;
        }
        acc = next;
        k = k + 1;
    }
    assert(body.take(n - start) =~= body);
    Some(acc as i64)
}

// ---------------------------------------------------------------------------
// Amounts
// ---------------------------------------------------------------------------

/// Digits split into groups of three from the right, joined by commas.
pub open spec fn grouped(d: Seq<char>) -> Seq<char>
    decreases d.len(),
{
    if d.len() <= 3 {
        d
    } else {
        grouped(d.take(d.len() - 3)) + seq![','] + d.skip(d.len() - 3)
    }
}

/// Position of the first `'.'`, or the length when there is none.
pub open spec fn dot_pos(s: Seq<char>) -> int
    decreases s.len(),
{
    if s.len() == 0 {
        0
    } else if s[0] == '.' {
        0
    } else {
        1 + dot_pos(s.drop_first())
    }
}

/// The string with every leading `'-'` removed.
pub open spec fn strip_dashes(s: Seq<char>) -> Seq<char>
    decreases s.len(),
{
    if s.len() > 0 && s[0] == '-' {
        strip_dashes(s.drop_first())
    } else {
        s
    }
}

/// A fixed-point number as displayed: the part before the first `'.'` loses
/// its leading minus signs and gets thousands separators, one minus sign is
/// put back in front when it had any, and the fraction follows unchanged.
pub open spec fn money_text(fixed: Seq<char>) -> Seq<char> {
    let p = dot_pos(fixed);
    let int_part = fixed.take(p);
    let frac = fixed.skip(p + 1);
    let neg = int_part.len() > 0 && int_part[0] == '-';
    (if neg {
        seq!['-']
    } else {
        Seq::<char>::empty()
    }) + grouped(strip_dashes(int_part)) + seq!['.'] + frac
}

proof fn lemma_dot_pos(s: Seq<char>, i: int)
    requires
        0 <= i < s.len(),
        s[i] == '.',
        forall|k: int| 0 <= k < i ==> s[k] != '.',
    ensures
        dot_pos(s) == i,
    decreases i,
{
    if i > 0 {
        lemma_dot_pos(s.drop_first(), i - 1);
    }
}

proof fn lemma_strip_dashes(s: Seq<char>, j: int)
    requires
        0 <= j <= s.len(),
        forall|k: int| 0 <= k < j ==> s[k] == '-',
        j == s.len() || s[j] != '-',
    ensures
        strip_dashes(s) == s.skip(j),
    decreases j,
{
    if j == 0 {
        assert(s.skip(0) =~= s);
    } else {
        lemma_strip_dashes(s.drop_first(), j - 1);
        assert(s.drop_first().skip(j - 1) =~= s.skip(j));
    }
}

proof fn lemma_grouped_step(d: Seq<char>, k: int)
    requires
        1 <= k,
        k + 3 <= d.len(),
    ensures
        grouped(d.take(k + 3)) == grouped(d.take(k)) + seq![','] + d.subrange(k, k + 3),
{
    let t = d.take(k + 3);
    assert(t.take(t.len() - 3) =~= d.take(k));
    assert(t.skip(t.len() - 3) =~= d.subrange(k, k + 3));
}

proof fn lemma_trim_start_shape(s: Seq<char>) -> (i: int)
    ensures
        0 <= i <= s.len(),
        trim_start(s) == s.skip(i),
        forall|k: int| 0 <= k < i ==> is_white_space(#[trigger] s[k]),
        i == s.len() || !is_white_space(s[i]),
    decreases s.len(),
{
    if s.len() > 0 && is_white_space(s[0]) {
        let i1 = lemma_trim_start_shape(s.drop_first());
        assert(s.drop_first().skip(i1) =~= s.skip(i1 + 1));
        assert forall|k: int| 0 <= k < i1 + 1 implies is_white_space(#[trigger] s[k]) by {
            if k > 0 {
                assert(s[k] == s.drop_first()[k - 1]);
            }
        }
        i1 + 1
    } else {
        assert(s.skip(0) =~= s);
        0
    }
}

proof fn lemma_trim_end_shape(s: Seq<char>) -> (j: int)
    ensures
        0 <= j <= s.len(),
        trim_end(s) == s.take(j),
        forall|k: int| j <= k < s.len() ==> is_white_space(#[trigger] s[k]),
        j == 0 || !is_white_space(s[j - 1]),
    decreases s.len(),
{
    if s.len() > 0 && is_white_space(s.last()) {
        let j1 = lemma_trim_end_shape(s.drop_last());
        assert(s.drop_last().take(j1) =~= s.take(j1));
        assert forall|k: int| j1 <= k < s.len() implies is_white_space(#[trigger] s[k]) by {
            if k < s.len() - 1 {
                assert(s[k] == s.drop_last()[k]);
            }
        }
        j1
    } else {
        assert(s.take(s.len() as int) =~= s);
        s.len() as int
    }
}

/// Law: trimming keeps a contiguous part of the string: everything before it
/// and after it is white space, and it neither starts nor ends with white
/// space.
pub proof fn lemma_trimmed_shape(s: Seq<char>)
    ensures
        exists|i: int, j: int|
            0 <= i <= j <= s.len() && trimmed(s) == s.subrange(i, j) && (forall|k: int|
                0 <= k < i ==> is_white_space(#[trigger] s[k])) && (forall|k: int|
                j <= k < s.len() ==> is_white_space(#[trigger] s[k])) && (i < j ==> !is_white_space(
                s[i]) && !is_white_space(s[j - 1])),
{
    let i = lemma_trim_start_shape(s);
    let t = s.skip(i);
    let jj = lemma_trim_end_shape(t);
    let j = i + jj;
    assert(t.take(jj) =~= s.subrange(i, j));
    assert forall|k: int| j <= k < s.len() implies is_white_space(#[trigger] s[k]) by {
        assert(s[k] == t[k - i]);
    }
    if i < j {
        assert(s[j - 1] == t[jj - 1]);
    }
}

/// Digits with no sign, point or comma among them.
pub open spec fn plain_digits(d: Seq<char>) -> bool {
    forall|k: int| 0 <= k < d.len() ==> #[trigger] d[k] != ',' && d[k] != '.' && d[k] != '-'
}

/// Law: a grouped number has a comma exactly at the positions that leave a
/// multiple of four characters to its end (one comma before every three
/// trailing digits), and one comma per complete group of three after the
/// first digit.
pub proof fn lemma_grouped_commas(d: Seq<char>)
    requires
        plain_digits(d),
        d.len() > 0,
    ensures
        grouped(d).len() == d.len() + (d.len() - 1) / 3,
        forall|k: int|
            0 <= k < grouped(d).len() ==> (#[trigger] grouped(d)[k] == ',' <==> (k > 0 && (grouped(
                d,
            ).len() - k) % 4 == 0)),
    decreases d.len(),
{
    if d.len() > 3 {
        let h = d.take(d.len() - 3);
        let t = d.skip(d.len() - 3);
        assert(plain_digits(h)) by {
            assert forall|k: int| 0 <= k < h.len() implies #[trigger] h[k] != ',' && h[k] != '.' && h[k]
                != '-' by {
                assert(h[k] == d[k]);
            }
        }
        lemma_grouped_commas(h);
        let g = grouped(h);
        let r = grouped(d);
        assert(r == g + seq![','] + t);
        assert forall|k: int| 0 <= k < r.len() implies (#[trigger] r[k] == ',' <==> (k > 0 && (r.len()
            - k) % 4 == 0)) by {
            if k < g.len() {
                assert(r[k] == g[k]);
                assert((r.len() - k) % 4 == (g.len() - k) % 4);
            } else if k > g.len() {
                assert(r[k] == d[d.len() - 3 + (k - g.len() - 1)]);
            }
        }
    }
}

/// Law: a fixed-point number with an optional minus sign, digits, a point
/// and a fraction is shown as the sign, the digits grouped, the point and
/// the fraction unchanged.
pub proof fn lemma_money_text_parts(neg: bool, d: Seq<char>, frac: Seq<char>)
    requires
        plain_digits(d),
    ensures
        money_text(
            (if neg {
                seq!['-']
            } else {
                Seq::<char>::empty()
            }) + d + seq!['.'] + frac,
        ) == (if neg {
            seq!['-']
        } else {
            Seq::<char>::empty()
        }) + grouped(d) + seq!['.'] + frac,
{
    let pre = if neg {
        seq!['-']
    } else {
        Seq::<char>::empty()
    };
    let s = pre + d + seq!['.'] + frac;
    let p: int = (pre.len() + d.len()) as int;
    assert forall|k: int| 0 <= k < p implies s[k] != '.' by {
        if k >= pre.len() {
            assert(s[k] == d[k - pre.len()]);
        }
    }
    lemma_dot_pos(s, p);
    let ip = s.take(p);
    assert(ip =~= pre + d);
    assert forall|k: int| 0 <= k < pre.len() implies ip[k] == '-' by {}
    if pre.len() < ip.len() {
        assert(ip[pre.len() as int] == d[0]);
    }
    lemma_strip_dashes(ip, pre.len() as int);
    assert(ip.skip(pre.len() as int) =~= d);
    assert(s.skip(p + 1) =~= frac);
}

/// Appends `src[from..to]` to `out`.
fn push_range(out: &mut String, src: &Vec<char>, from: usize, to: usize)
    requires
        from <= to <= src.len(),
    ensures
        final(out)@ == old(out)@ + src@.subrange(from as int, to as int),
{
    let mut i = from;
    while i < to
        invariant
            from <= i <= to <= src.len(),
            out@ == old(out)@ + src@.subrange(from as int, i as int),
        decreases to - i,
    {
        push_char(out, src[i]);
        assert(src@.subrange(from as int, i + 1) =~= src@.subrange(from as int, i as int).push(
            src@[i as int],
        ));
        i = i + 1;
    }
}

/// The characters of a string, one by one.
pub(crate) fn chars_of(s: &str) -> (v: Vec<char>)
    ensures
        v@ == s@,
{
    let n = s.unicode_len();
    let mut v: Vec<char> = Vec::new();
    let mut i: usize = 0;
    while i < n
        invariant
            i <= n,
            n == s@.len(),
            v@ == s@.take(i as int),
        decreases n - i,
    {
        v.push(s.get_char(i));
        assert(s@.take(i + 1) =~= s@.take(i as int).push(s@[i as int]));
        i = i + 1;
    }
    assert(s@.take(n as int) =~= s@);
    v
}

/// Renders a fixed-point amount (as `format!("{:.2}", v)` writes it) with
/// thousands separators: `"-1234567.80"` becomes `"-1,234,567.80"`.
pub fn fmt_money(fixed: &str) -> (r: String)
    requires
        fixed@.contains('.'),
    ensures
        r@ == money_text(fixed@),
{
    let v = chars_of(fixed);
    let n = v.len();
    let ghost s = fixed@;
    // first '.'
    let mut p: usize = 0;
    while p < n && v[p] != '.'
        invariant
            p <= n,
            n == s.len(),
            v@ == s,
            forall|k: int| 0 <= k < p ==> s[k] != '.',
        decreases n - p,
    {
        p = p + 1;
    }
    proof {
        if p == n {
            let k = choose|k: int| 0 <= k < s.len() && s[k] == '.';
            assert(s[k] != '.');
        }
        lemma_dot_pos(s, p as int);
    }
    // leading minus signs of the integer part
    let mut j: usize = 0;
    while j < p && v[j] == '-'
        invariant
            j <= p < n,
            n == s.len(),
            v@ == s,
            forall|k: int| 0 <= k < j ==> s[k] == '-',
        decreases p - j,
    {
        j = j + 1;
    }
    let ghost int_part = s.take(p as int);
    proof {
        lemma_strip_dashes(int_part, j as int);
        assert(int_part.skip(j as int) =~= s.subrange(j as int, p as int));
    }
    let neg = p > 0 && v[0] == '-';
    let mut out = String::new();
    if neg {
        push_char(&mut out, '-');
    }
    let ghost prefix = out@;
    let ghost d = s.subrange(j as int, p as int);
    let m = p - j;
    if m > 0 {
        let r = (m - 1) % 3 + 1;
        push_range(&mut out, &v, j, j + r);
        proof {
            assert(d.take(r as int) =~= s.subrange(j as int, j + r));
        }
        let mut k = r;
        while k < m
            invariant
                1 <= k <= m,
                m == p - j,
                j < p < n,
                n == v@.len(),
                v@ == s,
                d == s.subrange(j as int, p as int),
                (m - k) % 3 == 0,
                out@ == prefix + grouped(d.take(k as int)),
            decreases m - k,
        {
            push_char(&mut out, ',');
            push_range(&mut out, &v, j + k, j + k + 3);
            proof {
                lemma_grouped_step(d, k as int);
                assert(d.subrange(k as int, k + 3) =~= s.subrange(j + k, j + k + 3));
            }
            k = k + 3;
        }
        assert(d.take(m as int) =~= d);
    } else {
        assert(d =~= Seq::<char>::empty());
    }
    push_char(&mut out, '.');
    push_range(&mut out, &v, p + 1, n);
    proof {
        assert(s.subrange(p + 1, n as int) =~= s.skip(p + 1));
        assert(int_part.len() > 0 ==> int_part[0] == s[0]);
    }
    out
}

} // verus!
