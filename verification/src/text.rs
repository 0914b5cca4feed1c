use vstd::prelude::*;
use vstd::string::StringExecFns;

verus! {

/// The Unicode `White_Space` property, which `char::is_whitespace`,
/// `str::trim` and `str::split_whitespace` go by.
pub open spec fn is_ws(c: char) -> bool {
    ||| c == '\t'
    ||| c == '\n'
    ||| c == '\u{0B}'
    ||| c == '\u{0C}'
    ||| c == '\r'
    ||| c == ' '
    ||| c == '\u{85}'
    ||| c == '\u{A0}'
    ||| c == '\u{1680}'
    ||| ('\u{2000}' <= c && c <= '\u{200A}')
    ||| c == '\u{2028}'
    ||| c == '\u{2029}'
    ||| c == '\u{202F}'
    ||| c == '\u{205F}'
    ||| c == '\u{3000}'
}

/// Whether `c` is white space.
pub fn is_whitespace(c: char) -> (r: bool)
    ensures
        r == is_ws(c),
{
    c == '\t' || c == '\n' || c == '\u{0B}' || c == '\u{0C}' || c == '\r' || c == ' '
        || c == '\u{85}' || c == '\u{A0}' || c == '\u{1680}' || ('\u{2000}' <= c && c
        <= '\u{200A}') || c == '\u{2028}' || c == '\u{2029}' || c == '\u{202F}' || c
        == '\u{205F}' || c == '\u{3000}'
}

/// The characters of `s`, in order.
pub fn chars_of(s: &str) -> (v: Vec<char>)
    ensures
        v@ == s@,
{
    let mut v: Vec<char> = Vec::new();
    for c in it: s.chars()
        invariant
            v@ == it.seq().take(it.index() as int),
    {
        v.push(c);
    }
    v
}


/// Appends `c` to `s` (`String::push`).
#[verifier::external_body]
fn push_char(s: &mut String, c: char)
    ensures
        final(s)@ == old(s)@.push(c),
{
    s.push(c);
}

/// The string made of the characters `v[lo..hi]`.
pub fn string_of_range(v: &Vec<char>, lo: usize, hi: usize) -> (r: String)
    requires
        lo <= hi <= v@.len(),
    ensures
        r@ == v@.subrange(lo as int, hi as int),
{
    let mut r = String::new();
    let mut i = lo;
    while i < hi
        invariant
            lo <= i <= hi <= v@.len(),
            r@ == v@.subrange(lo as int, i as int),
        decreases hi - i,
    {
        push_char(&mut r, v[i]);
        assert(v@.subrange(lo as int, i + 1) == v@.subrange(lo as int, i as int).push(v@[i as int]));
        i = i + 1;
    }
    r
}

/// `s` without its leading white space.
pub open spec fn trim_start_spec(s: Seq<char>) -> Seq<char>
    decreases s.len(),
{
    if s.len() > 0 && is_ws(s[0]) {
        trim_start_spec(s.drop_first())
    } else {
        s
    }
}

/// `s` without its trailing white space.
pub open spec fn trim_end_spec(s: Seq<char>) -> Seq<char>
    decreases s.len(),
{
    if s.len() > 0 && is_ws(s.last()) {
        trim_end_spec(s.drop_last())
    } else {
        s
    }
}

/// `s` without leading and trailing white space, as `str::trim` gives it.
pub open spec fn trim_spec(s: Seq<char>) -> Seq<char> {
    trim_end_spec(trim_start_spec(s))
}

proof fn lemma_trim_start_front(s: Seq<char>)
    ensures
        trim_start_spec(s).len() == 0 || !is_ws(trim_start_spec(s)[0]),
    decreases s.len(),
{
    if s.len() > 0 && is_ws(s[0]) {
        lemma_trim_start_front(s.drop_first());
    }
}

proof fn lemma_trim_end_back(s: Seq<char>)
    ensures
        trim_end_spec(s).len() == 0 || !is_ws(trim_end_spec(s).last()),
    decreases s.len(),
{
    if s.len() > 0 && is_ws(s.last()) {
        lemma_trim_end_back(s.drop_last());
    }
}

proof fn lemma_trim_end_keeps_front(s: Seq<char>)
    requires
        s.len() > 0,
        !is_ws(s[0]),
    ensures
        trim_end_spec(s).len() > 0,
        trim_end_spec(s)[0] == s[0],
    decreases s.len(),
{
    if is_ws(s.last()) {
        assert(s.len() > 1);
        assert(s.drop_last()[0] == s[0]);
        lemma_trim_end_keeps_front(s.drop_last());
    }
}

/// A trimmed text that is not empty begins and ends with a character that
/// is not white space.
pub proof fn lemma_trim_ends(s: Seq<char>)
    ensures
        trim_spec(s).len() > 0 ==> !is_ws(trim_spec(s)[0]) && !is_ws(trim_spec(s).last()),
{
    let u = trim_start_spec(s);
    lemma_trim_start_front(s);
    lemma_trim_end_back(u);
    if u.len() > 0 {
        lemma_trim_end_keeps_front(u);
    }
}

/// Trimming twice is trimming once.
pub proof fn lemma_trim_idempotent(s: Seq<char>)
    ensures
        trim_spec(trim_spec(s)) == trim_spec(s),
{
    let u = trim_start_spec(s);
    let t = trim_end_spec(u);
    lemma_trim_start_front(s);
    lemma_trim_end_back(u);
    if u.len() > 0 {
        lemma_trim_end_keeps_front(u);
    }
    assert(trim_start_spec(t) == t);
    assert(trim_end_spec(t) == t);
}

proof fn lemma_trim_start_skip(s: Seq<char>, k: int)
    requires
        0 <= k <= s.len(),
        forall|i: int| 0 <= i < k ==> is_ws(#[trigger] s[i]),
        k == s.len() || !is_ws(s[k]),
    ensures
        trim_start_spec(s) == s.skip(k),
    decreases k,
{
    if k == 0 {
        assert(s.skip(0) == s);
    } else {
        assert(is_ws(s[0]));
        let t = s.drop_first();
        assert forall|i: int| 0 <= i < k - 1 implies is_ws(#[trigger] t[i]) by {
            assert(t[i] == s[i + 1]);
        }
        if k < s.len() {
            assert(t[k - 1] == s[k]);
        }
        lemma_trim_start_skip(t, k - 1);
        assert(t.skip(k - 1) == s.skip(k));
    }
}

proof fn lemma_trim_end_take(s: Seq<char>, k: int)
    requires
        0 <= k <= s.len(),
        forall|i: int| k <= i < s.len() ==> is_ws(#[trigger] s[i]),
        k == 0 || !is_ws(s[k - 1]),
    ensures
        trim_end_spec(s) == s.take(k),
    decreases s.len() - k,
{
    if k == s.len() {
        assert(s.take(k) == s);
    } else {
        assert(is_ws(s.last()));
        let t = s.drop_last();
        assert forall|i: int| k <= i < t.len() implies is_ws(#[trigger] t[i]) by {
            assert(t[i] == s[i]);
        }
        if k > 0 {
            assert(t[k - 1] == s[k - 1]);
        }
        lemma_trim_end_take(t, k);
        assert(t.take(k) == s.take(k));
    }
}

/// The bounds `[a, b)` of `v[lo..hi]` without its leading and trailing white space.
pub fn trim_range(v: &Vec<char>, lo: usize, hi: usize) -> (r: (usize, usize))
    requires
        lo <= hi <= v@.len(),
    ensures
        lo <= r.0 <= r.1 <= hi,
        v@.subrange(r.0 as int, r.1 as int) == trim_spec(v@.subrange(lo as int, hi as int)),
{
    let mut a = lo;
    while a < hi && is_whitespace(v[a])
        invariant
            lo <= a <= hi <= v@.len(),
            forall|i: int| lo <= i < a ==> is_ws(#[trigger] v@[i]),
        decreases hi - a,
    {
        a = a + 1;
    }
    let mut b = hi;
    while b > a && is_whitespace(v[b - 1])
        invariant
            lo <= a <= b <= hi <= v@.len(),
            forall|i: int| b <= i < hi ==> is_ws(#[trigger] v@[i]),
        decreases b - a,
    {
        b = b - 1;
    }
    proof {
        let s = v@.subrange(lo as int, hi as int);
        assert forall|i: int| 0 <= i < a - lo implies is_ws(#[trigger] s[i]) by {
            assert(s[i] == v@[lo + i]);
        }
        if a < hi {
            assert(s[a - lo] == v@[a as int]);
        }
        lemma_trim_start_skip(s, a - lo);
        let t = s.skip(a - lo);
        assert(t == v@.subrange(a as int, hi as int));
        assert forall|i: int| b - a <= i < t.len() implies is_ws(#[trigger] t[i]) by {
            assert(t[i] == v@[a + i]);
        }
        if b > a {
            assert(t[b - a - 1] == v@[b - 1]);
        }
        lemma_trim_end_take(t, b - a);
        assert(t.take(b - a) == v@.subrange(a as int, b as int));
    }
    (a, b)
}

/// `s` without leading and trailing white space (`str::trim`).
pub fn trim(s: &str) -> (r: String)
    ensures
        r@ == trim_spec(s@),
{
    let v = chars_of(s);
    let (a, b) = trim_range(&v, 0, v.len());
    assert(v@.subrange(0, v@.len() as int) == v@);
    string_of_range(&v, a, b)
}


/// Whether `s` begins with `p`.
pub open spec fn starts_with_spec(s: Seq<char>, p: Seq<char>) -> bool {
    p.len() <= s.len() && s.take(p.len() as int) == p
}

/// Whether `v[lo..hi]` begins with `p`.
pub fn range_starts_with(v: &Vec<char>, lo: usize, hi: usize, p: &Vec<char>) -> (r: bool)
    requires
        lo <= hi <= v@.len(),
    ensures
        r == starts_with_spec(v@.subrange(lo as int, hi as int), p@),
{
    let ghost s = v@.subrange(lo as int, hi as int);
    if p.len() > hi - lo {
        return false;
    }
    let mut i: usize = 0;
    while i < p.len()
        invariant
            lo <= hi <= v@.len(),
            p@.len() <= hi - lo,
            s == v@.subrange(lo as int, hi as int),
            i <= p@.len(),
            forall|j: int| 0 <= j < i ==> s[j] == p@[j],
        decreases p@.len() - i,
    {
        if v[lo + i] != p[i] {
            assert(s.take(p@.len() as int)[i as int] != p@[i as int]);
            return false;
        }
        i = i + 1;
    }
    assert(s.take(p@.len() as int) =~= p@);
    true
}

/// Whether `v[lo..hi]` is exactly `p`.
pub fn range_equals(v: &Vec<char>, lo: usize, hi: usize, p: &Vec<char>) -> (r: bool)
    requires
        lo <= hi <= v@.len(),
    ensures
        r == (v@.subrange(lo as int, hi as int) == p@),
{
    if hi - lo != p.len() {
        return false;
    }
    let r = range_starts_with(v, lo, hi, p);
    assert(v@.subrange(lo as int, hi as int).take(p@.len() as int) == v@.subrange(
        lo as int,
        hi as int,
    ));
    r
}

/// `s` with every leading repetition of `p` removed, as `str::trim_start_matches`
/// gives it for a non-empty pattern.
pub open spec fn strip_all_prefix(s: Seq<char>, p: Seq<char>) -> Seq<char>
    decreases s.len(),
{
    if p.len() > 0 && starts_with_spec(s, p) {
        strip_all_prefix(s.skip(p.len() as int), p)
    } else {
        s
    }
}

/// The start `k` such that `v[k..hi]` is `v[lo..hi]` with every leading
/// repetition of `p` removed.
pub fn strip_all_prefix_range(v: &Vec<char>, lo: usize, hi: usize, p: &Vec<char>) -> (k: usize)
    requires
        lo <= hi <= v@.len(),
        p@.len() > 0,
    ensures
        lo <= k <= hi,
        v@.subrange(k as int, hi as int) == strip_all_prefix(v@.subrange(lo as int, hi as int), p@),
{
    let mut k = lo;
    while range_starts_with(v, k, hi, p)
        invariant
            lo <= k <= hi <= v@.len(),
            p@.len() > 0,
            strip_all_prefix(v@.subrange(lo as int, hi as int), p@) == strip_all_prefix(
                v@.subrange(k as int, hi as int),
                p@,
            ),
        decreases hi - k,
    {
        let ghost s = v@.subrange(k as int, hi as int);
        assert(s.skip(p@.len() as int) == v@.subrange(k + p@.len(), hi as int));
        k = k + p.len();
    }
    k
}

/// Index of the first `'\n'` in `s`, or `s.len()` when there is none.
pub open spec fn newline_index(s: Seq<char>) -> int
    decreases s.len(),
{
    if s.len() == 0 {
        0
    } else if s[0] == '\n' {
        0
    } else {
        1 + newline_index(s.drop_first())
    }
}

pub proof fn lemma_newline_index_bounds(s: Seq<char>)
    ensures
        0 <= newline_index(s) <= s.len(),
        newline_index(s) < s.len() ==> s[newline_index(s)] == '\n',
    decreases s.len(),
{
    if s.len() > 0 && s[0] != '\n' {
        lemma_newline_index_bounds(s.drop_first());
    }
}

proof fn lemma_newline_index_is(s: Seq<char>, k: int)
    requires
        0 <= k <= s.len(),
        forall|i: int| 0 <= i < k ==> #[trigger] s[i] != '\n',
        k == s.len() || s[k] == '\n',
    ensures
        newline_index(s) == k,
    decreases k,
{
    if k > 0 {
        let t = s.drop_first();
        assert forall|i: int| 0 <= i < k - 1 implies #[trigger] t[i] != '\n' by {
            assert(t[i] == s[i + 1]);
        }
        if k < s.len() {
            assert(t[k - 1] == s[k]);
        }
        lemma_newline_index_is(t, k - 1);
    }
}

/// `s` without one trailing carriage return.
pub open spec fn strip_cr(s: Seq<char>) -> Seq<char> {
    if s.len() > 0 && s.last() == '\r' {
        s.drop_last()
    } else {
        s
    }
}

/// The lines of `s`, as `str::lines` gives them: split at `"\n"` or `"\r\n"`,
/// without the terminators, and with no empty line after a final terminator.
pub open spec fn lines_spec(s: Seq<char>) -> Seq<Seq<char>>
    decreases s.len(),
{
    if s.len() == 0 {
        seq![]
    } else {
        let i = newline_index(s);
        if i >= s.len() {
            seq![s]
        } else {
            proof {
                lemma_newline_index_bounds(s);
            }
            seq![strip_cr(s.take(i))] + lines_spec(s.skip(i + 1))
        }
    }
}

/// The pieces of `v` that the ranges mark.
pub open spec fn range_pieces(v: Seq<char>, rs: Seq<(usize, usize)>) -> Seq<Seq<char>> {
    rs.map_values(|r: (usize, usize)| v.subrange(r.0 as int, r.1 as int))
}

/// The ranges of the lines of `v`, in order.
pub fn line_ranges(v: &Vec<char>) -> (rs: Vec<(usize, usize)>)
    ensures
        range_pieces(v@, rs@) == lines_spec(v@),
        forall|j: int| 0 <= j < rs@.len() ==> #[trigger] rs@[j].0 <= rs@[j].1 <= v@.len(),
{
    let mut rs: Vec<(usize, usize)> = Vec::new();
    let mut p: usize = 0;
    assert(v@.skip(0) == v@);
    while p < v.len()
        invariant
            p <= v@.len(),
            lines_spec(v@) == range_pieces(v@, rs@) + lines_spec(v@.skip(p as int)),
            forall|j: int| 0 <= j < rs@.len() ==> #[trigger] rs@[j].0 <= rs@[j].1 <= v@.len(),
        decreases v@.len() - p,
    {
        let ghost rest = v@.skip(p as int);
        let mut j = p;
        while j < v.len() && v[j] != '\n'
            invariant
                p <= j <= v@.len(),
                p < v@.len(),
                forall|i: int| p <= i < j ==> #[trigger] v@[i] != '\n',
                forall|k: int| 0 <= k < rs@.len() ==> #[trigger] rs@[k].0 <= rs@[k].1 <= v@.len(),
                lines_spec(v@) == range_pieces(v@, rs@) + lines_spec(v@.skip(p as int)),
            decreases v@.len() - j,
        {
            j = j + 1;
        }
        proof {
            assert forall|i: int| 0 <= i < j - p implies #[trigger] rest[i] != '\n' by {
                assert(rest[i] == v@[p + i]);
            }
            if j < v@.len() {
                assert(rest[j - p] == v@[j as int]);
            }
            lemma_newline_index_is(rest, j - p);
        }
        let ghost old_rs = rs@;
        if j == v.len() {
            rs.push((p, j));
            proof {
                assert(rest == v@.subrange(p as int, j as int));
                assert(range_pieces(v@, rs@) == range_pieces(v@, old_rs).push(rest));
                assert(v@.skip(j as int).len() == 0);
                assert(lines_spec(v@.skip(j as int)) == Seq::<Seq<char>>::empty());
            }
            p = j;
        } else {
            let e = if j > p && v[j - 1] == '\r' {
                j - 1
            } else {
                j
            };
            rs.push((p, e));
            proof {
                assert(rest.take(j - p) == v@.subrange(p as int, j as int));
                assert(strip_cr(rest.take(j - p)) == v@.subrange(p as int, e as int));
                assert(rest.skip(j - p + 1) == v@.skip(j + 1));
                assert(range_pieces(v@, rs@) == range_pieces(v@, old_rs).push(
                    v@.subrange(p as int, e as int),
                ));
            }
            p = j + 1;
        }
    }
    assert(forall|k: int| 0 <= k < rs@.len() ==> #[trigger] rs@[k].0 <= rs@[k].1 <= v@.len());
    assert(v@.skip(p as int).len() == 0);
    assert(range_pieces(v@, rs@) + Seq::<Seq<char>>::empty() == range_pieces(v@, rs@));
    rs
}


/// Whether `c` is an ASCII decimal digit.
pub open spec fn is_digit(c: char) -> bool {
    '0' <= c && c <= '9'
}

/// The value of the decimal digit `c`.
pub open spec fn digit_value(c: char) -> nat {
    (c as int - '0' as int) as nat
}

/// The value of the decimal numeral `d`.
pub open spec fn numeral_value(d: Seq<char>) -> nat
    decreases d.len(),
{
    if d.len() == 0 {
        0
    } else {
        numeral_value(d.drop_last()) * 10 + digit_value(d.last())
    }
}

/// Whether every character of `d` is a decimal digit.
pub open spec fn all_digits(d: Seq<char>) -> bool {
    forall|i: int| 0 <= i < d.len() ==> is_digit(#[trigger] d[i])
}

/// What `s.parse::<u64>()` gives: an optional `'+'`, then one or more
/// decimal digits whose value fits in a `u64`; `None` for anything else.
pub open spec fn parse_u64_spec(s: Seq<char>) -> Option<u64> {
    let d = if s.len() > 0 && s[0] == '+' {
        s.drop_first()
    } else {
        s
    };
    if d.len() == 0 || !all_digits(d) || numeral_value(d) > u64::MAX {
        None
    } else {
        Some(numeral_value(d) as u64)
    }
}

proof fn lemma_numeral_prefix_le(d: Seq<char>, i: int)
    requires
        0 <= i <= d.len(),
    ensures
        numeral_value(d.take(i)) <= numeral_value(d),
    decreases d.len() - i,
{
    if i < d.len() {
        lemma_numeral_prefix_le(d, i + 1);
        assert(d.take(i + 1).drop_last() == d.take(i));
    } else {
        assert(d.take(i) == d);
    }
}

/// `v[lo..hi]` read as a `u64` (`str::parse::<u64>`).
pub fn parse_u64_range(v: &Vec<char>, lo: usize, hi: usize) -> (r: Option<u64>)
    requires
        lo <= hi <= v@.len(),
    ensures
        r == parse_u64_spec(v@.subrange(lo as int, hi as int)),
{
    let ghost s = v@.subrange(lo as int, hi as int);
    let start = if lo < hi && v[lo] == '+' {
        lo + 1
    } else {
        lo
    };
    let ghost d = v@.subrange(start as int, hi as int);
    assert(d == (if s.len() > 0 && s[0] == '+' {
        s.drop_first()
    } else {
        s
    }));
    if start == hi {
        return None;
    }
    let mut acc: u64 = 0;
    let mut i = start;
    while i < hi
        invariant
            lo <= start <= i <= hi <= v@.len(),
            s == v@.subrange(lo as int, hi as int),
            d == v@.subrange(start as int, hi as int),
            d == (if s.len() > 0 && s[0] == '+' {
                s.drop_first()
            } else {
                s
            }),
            d.len() > 0,
            all_digits(d.take(i - start)),
            acc as nat == numeral_value(d.take(i - start)),
        decreases hi - i,
    {
        let c = v[i];
        if !('0' <= c && c <= '9') {
            assert(d[i - start] == c);
            assert(!all_digits(d));
            return None;
        }
        let dv = (c as u32 - '0' as u32) as u64;
        assert(d.take(i - start + 1).drop_last() == d.take(i - start));
        assert(d.take(i - start + 1).last() == c);
        match acc.checked_mul(10) {
            None => {
                proof {
                    lemma_numeral_prefix_le(d, i - start + 1);
                    if all_digits(d) {
                        assert(numeral_value(d) > u64::MAX);
                    }
                }
                return None;
            },
            Some(m) => match m.checked_add(dv) {
                None => {
                    proof {
                        lemma_numeral_prefix_le(d, i - start + 1);
                    }
                    return None;
                },
                Some(n) => {
                    acc = n;
                },
            },
        }
        assert forall|j: int| 0 <= j < i - start + 1 implies is_digit(
            #[trigger] d.take(i - start + 1)[j],
        ) by {
            if j < i - start {
                assert(d.take(i - start)[j] == d.take(i - start + 1)[j]);
            }
        }
        i = i + 1;
    }
    assert(d.take(hi - start) == d);
    Some(acc)
}

/// `s.parse::<u64>().ok()`.
pub fn parse_u64(s: &str) -> (r: Option<u64>)
    ensures
        r == parse_u64_spec(s@),
{
    let v = chars_of(s);
    assert(v@.subrange(0, v@.len() as int) == v@);
    parse_u64_range(&v, 0, v.len())
}

/// The decimal digit character for `d < 10`.
pub open spec fn digit_char(d: nat) -> char {
    if d == 0 {
        '0'
    } else if d == 1 {
        '1'
    } else if d == 2 {
        '2'
    } else if d == 3 {
        '3'
    } else if d == 4 {
        '4'
    } else if d == 5 {
        '5'
    } else if d == 6 {
        '6'
    } else if d == 7 {
        '7'
    } else if d == 8 {
        '8'
    } else {
        '9'
    }
}

/// The decimal numeral of `n`, without sign or leading zeros (`to_string`).
pub open spec fn decimal_spec(n: nat) -> Seq<char>
    decreases n,
{
    if n < 10 {
        seq![digit_char(n)]
    } else {
        decimal_spec(n / 10).push(digit_char(n % 10))
    }
}

fn digit_to_char(d: u64) -> (c: char)
    requires
        d < 10,
    ensures
        c == digit_char(d as nat),
{
    if d == 0 {
        '0'
    } else if d == 1 {
        '1'
    } else if d == 2 {
        '2'
    } else if d == 3 {
        '3'
    } else if d == 4 {
        '4'
    } else if d == 5 {
        '5'
    } else if d == 6 {
        '6'
    } else if d == 7 {
        '7'
    } else if d == 8 {
        '8'
    } else {
        '9'
    }
}

/// `n.to_string()` for a `u64`.
pub fn u64_to_decimal(n: u64) -> (r: String)
    ensures
        r@ == decimal_spec(n as nat),
    decreases n,
{
    if n < 10 {
        let mut r = String::new();
        push_char(&mut r, digit_to_char(n));
        assert(r@ == seq![digit_char(n as nat)]);
        r
    } else {
        let mut r = u64_to_decimal(n / 10);
        push_char(&mut r, digit_to_char(n % 10));
        r
    }
}

proof fn lemma_digit_char(k: nat)
    requires
        k < 10,
    ensures
        is_digit(digit_char(k)),
        digit_value(digit_char(k)) == k,
{
}

proof fn lemma_decimal_digits(n: nat)
    ensures
        all_digits(decimal_spec(n)),
        numeral_value(decimal_spec(n)) == n,
        decimal_spec(n).len() > 0,
        decimal_spec(n)[0] != '+',
    decreases n,
{
    if n < 10 {
        lemma_digit_char(n);
        assert(decimal_spec(n).drop_last() =~= Seq::<char>::empty());
        assert(numeral_value(decimal_spec(n)) == numeral_value(decimal_spec(n).drop_last()) * 10
            + digit_value(decimal_spec(n).last()));
    } else {
        lemma_digit_char(n % 10);
        lemma_decimal_digits(n / 10);
        let d = decimal_spec(n);
        assert(d.drop_last() == decimal_spec(n / 10));
        assert forall|i: int| 0 <= i < d.len() implies is_digit(#[trigger] d[i]) by {
            if i < d.len() - 1 {
                assert(d[i] == decimal_spec(n / 10)[i]);
            }
        }
        assert(d[0] == decimal_spec(n / 10)[0]);
        assert(d.last() == digit_char(n % 10));
        assert(numeral_value(d) == numeral_value(d.drop_last()) * 10 + digit_value(d.last()));
        assert(n == (n / 10) * 10 + n % 10) by (nonlinear_arith);
    }
}

/// Reading back the decimal numeral of a `u64` gives the number.
pub proof fn law_parse_u64_of_decimal(n: u64)
    ensures
        parse_u64_spec(decimal_spec(n as nat)) == Some(n),
{
    lemma_decimal_digits(n as nat);
}


/// The pieces joined with `sep` between neighbours (`[String]::join`).
pub open spec fn join_spec(pieces: Seq<Seq<char>>, sep: Seq<char>) -> Seq<char>
    decreases pieces.len(),
{
    if pieces.len() == 0 {
        seq![]
    } else if pieces.len() == 1 {
        pieces[0]
    } else {
        join_spec(pieces.drop_last(), sep) + sep + pieces.last()
    }
}

/// `pieces.join(sep)`.
pub fn join_strings(pieces: &Vec<String>, sep: &str) -> (r: String)
    ensures
        r@ == join_spec(pieces.deep_view(), sep@),
{
    let mut r = String::new();
    let ghost pv = pieces.deep_view();
    let mut i: usize = 0;
    while i < pieces.len()
        invariant
            i <= pieces@.len(),
            pv == pieces.deep_view(),
            pv.len() == pieces@.len(),
            r@ == join_spec(pv.take(i as int), sep@),
        decreases pieces@.len() - i,
    {
        assert(pv.take(i + 1).drop_last() == pv.take(i as int));
        assert(pv[i as int] == pieces@[i as int]@);
        if i > 0 {
            r.append(sep);
        } else {
            assert(pv.take(0) =~= Seq::<Seq<char>>::empty());
        }
        r.append(pieces[i].as_str());
        i = i + 1;
    }
    assert(pv.take(pieces@.len() as int) == pv);
    r
}

/// The number of white-space separated words of `s`
/// (`s.split_whitespace().count()`).
pub open spec fn word_count_spec(s: Seq<char>) -> nat
    decreases s.len(),
{
    if s.len() == 0 {
        0
    } else {
        let t = s.drop_last();
        word_count_spec(t) + (if !is_ws(s.last()) && (t.len() == 0 || is_ws(t.last())) {
            1nat
        } else {
            0nat
        })
    }
}

proof fn lemma_word_count_le(s: Seq<char>)
    ensures
        word_count_spec(s) <= s.len(),
    decreases s.len(),
{
    if s.len() > 0 {
        lemma_word_count_le(s.drop_last());
    }
}

/// Whether the last word of `x` runs straight into the first word of `y`
/// (neither is empty, `x` ends and `y` begins with a character that is not
/// white space).
pub open spec fn words_touch(x: Seq<char>, y: Seq<char>) -> bool {
    x.len() > 0 && y.len() > 0 && !is_ws(x.last()) && !is_ws(y[0])
}

/// The words of two texts put one after the other are the words of each,
/// except that a word cut at the seam counts once.
pub proof fn law_word_count_concat(x: Seq<char>, y: Seq<char>)
    ensures
        word_count_spec(x + y) + (if words_touch(x, y) {
            1int
        } else {
            0int
        }) == word_count_spec(x) + word_count_spec(y),
    decreases y.len(),
{
    if y.len() == 0 {
        assert(x + y == x);
    } else {
        let z = x + y;
        let y1 = y.drop_last();
        assert(z.drop_last() == x + y1);
        assert(z.last() == y.last());
        law_word_count_concat(x, y1);
        if y1.len() == 0 {
            assert(x + y1 == x);
            assert(y[0] == y.last());
        } else {
            assert((x + y1).last() == y1.last());
            assert(y1[0] == y[0]);
        }
    }
}

/// Text made only of white space has no words.
pub proof fn law_blank_has_no_words(w: Seq<char>)
    requires
        forall|i: int| 0 <= i < w.len() ==> is_ws(#[trigger] w[i]),
    ensures
        word_count_spec(w) == 0,
    decreases w.len(),
{
    if w.len() > 0 {
        assert(is_ws(w[w.len() - 1]));
        law_blank_has_no_words(w.drop_last());
    }
}

/// A non-empty run of characters none of which is white space is one word.
pub proof fn law_one_word(w: Seq<char>)
    requires
        w.len() > 0,
        forall|i: int| 0 <= i < w.len() ==> !is_ws(#[trigger] w[i]),
    ensures
        word_count_spec(w) == 1,
    decreases w.len(),
{
    let t = w.drop_last();
    assert(!is_ws(w[w.len() - 1]));
    assert(!is_ws(w.last()));
    if t.len() == 0 {
        assert(word_count_spec(t) == 0);
    }
    if t.len() > 0 {
        assert forall|i: int| 0 <= i < t.len() implies !is_ws(#[trigger] t[i]) by {
            assert(t[i] == w[i]);
        }
        law_one_word(t);
        assert(t.last() == w[t.len() - 1]);
        assert(!is_ws(w[t.len() - 1]));
    }
}

/// How much white space separates two words does not matter: replacing a
/// non-empty run of white space by a single space keeps the count.
pub proof fn law_word_count_ws_run(a: Seq<char>, w: Seq<char>, b: Seq<char>)
    requires
        w.len() > 0,
        forall|i: int| 0 <= i < w.len() ==> is_ws(#[trigger] w[i]),
    ensures
        word_count_spec(a + w + b) == word_count_spec(a + seq![' '] + b),
{
    let sp = seq![' '];
    assert(is_ws(w[0]));
    assert(is_ws(w[w.len() - 1]));
    law_blank_has_no_words(w);
    law_blank_has_no_words(sp);
    law_word_count_concat(a, w);
    law_word_count_concat(a, sp);
    law_word_count_concat(a + w, b);
    law_word_count_concat(a + sp, b);
    assert((a + w).last() == w.last());
    assert((a + sp).last() == ' ');
}

/// The number of characters of `s` that are not white space.
pub open spec fn non_ws_count(s: Seq<char>) -> nat
    decreases s.len(),
{
    if s.len() == 0 {
        0
    } else {
        non_ws_count(s.drop_last()) + if is_ws(s.last()) {
            0nat
        } else {
            1nat
        }
    }
}

/// A text has no more words than characters that are not white space.
pub proof fn law_word_count_le_non_ws(s: Seq<char>)
    ensures
        word_count_spec(s) <= non_ws_count(s),
    decreases s.len(),
{
    if s.len() > 0 {
        law_word_count_le_non_ws(s.drop_last());
    }
}

/// `s.split_whitespace().count()`.
pub fn word_count(s: &str) -> (r: usize)
    ensures
        r == word_count_spec(s@),
{
    let v = chars_of(s);
    let mut count: usize = 0;
    let mut i: usize = 0;
    while i < v.len()
        invariant
            i <= v@.len(),
            v@ == s@,
            count == word_count_spec(v@.take(i as int)),
        decreases v@.len() - i,
    {
        proof {
            lemma_word_count_le(v@.take(i as int));
            assert(v@.take(i + 1).drop_last() == v@.take(i as int));
        }
        if !is_whitespace(v[i]) && (i == 0 || is_whitespace(v[i - 1])) {
            count = count + 1;
        }
        i = i + 1;
    }
    assert(v@.take(v@.len() as int) == v@);
    count
}

} // verus!
