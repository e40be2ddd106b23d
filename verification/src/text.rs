//! Character-level helpers for the line-oriented text that the PLY header and
//! the sidecar's readiness line are made of: Unicode white space, trimming,
//! splitting into lines and words, prefixes, and decimal numbers.
use vstd::prelude::*;

verus! {

/// The characters with the Unicode `White_Space` property, which is what
/// `char::is_whitespace` (and so `str::trim` and `str::split_whitespace`) tests.
pub open spec fn is_space(c: char) -> bool {
    let u = c as u32;
    ||| 0x09 <= u <= 0x0d
    ||| u == 0x20
    ||| u == 0x85
    ||| u == 0xa0
    ||| u == 0x1680
    ||| 0x2000 <= u <= 0x200a
    ||| u == 0x2028
    ||| u == 0x2029
    ||| u == 0x202f
    ||| u == 0x205f
    ||| u == 0x3000
}

/// `s` with its leading white space removed.
pub open spec fn trim_start(s: Seq<char>) -> Seq<char>
    decreases s.len(),
{
    if s.len() > 0 && is_space(s[0]) {
        trim_start(s.drop_first())
    } else {
        s
    }
}

/// `s` with its trailing white space removed.
pub open spec fn trim_end(s: Seq<char>) -> Seq<char>
    decreases s.len(),
{
    if s.len() > 0 && is_space(s.last()) {
        trim_end(s.drop_last())
    } else {
        s
    }
}

/// `s` with white space removed at both ends.
pub open spec fn trim(s: Seq<char>) -> Seq<char> {
    trim_end(trim_start(s))
}

/// Number of characters before the first white space of `s` (or its length).
pub open spec fn token_len(s: Seq<char>) -> nat
    decreases s.len(),
{
    if s.len() == 0 || is_space(s[0]) {
        0
    } else {
        1 + token_len(s.drop_first())
    }
}

/// The maximal runs of non-white-space characters of `s`, in order.
pub open spec fn words(s: Seq<char>) -> Seq<Seq<char>>
    decreases s.len(),
{
    let t = trim_start(s);
    if t.len() == 0 {
        seq![]
    } else {
        let n = token_len(t);
        proof {
            lemma_trim_start_len(s);
            lemma_token_len_bounds(t);
        }
        seq![t.take(n as int)] + words(t.skip(n as int))
    }
}

/// Number of characters before the first line feed of `s` (or its length).
pub open spec fn line_len(s: Seq<char>) -> nat
    decreases s.len(),
{
    if s.len() == 0 || s[0] == '\n' {
        0
    } else {
        1 + line_len(s.drop_first())
    }
}

/// The pieces of `s` between line feeds. A carriage return before a line feed,
/// and the empty piece after a final line feed, are kept; every consumer in this
/// crate trims each piece and skips empty ones, so the result is the same as with
/// `str::lines`.
pub open spec fn split_lines(s: Seq<char>) -> Seq<Seq<char>>
    decreases s.len(),
{
    let k = line_len(s);
    proof {
        lemma_line_len_bounds(s);
    }
    if k >= s.len() {
        seq![s]
    } else {
        seq![s.take(k as int)] + split_lines(s.skip((k + 1) as int))
    }
}

/// `prefix` is a prefix of `s`.
pub open spec fn starts_with(s: Seq<char>, prefix: Seq<char>) -> bool {
    prefix.len() <= s.len() && s.take(prefix.len() as int) == prefix
}

pub open spec fn is_digit(c: char) -> bool {
    '0' <= c <= '9'
}

/// Value of a sequence of decimal digits, most significant first.
pub open spec fn digits_value(s: Seq<char>) -> nat
    decreases s.len(),
{
    if s.len() == 0 {
        0
    } else {
        digits_value(s.drop_last()) * 10 + (s.last() as nat - '0' as nat) as nat
    }
}

/// The digits of an unsigned number: the text after an optional leading `+`.
pub open spec fn unsigned_digits(s: Seq<char>) -> Seq<char> {
    if s.len() > 0 && s[0] == '+' {
        s.drop_first()
    } else {
        s
    }
}

pub open spec fn all_digits(d: Seq<char>) -> bool {
    forall|i: int| 0 <= i < d.len() ==> is_digit(#[trigger] d[i])
}

/// What `str::parse::<usize>` gives: an optional `+`, then one or more decimal
/// digits whose value fits in `usize`.
pub open spec fn parse_usize_spec(s: Seq<char>) -> Option<usize> {
    let d = unsigned_digits(s);
    if d.len() > 0 && all_digits(d) && digits_value(d) <= usize::MAX {
        Some(digits_value(d) as usize)
    } else {
        None
    }
}

pub proof fn lemma_trim_start_len(s: Seq<char>)
    ensures
        trim_start(s).len() <= s.len(),
        trim_start(s).len() > 0 ==> !is_space(trim_start(s)[0]),
    decreases s.len(),
{
    if s.len() > 0 && is_space(s[0]) {
        lemma_trim_start_len(s.drop_first());
    }
}

pub proof fn lemma_token_len_bounds(s: Seq<char>)
    ensures
        token_len(s) <= s.len(),
        s.len() > 0 && !is_space(s[0]) ==> token_len(s) >= 1,
    decreases s.len(),
{
    if s.len() > 0 && !is_space(s[0]) {
        lemma_token_len_bounds(s.drop_first());
    }
}

pub proof fn lemma_line_len_bounds(s: Seq<char>)
    ensures
        line_len(s) <= s.len(),
    decreases s.len(),
{
    if s.len() > 0 && s[0] != '\n' {
        lemma_line_len_bounds(s.drop_first());
    }
}

/// `line_len` is the index of the first line feed.
proof fn lemma_line_len_exact(s: Seq<char>, k: int)
    requires
        0 <= k <= s.len(),
        forall|i: int| 0 <= i < k ==> s[i] != '\n',
        k == s.len() || s[k] == '\n',
    ensures
        line_len(s) == k,
    decreases k,
{
    if k > 0 {
        lemma_line_len_exact(s.drop_first(), k - 1);
    }
}

/// `token_len` is the index of the first white space.
proof fn lemma_token_len_exact(s: Seq<char>, k: int)
    requires
        0 <= k <= s.len(),
        forall|i: int| 0 <= i < k ==> !is_space(s[i]),
        k == s.len() || is_space(s[k]),
    ensures
        token_len(s) == k,
    decreases k,
{
    if k > 0 {
        lemma_token_len_exact(s.drop_first(), k - 1);
    }
}

/// `char::is_whitespace`.
pub fn is_space_char(c: char) -> (r: bool)
    ensures
        r == is_space(c),
{
    let u: u32 = c as u32;
    (0x09 <= u && u <= 0x0d) || u == 0x20 || u == 0x85 || u == 0xa0 || u == 0x1680 || (0x2000 <= u
        && u <= 0x200a) || u == 0x2028 || u == 0x2029 || u == 0x202f || u == 0x205f || u == 0x3000
}

/// The characters of a string slice.
pub fn str_chars(s: &str) -> (r: Vec<char>)
    ensures
        r@ == s@,
{
    let n: usize = s.unicode_len();
    let mut r: Vec<char> = Vec::new();
    let mut i: usize = 0;
    while i < n
        invariant
            n == s@.len(),
            i <= n,
            r@ == s@.take(i as int),
        decreases n - i,
    {
        let c = s.get_char(i);
        r.push(c);
        i = i + 1;
        assert(r@ =~= s@.take(i as int));
    }
    assert(r@ =~= s@);
    r
}

/// A copy of `c[lo..hi]`.
pub fn copy_range(c: &Vec<char>, lo: usize, hi: usize) -> (r: Vec<char>)
    requires
        lo <= hi <= c@.len(),
    ensures
        r@ == c@.subrange(lo as int, hi as int),
{
    let mut r: Vec<char> = Vec::new();
    let mut i: usize = lo;
    while i < hi
        invariant
            lo <= i <= hi <= c@.len(),
            r@ == c@.subrange(lo as int, i as int),
        decreases hi - i,
    {
        r.push(c[i]);
        i = i + 1;
        assert(r@ =~= c@.subrange(lo as int, i as int));
    }
    r
}

/// Whether `c[lo..hi]` equals `p`.
pub fn range_eq(c: &Vec<char>, lo: usize, hi: usize, p: &Vec<char>) -> (r: bool)
    requires
        lo <= hi <= c@.len(),
    ensures
        r == (c@.subrange(lo as int, hi as int) == p@),
{
    if hi - lo != p.len() {
        return false;
    }
    let mut i: usize = 0;
    while i < p.len()
        invariant
            lo <= hi <= c@.len(),
            hi - lo == p@.len(),
            i <= p@.len(),
            forall|j: int| 0 <= j < i ==> c@[lo + j] == p@[j],
        decreases p@.len() - i,
    {
        if c[lo + i] != p[i] {
            assert(c@.subrange(lo as int, hi as int)[i as int] != p@[i as int]);
            return false;
        }
        i = i + 1;
    }
    assert(c@.subrange(lo as int, hi as int) =~= p@);
    true
}

/// Whether `c[lo..hi]` begins with `p`.
pub fn range_starts_with(c: &Vec<char>, lo: usize, hi: usize, p: &Vec<char>) -> (r: bool)
    requires
        lo <= hi <= c@.len(),
    ensures
        r == starts_with(c@.subrange(lo as int, hi as int), p@),
{
    if p.len() > hi - lo {
        return false;
    }
    let r = range_eq(c, lo, lo + p.len(), p);
    assert(c@.subrange(lo as int, hi as int).take(p@.len() as int) =~= c@.subrange(
        lo as int,
        lo + p@.len(),
    ));
    r
}

/// Whether the characters `a` spell the string `s`.
pub fn chars_eq_str(a: &Vec<char>, s: &str) -> (r: bool)
    ensures
        r == (a@ == s@),
{
    let p = str_chars(s);
    let r = range_eq(a, 0, a.len(), &p);
    assert(a@.subrange(0, a@.len() as int) =~= a@);
    r
}

/// The bounds of `trim(c[lo..hi])` within `c`.
pub fn trim_range(c: &Vec<char>, lo: usize, hi: usize) -> (r: (usize, usize))
    requires
        lo <= hi <= c@.len(),
    ensures
        lo <= r.0 <= r.1 <= hi,
        c@.subrange(r.0 as int, r.1 as int) == trim(c@.subrange(lo as int, hi as int)),
{
    let mut a: usize = lo;
    while a < hi && is_space_char(c[a])
        invariant
            lo <= a <= hi <= c@.len(),
            trim_start(c@.subrange(lo as int, hi as int)) == trim_start(
                c@.subrange(a as int, hi as int),
            ),
        decreases hi - a,
    {
        assert(c@.subrange(a as int, hi as int).drop_first() =~= c@.subrange(a + 1, hi as int));
        a = a + 1;
    }
    assert(trim_start(c@.subrange(a as int, hi as int)) == c@.subrange(a as int, hi as int));
    let mut b: usize = hi;
    while b > a && is_space_char(c[b - 1])
        invariant
            lo <= a <= b <= hi <= c@.len(),
            trim(c@.subrange(lo as int, hi as int)) == trim_end(c@.subrange(a as int, b as int)),
        decreases b - a,
    {
        assert(c@.subrange(a as int, b as int).drop_last() =~= c@.subrange(a as int, b - 1));
        b = b - 1;
    }
    (a, b)
}

/// The bounds of the next line of `c[lo..hi]`: its end, at the first line feed
/// or at `hi`.
pub fn line_end(c: &Vec<char>, lo: usize, hi: usize) -> (e: usize)
    requires
        lo <= hi <= c@.len(),
    ensures
        lo <= e <= hi,
        e == lo + line_len(c@.subrange(lo as int, hi as int)),
        e < hi ==> c@[e as int] == '\n',
{
    let mut e: usize = lo;
    while e < hi && c[e] != '\n'
        invariant
            lo <= e <= hi <= c@.len(),
            forall|i: int| lo <= i < e ==> c@[i] != '\n',
        decreases hi - e,
    {
        e = e + 1;
    }
    proof {
        lemma_line_len_exact(c@.subrange(lo as int, hi as int), e - lo);
    }
    e
}

/// Unfolds `split_lines` once over a range.
pub proof fn lemma_split_lines_step(c: Seq<char>, lo: int, e: int, hi: int)
    requires
        0 <= lo <= e <= hi <= c.len(),
        e == lo + line_len(c.subrange(lo, hi)),
    ensures
        e == hi ==> split_lines(c.subrange(lo, hi)) == seq![c.subrange(lo, hi)],
        e < hi ==> split_lines(c.subrange(lo, hi)) == seq![c.subrange(lo, e)] + split_lines(
            c.subrange(e + 1, hi),
        ),
{
    let s = c.subrange(lo, hi);
    lemma_line_len_bounds(s);
    if e < hi {
        assert(s.take(e - lo) =~= c.subrange(lo, e));
        assert(s.skip(e - lo + 1) =~= c.subrange(e + 1, hi));
    }
}

/// The words of `c[lo..hi]`, as bounds within `c`.
pub fn split_words(c: &Vec<char>, lo: usize, hi: usize) -> (r: Vec<(usize, usize)>)
    requires
        lo <= hi <= c@.len(),
    ensures
        r@.len() == words(c@.subrange(lo as int, hi as int)).len(),
        forall|k: int|
            0 <= k < r@.len() ==> {
                &&& lo <= (#[trigger] r@[k]).0 <= r@[k].1 <= hi
                &&& c@.subrange(r@[k].0 as int, r@[k].1 as int) == words(
                    c@.subrange(lo as int, hi as int),
                )[k]
            },
{
    let ghost all = words(c@.subrange(lo as int, hi as int));
    let mut r: Vec<(usize, usize)> = Vec::new();
    let mut i: usize = lo;
    loop
        invariant
            lo <= i <= hi <= c@.len(),
            all == words(c@.subrange(lo as int, hi as int)),
            r@.len() + words(c@.subrange(i as int, hi as int)).len() == all.len(),
            forall|k: int|
                0 <= k < r@.len() ==> {
                    &&& lo <= (#[trigger] r@[k]).0 <= r@[k].1 <= i
                    &&& c@.subrange(r@[k].0 as int, r@[k].1 as int) == all[k]
                },
            forall|k: int|
                0 <= k < words(c@.subrange(i as int, hi as int)).len() ==> all[r@.len() + k]
                    == #[trigger] words(c@.subrange(i as int, hi as int))[k],
        ensures
            i == hi,
            r@.len() == all.len(),
            forall|k: int|
                0 <= k < r@.len() ==> {
                    &&& lo <= (#[trigger] r@[k]).0 <= r@[k].1 <= hi
                    &&& c@.subrange(r@[k].0 as int, r@[k].1 as int) == all[k]
                },
        decreases hi - i,
    {
        let ghost rest_before = words(c@.subrange(i as int, hi as int));
        // skip white space
        let mut a: usize = i;
        while a < hi && is_space_char(c[a])
            invariant
                i <= a <= hi <= c@.len(),
                words(c@.subrange(a as int, hi as int)) == rest_before,
            decreases hi - a,
        {
            proof {
                let s = c@.subrange(a as int, hi as int);
                assert(s.drop_first() =~= c@.subrange(a + 1, hi as int));
                assert(trim_start(s) == trim_start(s.drop_first()));
            }
            a = a + 1;
        }
        if a == hi {
            proof {
                let s = c@.subrange(a as int, hi as int);
                assert(s.len() == 0);
                assert(trim_start(s) == s);
                assert(words(s).len() == 0);
            }
            i = a;
            assert(r@.len() == all.len());
            break ;
        }
        let mut b: usize = a;
        while b < hi && !is_space_char(c[b])
            invariant
                a <= b <= hi <= c@.len(),
                forall|j: int| a <= j < b ==> !is_space(c@[j]),
            decreases hi - b,
        {
            b = b + 1;
        }
        proof {
            let s = c@.subrange(a as int, hi as int);
            assert(!is_space(s[0]));
            assert(trim_start(s) == s);
            lemma_token_len_exact(s, b - a);
            assert(s.take(b - a) =~= c@.subrange(a as int, b as int));
            assert(s.skip(b - a) =~= c@.subrange(b as int, hi as int));
            assert(words(s) == seq![c@.subrange(a as int, b as int)] + words(
                c@.subrange(b as int, hi as int),
            ));
        }
        let ghost old_len = r@.len();
        r.push((a, b));
        i = b;
        proof {
            let rest = words(c@.subrange(i as int, hi as int));
            assert(rest_before == seq![c@.subrange(a as int, b as int)] + rest);
            assert(all[old_len as int] == rest_before[0]);
            assert forall|k: int| 0 <= k < rest.len() implies all[r@.len() + k] == #[trigger] rest[k] by {
                assert(rest_before[1 + k] == rest[k]);
            }
        }
    }
    r
}

/// `str::parse::<usize>` on the characters `c[lo..hi]`.
pub fn parse_usize(c: &Vec<char>, lo: usize, hi: usize) -> (r: Option<usize>)
    requires
        lo <= hi <= c@.len(),
    ensures
        r == parse_usize_spec(c@.subrange(lo as int, hi as int)),
{
    let ghost s = c@.subrange(lo as int, hi as int);
    let mut start: usize = lo;
    if hi > lo && c[lo] == '+' {
        start = lo + 1;
    }
    let ghost d = c@.subrange(start as int, hi as int);
    assert(d =~= unsigned_digits(s));
    if start == hi {
        return None;
    }
    let mut v: usize = 0;
    let mut i: usize = start;
    while i < hi
        invariant
            lo <= start <= i <= hi <= c@.len(),
            d == c@.subrange(start as int, hi as int),
            s == c@.subrange(lo as int, hi as int),
            d == unsigned_digits(s),
            d.len() > 0,
            forall|j: int| start <= j < i ==> is_digit(c@[j]),
            v == digits_value(c@.subrange(start as int, i as int)),
        decreases hi - i,
    {
        let ch = c[i];
        if !('0' <= ch && ch <= '9') {
            proof {
                assert(!is_digit(d[i - start]));
                assert(!all_digits(d));
            }
            return None;
        }
        let digit: usize = ((ch as u32) - ('0' as u32)) as usize;
        proof {
            let t = c@.subrange(start as int, i + 1);
            assert(t.drop_last() =~= c@.subrange(start as int, i as int));
            assert(t.last() == ch);
            assert(digit == (ch as nat - '0' as nat) as nat);
            assert(digits_value(t) == v * 10 + digit);
        }
        match v.checked_mul(10) {
            Some(m) => match m.checked_add(digit) {
                Some(w) => {
                    v = w;
                },
                None => {
                    proof {
                        if all_digits(d) {
                            lemma_digits_value_prefix(d, i + 1 - start);
                            assert(d.take(i + 1 - start) =~= c@.subrange(start as int, i + 1));
                        }
                    }
                    return None;
                },
            },
            None => {
                proof {
                    if all_digits(d) {
                        lemma_digits_value_prefix(d, i + 1 - start);
                        assert(d.take(i + 1 - start) =~= c@.subrange(start as int, i + 1));
                    }
                }
                return None;
            },
        }
        i = i + 1;
    }
    assert(c@.subrange(start as int, hi as int) =~= d);
    Some(v)
}

/// What `str::parse::<i32>` gives: an optional `+` or `-`, then one or more
/// decimal digits, whose signed value fits in `i32`.
pub open spec fn parse_i32_spec(s: Seq<char>) -> Option<i32> {
    let signed = s.len() > 0 && (s[0] == '+' || s[0] == '-');
    let d = if signed {
        s.drop_first()
    } else {
        s
    };
    let v: int = if s.len() > 0 && s[0] == '-' {
        -(digits_value(d) as int)
    } else {
        digits_value(d) as int
    };
    if d.len() > 0 && all_digits(d) && i32::MIN <= v <= i32::MAX {
        Some(v as i32)
    } else {
        None
    }
}

/// `str::parse::<i32>` on the characters `c[lo..hi]`.
pub fn parse_i32(c: &Vec<char>, lo: usize, hi: usize) -> (r: Option<i32>)
    requires
        lo <= hi <= c@.len(),
    ensures
        r == parse_i32_spec(c@.subrange(lo as int, hi as int)),
{
    let ghost s = c@.subrange(lo as int, hi as int);
    let neg: bool = hi > lo && c[lo] == '-';
    let mut start: usize = lo;
    if hi > lo && (c[lo] == '+' || c[lo] == '-') {
        start = lo + 1;
    }
    let ghost d = c@.subrange(start as int, hi as int);
    assert(d =~= (if s.len() > 0 && (s[0] == '+' || s[0] == '-') {
        s.drop_first()
    } else {
        s
    }));
    if start == hi {
        return None;
    }
    let mut v: u64 = 0;
    let mut i: usize = start;
    while i < hi
        invariant
            lo <= start <= i <= hi <= c@.len(),
            d == c@.subrange(start as int, hi as int),
            s == c@.subrange(lo as int, hi as int),
            d.len() > 0,
            neg == (s.len() > 0 && s[0] == '-'),
            forall|j: int| start <= j < i ==> is_digit(c@[j]),
            v == digits_value(c@.subrange(start as int, i as int)),
            v <= 2147483648,
            parse_i32_spec(s) == (if d.len() > 0 && all_digits(d) && i32::MIN <= (if neg {
                -(digits_value(d) as int)
            } else {
                digits_value(d) as int
            }) <= i32::MAX {
                Some(
                    (if neg {
                        -(digits_value(d) as int)
                    } else {
                        digits_value(d) as int
                    }) as i32,
                )
            } else {
                None
            }),
        decreases hi - i,
    {
        let ch = c[i];
        if !('0' <= ch && ch <= '9') {
            proof {
                assert(!is_digit(d[i - start]));
                assert(!all_digits(d));
            }
            return None;
        }
        let digit: u64 = ((ch as u32) - ('0' as u32)) as u64;
        proof {
            let t = c@.subrange(start as int, i + 1);
            assert(t.drop_last() =~= c@.subrange(start as int, i as int));
            assert(t.last() == ch);
            assert(digit == (ch as nat - '0' as nat) as nat);
            assert(digits_value(t) == v * 10 + digit);
        }
        v = v * 10 + digit;
        if v > 2147483648 {
            proof {
                if all_digits(d) {
                    lemma_digits_value_prefix(d, i + 1 - start);
                    assert(d.take(i + 1 - start) =~= c@.subrange(start as int, i + 1));
                }
            }
            return None;
        }
        i = i + 1;
    }
    assert(c@.subrange(start as int, hi as int) =~= d);
    if neg {
        let r: i64 = 0i64 - (v as i64);
        Some(r as i32)
    } else if v <= 2147483647 {
        Some(v as i32)
    } else {
        None
    }
}

/// A longer run of digits has at least the value of its prefix.
proof fn lemma_digits_value_prefix(d: Seq<char>, k: int)
    requires
        0 <= k <= d.len(),
        all_digits(d),
    ensures
        digits_value(d.take(k)) <= digits_value(d),
    decreases d.len() - k,
{
    if k < d.len() {
        lemma_digits_value_prefix(d.drop_last(), k);
        assert(d.drop_last().take(k) =~= d.take(k));
        if k == d.len() - 1 {
            assert(d.take(k) =~= d.drop_last());
        }
    } else {
        assert(d.take(k) =~= d);
    }
}

} // verus!
