use vstd::prelude::*;

verus! {

/// The ASCII whitespace characters that separate tokens.
pub open spec fn is_space(c: char) -> bool {
    c == ' ' || c == '\t' || c == '\n' || c == '\r' || c == '\x0C'
}

/// Scanning the first `n` characters of `s`: the tokens completed so far and
/// the token still being read.
pub open spec fn scan(s: Seq<char>, n: int) -> (Seq<Seq<char>>, Seq<char>)
    decreases n,
{
    if n <= 0 {
        (Seq::empty(), Seq::empty())
    } else {
        let prev = scan(s, n - 1);
        if is_space(s[n - 1]) {
            if prev.1.len() > 0 {
                (prev.0.push(prev.1), Seq::empty())
            } else {
                (prev.0, Seq::empty())
            }
        } else {
            (prev.0, prev.1.push(s[n - 1]))
        }
    }
}

/// The maximal runs of non-whitespace characters of `s`, in order.
pub open spec fn tokens_of(s: Seq<char>) -> Seq<Seq<char>> {
    let last = scan(s, s.len() as int);
    if last.1.len() > 0 {
        last.0.push(last.1)
    } else {
        last.0
    }
}

/// `spans` locates each of `toks` in `s`, one span per token.
pub open spec fn spans_match(s: Seq<char>, spans: Seq<(usize, usize)>, toks: Seq<Seq<char>>) -> bool {
    &&& spans.len() == toks.len()
    &&& forall|k: int| 0 <= k < spans.len() ==> #[trigger] spans[k].0 < spans[k].1 <= s.len()
    &&& forall|k: int|
        0 <= k < spans.len() ==> s.subrange(spans[k].0 as int, spans[k].1 as int) == #[trigger] toks[k]
}

pub open spec fn is_digit(c: char) -> bool {
    '0' <= c && c <= '9'
}

pub open spec fn all_digits(s: Seq<char>) -> bool {
    s.len() > 0 && forall|i: int| 0 <= i < s.len() ==> is_digit(#[trigger] s[i])
}

pub open spec fn digit_value(c: char) -> int {
    (c as u32) as int - ('0' as u32) as int
}

/// The value of a string of decimal digits, most significant first.
pub open spec fn digits_value(s: Seq<char>) -> int
    decreases s.len(),
{
    if s.len() == 0 {
        0
    } else {
        digits_value(s.drop_last()) * 10 + digit_value(s.last())
    }
}

/// A signed 32-bit decimal literal: an optional `+` or `-`, then one or more
/// digits, with a value inside the range of `i32`.
pub open spec fn parse_i32(s: Seq<char>) -> Option<i32> {
    if s.len() > 0 && s[0] == '-' {
        let d = s.drop_first();
        if all_digits(d) && digits_value(d) <= 0x8000_0000 {
            Some((-digits_value(d)) as i32)
        } else {
            None
        }
    } else {
        let d = if s.len() > 0 && s[0] == '+' {
            s.drop_first()
        } else {
            s
        };
        if all_digits(d) && digits_value(d) <= 0x7fff_ffff {
            Some(digits_value(d) as i32)
        } else {
            None
        }
    }
}

/// The largest magnitude that a literal of the given sign may have.
pub open spec fn limit_of(negative: bool) -> int {
    if negative { 0x8000_0000 } else { 0x7fff_ffff }
}

proof fn lemma_digits_prefix(t: Seq<char>, k: int)
    requires
        forall|i: int| 0 <= i < t.len() ==> is_digit(#[trigger] t[i]),
        0 <= k <= t.len(),
    ensures
        0 <= digits_value(t.subrange(0, k)) <= digits_value(t),
    decreases t.len(),
{
    if t.len() > 0 {
        let p = t.drop_last();
        assert(is_digit(t[t.len() - 1]));
        if k == t.len() {
            assert(t.subrange(0, k) =~= t);
            lemma_digits_prefix(p, p.len() as int);
            assert(p.subrange(0, p.len() as int) =~= p);
        } else {
            lemma_digits_prefix(p, k);
            assert(p.subrange(0, k) =~= t.subrange(0, k));
            lemma_digits_prefix(p, p.len() as int);
            assert(p.subrange(0, p.len() as int) =~= p);
        }
    } else {
        assert(t.subrange(0, k) =~= t);
    }
}

/// The characters of `s`, in order.
pub fn chars_of(s: &str) -> (r: Vec<char>)
    ensures
        r@ == s@,
{
    let n = s.unicode_len();
    let mut r: Vec<char> = Vec::new();
    let mut i: usize = 0;
    while i < n
        invariant
            n == s@.len(),
            i <= n,
            r@ == s@.subrange(0, i as int),
        decreases n - i,
    {
        r.push(s.get_char(i));
        i = i + 1;
        assert(r@ =~= s@.subrange(0, i as int));
    }
    assert(r@ =~= s@);
    r
}

pub fn is_space_char(c: char) -> (r: bool)
    ensures
        r == is_space(c),
{
    c == ' ' || c == '\t' || c == '\n' || c == '\r' || c == '\x0C'
}

/// Splits `chars` on whitespace, giving the span of each token.
pub fn tokenize(chars: &Vec<char>) -> (spans: Vec<(usize, usize)>)
    ensures
        spans_match(chars@, spans@, tokens_of(chars@)),
{
    let ghost s = chars@;
    let mut spans: Vec<(usize, usize)> = Vec::new();
    let mut start: usize = 0;
    let mut i: usize = 0;
    while i < chars.len()
        invariant
            s == chars@,
            start <= i <= chars.len(),
            spans_match(s, spans@, scan(s, i as int).0),
            scan(s, i as int).1 == s.subrange(start as int, i as int),
        decreases chars.len() - i,
    {
        let c = chars[i];
        let ghost prev = scan(s, i as int);
        let ghost old_spans = spans@;
        if is_space_char(c) {
            if start < i {
                spans.push((start, i));
                assert(spans@.last() == (start, i));
            }
            start = i + 1;
            assert(scan(s, (i + 1) as int).1 =~= s.subrange(start as int, (i + 1) as int));
        } else {
            assert(s.subrange(start as int, (i + 1) as int) =~= s.subrange(
                start as int,
                i as int,
            ).push(c));
        }
        i = i + 1;
        assert(spans_match(s, spans@, scan(s, i as int).0)) by {
            let toks = scan(s, i as int).0;
            assert(spans@.len() == toks.len());
            assert forall|k: int| 0 <= k < spans@.len() implies s.subrange(
                spans@[k].0 as int,
                spans@[k].1 as int,
            ) == #[trigger] toks[k] by {
                if k < old_spans.len() {
                    assert(spans@[k] == old_spans[k]);
                    assert(toks[k] == prev.0[k]);
                }
            }
        }
    }
    let ghost done = scan(s, i as int);
    let ghost done_spans = spans@;
    assert(s.len() == i);
    if start < i {
        spans.push((start, i));
        assert(spans@.last() == (start, i));
    }
    assert(spans_match(s, spans@, tokens_of(s))) by {
        let toks = tokens_of(s);
        assert forall|k: int| 0 <= k < spans@.len() implies s.subrange(
            spans@[k].0 as int,
            spans@[k].1 as int,
        ) == #[trigger] toks[k] by {
            if k < done_spans.len() {
                assert(spans@[k] == done_spans[k]);
                assert(toks[k] == done.0[k]);
            }
        }
    }
    spans
}

/// Whether the characters of `chars` between `a` and `b` spell `name`.
pub fn token_is(chars: &Vec<char>, a: usize, b: usize, name: &str) -> (r: bool)
    requires
        a <= b <= chars@.len(),
    ensures
        r == (chars@.subrange(a as int, b as int) == name@),
{
    let n = name.unicode_len();
    if b - a != n {
        assert(chars@.subrange(a as int, b as int).len() != name@.len());
        return false;
    }
    let mut j: usize = 0;
    while j < n
        invariant
            a <= b <= chars@.len(),
            n == name@.len(),
            b - a == n,
            j <= n,
            forall|k: int| 0 <= k < j ==> chars@[a + k] == name@[k],
        decreases n - j,
    {
        if chars[a + j] != name.get_char(j) {
            assert(chars@.subrange(a as int, b as int)[j as int] != name@[j as int]);
            return false;
        }
        j = j + 1;
    }
    assert(chars@.subrange(a as int, b as int) =~= name@);
    true
}

/// Reads the characters of `chars` between `a` and `b` as a signed 32-bit
/// decimal literal.
pub fn parse_i32_at(chars: &Vec<char>, a: usize, b: usize) -> (r: Option<i32>)
    requires
        a <= b <= chars@.len(),
    ensures
        r == parse_i32(chars@.subrange(a as int, b as int)),
{
    let ghost s = chars@.subrange(a as int, b as int);
    let mut negative = false;
    let mut start = a;
    if a < b && chars[a] == '-' {
        negative = true;
        start = a + 1;
    } else if a < b && chars[a] == '+' {
        start = a + 1;
    }
    let ghost d = chars@.subrange(start as int, b as int);
    assert(d =~= if start == a { s } else { s.drop_first() });
    assert(s.len() > 0 ==> s[0] == chars@[a as int]);
    assert(negative <==> (s.len() > 0 && s[0] == '-'));
    assert(start == a <==> !(s.len() > 0 && (s[0] == '-' || s[0] == '+')));
    assert(parse_i32(s) == if all_digits(d) && digits_value(d) <= limit_of(negative) {
        Some((if negative { -digits_value(d) } else { digits_value(d) }) as i32)
    } else {
        None
    });
    if start == b {
        return None;
    }
    let limit: i64 = if negative { 0x8000_0000 } else { 0x7fff_ffff };
    assert(limit == limit_of(negative));
    let mut acc: i64 = 0;
    let mut j: usize = start;
    while j < b
        invariant
            a <= start <= j <= b <= chars@.len(),
            d == chars@.subrange(start as int, b as int),
            limit == limit_of(negative),
            s == chars@.subrange(a as int, b as int),
            parse_i32(s) is None <==> !(all_digits(d) && digits_value(d) <= limit_of(negative)),
            0 <= acc <= limit,
            acc == digits_value(d.subrange(0, j - start)),
            forall|k: int| 0 <= k < j - start ==> is_digit(#[trigger] d[k]),
        decreases b - j,
    {
        let c = chars[j];
        if !('0' <= c && c <= '9') {
            assert(!is_digit(d[j - start]));
            assert(!all_digits(d));
            return None;
        }
        let ghost p = d.subrange(0, j - start);
        let ghost q = d.subrange(0, j + 1 - start);
        assert(q.drop_last() =~= p);
        assert(q.last() == c);
        assert(digits_value(q) == digits_value(p) * 10 + digit_value(c));
        acc = acc * 10 + (c as u32 - '0' as u32) as i64;
        j = j + 1;
        assert(acc == digits_value(q));
        if acc > limit {
            assert forall|k: int| 0 <= k < q.len() implies is_digit(#[trigger] q[k]) by {
                assert(q[k] == d[k]);
            }
            proof {
                if all_digits(d) {
                    lemma_digits_prefix(d, (j - start) as int);
                    assert(digits_value(d) > limit);
                }
            }
            assert(parse_i32(s) is None);
            return None;
        }
    }
    assert(d.subrange(0, j - start) =~= d);
    if negative {
        Some((-acc) as i32)
    } else {
        Some(acc as i32)
    }
}

} // verus!
