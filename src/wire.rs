use vstd::prelude::*;

verus! {

/// The byte that separates the tokens of a protocol line.
pub const SPACE: u8 = 32;

/// A protocol line read as tokens: the bytes between consecutive spaces.
/// Like `str::split(' ')`, it yields one token more than there are spaces,
/// so the empty line is one empty token and adjacent spaces give an empty token.
pub open spec fn split_spaces(s: Seq<u8>) -> Seq<Seq<u8>>
    decreases s.len(),
{
    if s.len() == 0 {
        seq![Seq::empty()]
    } else {
        let p = split_spaces(s.drop_last());
        if s.last() == SPACE {
            p.push(Seq::empty())
        } else {
            p.update(p.len() - 1, p.last().push(s.last()))
        }
    }
}

/// Tokens joined by single spaces: the inverse of `split_spaces` on tokens without spaces.
pub open spec fn join_spaces(t: Seq<Seq<u8>>) -> Seq<u8>
    decreases t.len(),
{
    if t.len() == 0 {
        Seq::empty()
    } else if t.len() == 1 {
        t[0]
    } else {
        join_spaces(t.drop_last()) + seq![SPACE] + t.last()
    }
}

pub open spec fn has_no_space(s: Seq<u8>) -> bool {
    forall|i: int| 0 <= i < s.len() ==> s[i] != SPACE
}

/// Each span is a `(start, end)` pair of byte positions in `s`, and the spans are
/// the tokens of `s` in order.
pub open spec fn spans_of(s: Seq<u8>, spans: Seq<(usize, usize)>) -> bool {
    &&& spans.len() == split_spaces(s).len()
    &&& forall|k: int|
        #![trigger spans[k]]
        0 <= k < spans.len() ==> {
            &&& spans[k].0 <= spans[k].1 <= s.len()
            &&& s.subrange(spans[k].0 as int, spans[k].1 as int) == split_spaces(s)[k]
        }
}

/// The token that a span designates.
pub open spec fn span_token(s: Seq<u8>, span: (usize, usize)) -> Seq<u8> {
    s.subrange(span.0 as int, span.1 as int)
}

pub proof fn lemma_split_nonempty(s: Seq<u8>)
    ensures
        split_spaces(s).len() >= 1,
    decreases s.len(),
{
    if s.len() > 0 {
        lemma_split_nonempty(s.drop_last());
    }
}

/// Splits `buf` into the spans of its space-separated tokens.
pub fn split_tokens(buf: &[u8]) -> (spans: Vec<(usize, usize)>)
    ensures
        spans_of(buf@, spans@),
{
    let mut spans: Vec<(usize, usize)> = Vec::new();
    let mut start: usize = 0;
    let mut i: usize = 0;
    proof {
        assert(buf@.subrange(0, 0) =~= Seq::<u8>::empty());
    }
    while i < buf.len()
        invariant
            start <= i <= buf.len(),
            spans.len() + 1 == split_spaces(buf@.subrange(0, i as int)).len(),
            buf@.subrange(start as int, i as int) == split_spaces(
                buf@.subrange(0, i as int),
            ).last(),
            forall|k: int|
                #![trigger spans@[k]]
                0 <= k < spans.len() ==> {
                    &&& spans@[k].0 <= spans@[k].1 <= i
                    &&& buf@.subrange(spans@[k].0 as int, spans@[k].1 as int) == split_spaces(
                        buf@.subrange(0, i as int),
                    )[k]
                },
        decreases buf.len() - i,
    {
        let ghost pre = buf@.subrange(0, i as int);
        let ghost next = buf@.subrange(0, i + 1);
        proof {
            assert(next.drop_last() =~= pre);
            assert(next.last() == buf@[i as int]);
            lemma_split_nonempty(pre);
        }
        if buf[i] == SPACE {
            spans.push((start, i));
            start = i + 1;
            proof {
                assert(buf@.subrange(start as int, i + 1) =~= Seq::<u8>::empty());
            }
        } else {
            proof {
                assert(buf@.subrange(start as int, i + 1) =~= buf@.subrange(
                    start as int,
                    i as int,
                ).push(buf@[i as int]));
            }
        }
        i = i + 1;
    }
    spans.push((start, buf.len()));
    proof {
        assert(buf@.subrange(0, buf.len() as int) =~= buf@);
        lemma_split_nonempty(buf@);
        assert forall|k: int| #![trigger spans@[k]] 0 <= k < spans.len() implies {
            &&& spans@[k].0 <= spans@[k].1 <= buf.len()
            &&& buf@.subrange(spans@[k].0 as int, spans@[k].1 as int) == split_spaces(buf@)[k]
        } by {}
    }
    spans
}

/// A copy of the token at `span`.
pub fn token_bytes(buf: &[u8], span: (usize, usize)) -> (r: Vec<u8>)
    requires
        span.0 <= span.1 <= buf@.len(),
    ensures
        r@ == span_token(buf@, span),
{
    let mut out: Vec<u8> = Vec::new();
    let mut i: usize = span.0;
    while i < span.1
        invariant
            span.0 <= i <= span.1 <= buf@.len(),
            out@ == buf@.subrange(span.0 as int, i as int),
        decreases span.1 - i,
    {
        out.push(buf[i]);
        i = i + 1;
        proof {
            assert(out@ =~= buf@.subrange(span.0 as int, i as int));
        }
    }
    out
}

// ---------------------------------------------------------------------------
// Decimal numerals
// ---------------------------------------------------------------------------

pub open spec fn is_digit(b: u8) -> bool {
    48 <= b <= 57
}

/// A non-empty run of ASCII digits.
pub open spec fn is_numeral(s: Seq<u8>) -> bool {
    s.len() > 0 && forall|i: int| 0 <= i < s.len() ==> is_digit(#[trigger] s[i])
}

/// The value of a run of ASCII digits, most significant first.
pub open spec fn digits_value(s: Seq<u8>) -> nat
    decreases s.len(),
{
    if s.len() == 0 {
        0
    } else {
        digits_value(s.drop_last()) * 10 + (s.last() - 48) as nat
    }
}

/// The natural number a token writes in decimal, if it is a numeral.
pub open spec fn token_nat(s: Seq<u8>) -> Option<nat> {
    if is_numeral(s) {
        Some(digits_value(s))
    } else {
        None
    }
}

/// The integer a token writes in decimal: a numeral, or a minus sign and a numeral.
pub open spec fn token_int(s: Seq<u8>) -> Option<int> {
    if is_numeral(s) {
        Some(digits_value(s) as int)
    } else if s.len() > 0 && s[0] == 45 && is_numeral(s.drop_first()) {
        Some(-(digits_value(s.drop_first()) as int))
    } else {
        None
    }
}

/// The unsigned value of a token, if it is a numeral not above `hi`.
pub open spec fn nat_upto(s: Seq<u8>, hi: int) -> Option<nat> {
    match token_nat(s) {
        Some(v) => if v <= hi {
            Some(v)
        } else {
            None
        },
        None => None,
    }
}

/// The signed value of a token, if it lies in `lo ..= hi`.
pub open spec fn int_within(s: Seq<u8>, lo: int, hi: int) -> Option<int> {
    match token_int(s) {
        Some(v) => if lo <= v && v <= hi {
            Some(v)
        } else {
            None
        },
        None => None,
    }
}

/// Decimal rendering of a natural number, without leading zeros.
pub open spec fn decimal(n: nat) -> Seq<u8>
    decreases n,
{
    if n < 10 {
        seq![(48 + n) as u8]
    } else {
        decimal(n / 10).push((48 + n % 10) as u8)
    }
}

/// Decimal rendering of an integer, with a minus sign when negative.
pub open spec fn signed_decimal(i: int) -> Seq<u8> {
    if i < 0 {
        seq![45u8] + decimal((-i) as nat)
    } else {
        decimal(i as nat)
    }
}

proof fn lemma_digits_prefix_bound(s: Seq<u8>, k: int)
    requires
        0 <= k <= s.len(),
    ensures
        digits_value(s.subrange(0, k)) <= digits_value(s),
    decreases s.len() - k,
{
    if k < s.len() {
        lemma_digits_prefix_bound(s, k + 1);
        assert(s.subrange(0, k + 1).drop_last() =~= s.subrange(0, k));
    } else {
        assert(s.subrange(0, k) =~= s);
    }
}

/// Reads the digits of `buf[start..end]` as a number not above `limit`.
fn parse_digits(buf: &[u8], start: usize, end: usize, limit: u64) -> (r: Option<u64>)
    requires
        start <= end <= buf@.len(),
    ensures
        r == (match nat_upto(buf@.subrange(start as int, end as int), limit as int) {
            Some(v) => Some(v as u64),
            None => None,
        }),
{
    let ghost s = buf@.subrange(start as int, end as int);
    if start == end {
        return None;
    }
    let mut acc: u64 = 0;
    let mut i: usize = start;
    proof {
        assert(s.subrange(0, 0) =~= Seq::<u8>::empty());
    }
    while i < end
        invariant
            start <= i <= end <= buf@.len(),
            s == buf@.subrange(start as int, end as int),
            acc as nat == digits_value(s.subrange(0, i - start)),
            acc <= limit,
            forall|j: int| 0 <= j < i - start ==> is_digit(#[trigger] s[j]),
        decreases end - i,
    {
        let b = buf[i];
        let ghost k = i - start;
        proof {
            assert(s.subrange(0, k + 1).drop_last() =~= s.subrange(0, k));
            assert(s[k] == b);
        }
        if b < 48 || b > 57 {
            return None;
        }
        let d: u64 = (b - 48) as u64;
        if d > limit || acc > (limit - d) / 10 {
            proof {
                assert(acc * 10 + d > limit) by (nonlinear_arith)
                    requires
                        d > limit || acc > (limit - d) / 10,
                        acc >= 0,
                ;
                lemma_digits_prefix_bound(s, k + 1);
            }
            return None;
        }
        proof {
            assert(acc * 10 + d <= limit) by (nonlinear_arith)
                requires
                    acc <= (limit - d) / 10,
                    d <= limit,
            ;
        }
        acc = acc * 10 + d;
        i = i + 1;
    }
    proof {
        assert(s.subrange(0, end - start) =~= s);
    }
    Some(acc)
}

/// Parses the token at `span` as an unsigned decimal not above `limit`.
pub fn parse_unsigned(buf: &[u8], span: (usize, usize), limit: u64) -> (r: Option<u64>)
    requires
        span.0 <= span.1 <= buf@.len(),
    ensures
        r == (match nat_upto(span_token(buf@, span), limit as int) {
            Some(v) => Some(v as u64),
            None => None,
        }),
{
    parse_digits(buf, span.0, span.1, limit)
}

/// Parses the token at `span` as a signed decimal in `-lo_mag ..= hi`.
pub fn parse_signed(buf: &[u8], span: (usize, usize), lo_mag: u64, hi: u64) -> (r: Option<i64>)
    requires
        span.0 <= span.1 <= buf@.len(),
        lo_mag <= 0x8000_0000_0000_0000,
        hi <= 0x7fff_ffff_ffff_ffff,
    ensures
        r == (match int_within(span_token(buf@, span), -(lo_mag as int), hi as int) {
            Some(v) => Some(v as i64),
            None => None,
        }),
{
    let ghost s = span_token(buf@, span);
    if span.0 < span.1 && buf[span.0] == 45 {
        let ghost rest = buf@.subrange(span.0 + 1, span.1 as int);
        proof {
            assert(s.drop_first() =~= rest);
            assert(!is_numeral(s)) by {
                assert(!is_digit(s[0]));
            }
        }
        match parse_digits(buf, span.0 + 1, span.1, lo_mag) {
            Some(m) => {
                if m == 0x8000_0000_0000_0000 {
                    Some(i64::MIN)
                } else {
                    Some(-(m as i64))
                }
            },
            None => None,
        }
    } else {
        proof {
            if s.len() > 0 {
                assert(s[0] != 45);
            }
        }
        match parse_digits(buf, span.0, span.1, hi) {
            Some(m) => Some(m as i64),
            None => None,
        }
    }
}

/// Appends the decimal rendering of `n`.
pub fn push_decimal(out: &mut Vec<u8>, n: u64)
    ensures
        final(out)@ == old(out)@ + decimal(n as nat),
    decreases n,
{
    if n >= 10 {
        push_decimal(out, n / 10);
    }
    let d: u8 = (n % 10) as u8;
    out.push(48 + d);
    proof {
        if n >= 10 {
            assert(final(out)@ =~= old(out)@ + decimal(n as nat));
        } else {
            assert(final(out)@ =~= old(out)@ + decimal(n as nat));
        }
    }
}

/// Appends the decimal rendering of `v`, with a minus sign when negative.
pub fn push_signed(out: &mut Vec<u8>, v: i64)
    ensures
        final(out)@ == old(out)@ + signed_decimal(v as int),
{
    if v < 0 {
        out.push(45);
        let m: u64 = if v == i64::MIN {
            0x8000_0000_0000_0000
        } else {
            (-v) as u64
        };
        push_decimal(out, m);
        proof {
            assert(final(out)@ =~= old(out)@ + signed_decimal(v as int));
        }
    } else {
        push_decimal(out, v as u64);
    }
}

/// Appends the bytes of `s`.
pub fn push_bytes(out: &mut Vec<u8>, s: &[u8])
    ensures
        final(out)@ == old(out)@ + s@,
{
    let mut i: usize = 0;
    while i < s.len()
        invariant
            i <= s.len(),
            out@ == old(out)@ + s@.subrange(0, i as int),
        decreases s.len() - i,
    {
        out.push(s[i]);
        i = i + 1;
        proof {
            assert(out@ =~= old(out)@ + s@.subrange(0, i as int));
        }
    }
    proof {
        assert(s@.subrange(0, s@.len() as int) =~= s@);
    }
}

// ---------------------------------------------------------------------------
// Lemmas
// ---------------------------------------------------------------------------

/// A line without spaces is a single token.
pub proof fn lemma_split_no_space(b: Seq<u8>)
    requires
        has_no_space(b),
    ensures
        split_spaces(b) == seq![b],
    decreases b.len(),
{
    if b.len() > 0 {
        let p = b.drop_last();
        assert(has_no_space(p));
        lemma_split_no_space(p);
        assert(p.push(b.last()) =~= b);
        assert(seq![p].update(0, p.push(b.last())) =~= seq![b]);
    } else {
        assert(b =~= Seq::<u8>::empty());
    }
}

/// Appending a space and a token without spaces appends that token.
pub proof fn lemma_split_append(a: Seq<u8>, b: Seq<u8>)
    requires
        has_no_space(b),
    ensures
        split_spaces(a + seq![SPACE] + b) == split_spaces(a).push(b),
    decreases b.len(),
{
    let c = a + seq![SPACE] + b;
    if b.len() == 0 {
        assert(c =~= a.push(SPACE));
        assert(c.drop_last() =~= a);
        assert(b =~= Seq::<u8>::empty());
    } else {
        let d = b.drop_last();
        assert(has_no_space(d));
        lemma_split_append(a, d);
        assert(c.drop_last() =~= a + seq![SPACE] + d);
        assert(c.last() == b.last());
        let p = split_spaces(a).push(d);
        assert(p.update(p.len() - 1, p.last().push(b.last())) =~= split_spaces(a).push(b)) by {
            assert(d.push(b.last()) =~= b);
        }
    }
}

/// Splitting tokens joined by spaces gives the tokens back, when none holds a space.
pub proof fn lemma_split_join(t: Seq<Seq<u8>>)
    requires
        t.len() >= 1,
        forall|i: int| 0 <= i < t.len() ==> has_no_space(#[trigger] t[i]),
    ensures
        split_spaces(join_spaces(t)) == t,
    decreases t.len(),
{
    if t.len() == 1 {
        lemma_split_no_space(t[0]);
        assert(seq![t[0]] =~= t);
    } else {
        let p = t.drop_last();
        assert forall|i: int| 0 <= i < p.len() implies has_no_space(#[trigger] p[i]) by {
            assert(p[i] == t[i]);
        }
        lemma_split_join(p);
        lemma_split_append(join_spaces(p), t.last());
        assert(p.push(t.last()) =~= t);
    }
}

/// The rendering of `n` is a numeral whose value is `n`.
pub proof fn lemma_decimal(n: nat)
    ensures
        is_numeral(decimal(n)),
        digits_value(decimal(n)) == n,
    decreases n,
{
    if n >= 10 {
        lemma_decimal(n / 10);
        let d = decimal(n);
        assert(d.drop_last() =~= decimal(n / 10));
        assert(d.last() == (48 + n % 10) as u8);
        assert(digits_value(d) == digits_value(d.drop_last()) * 10 + (d.last() - 48) as nat);
        assert(digits_value(d.drop_last()) == n / 10);
        assert((d.last() - 48) as nat == n % 10);
        assert((n / 10) * 10 + n % 10 == n);
        assert forall|i: int| 0 <= i < d.len() implies is_digit(#[trigger] d[i]) by {
            if i < d.len() - 1 {
                assert(d[i] == decimal(n / 10)[i]);
            }
        }
    } else {
        let d = decimal(n);
        assert(d.drop_last() =~= Seq::<u8>::empty());
        assert(d.last() == (48 + n) as u8);
        assert(digits_value(d) == digits_value(d.drop_last()) * 10 + (d.last() - 48) as nat);
        assert(digits_value(d.drop_last()) == 0);
    }
}

/// The rendering of `v` has no space and reads back as `v`; when `v` is not
/// negative it reads back as `v` also as an unsigned numeral.
pub broadcast proof fn lemma_signed_decimal(v: int)
    ensures
        #![trigger signed_decimal(v)]
        has_no_space(signed_decimal(v)),
        token_int(signed_decimal(v)) == Some(v),
        v >= 0 ==> token_nat(signed_decimal(v)) == Some(v as nat),
{
    if v < 0 {
        let m = (-v) as nat;
        lemma_decimal(m);
        let s = signed_decimal(v);
        assert(s.drop_first() =~= decimal(m));
        assert(!is_digit(s[0]));
        assert forall|i: int| 0 <= i < s.len() implies s[i] != SPACE by {
            if i > 0 {
                assert(s[i] == decimal(m)[i - 1]);
                assert(is_digit(decimal(m)[i - 1]));
            }
        }
    } else {
        lemma_decimal(v as nat);
        let s = signed_decimal(v);
        assert forall|i: int| 0 <= i < s.len() implies s[i] != SPACE by {
            assert(is_digit(s[i]));
        }
    }
}

/// A line of a tag followed by numbers, each in decimal.
pub open spec fn numbers_line(tag: Seq<u8>, vals: Seq<int>) -> Seq<u8> {
    join_spaces(seq![tag] + vals.map_values(|v: int| signed_decimal(v)))
}

/// The tokens of a line of numbers are the tag and the numbers' renderings.
pub proof fn lemma_numbers_line(tag: Seq<u8>, vals: Seq<int>)
    requires
        has_no_space(tag),
    ensures
        split_spaces(numbers_line(tag, vals)) == seq![tag] + vals.map_values(
            |v: int| signed_decimal(v),
        ),
{
    let t = seq![tag] + vals.map_values(|v: int| signed_decimal(v));
    assert forall|i: int| 0 <= i < t.len() implies has_no_space(#[trigger] t[i]) by {
        if i > 0 {
            assert(t[i] == signed_decimal(vals[i - 1]));
            lemma_signed_decimal(vals[i - 1]);
        }
    }
    lemma_split_join(t);
}

/// The first token of a line that starts with `a` and a space is `a`.
pub proof fn lemma_split_first(a: Seq<u8>, rest: Seq<u8>)
    requires
        has_no_space(a),
    ensures
        split_spaces(a + seq![SPACE] + rest).len() >= 2,
        split_spaces(a + seq![SPACE] + rest)[0] == a,
    decreases rest.len(),
{
    let c = a + seq![SPACE] + rest;
    if rest.len() == 0 {
        lemma_split_no_space(a);
        assert(c.drop_last() =~= a);
    } else {
        lemma_split_first(a, rest.drop_last());
        assert(c.drop_last() =~= a + seq![SPACE] + rest.drop_last());
    }
}

} // verus!
