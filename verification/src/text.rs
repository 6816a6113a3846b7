//! Small text helpers shared by the parsers and the screen layout: decimal numbers as
//! `usize` parsing and `Display` write them, and comparison of character slices.
use vstd::prelude::*;

verus! {

/// The value of the ASCII digit `c`.
pub open spec fn digit_value(c: char) -> nat {
    (c as nat - '0' as nat) as nat
}

/// `c` is one of the ASCII digits `0`..`9`.
pub open spec fn is_digit(c: char) -> bool {
    '0' <= c && c <= '9'
}

/// The number that the digit string `s` writes in base ten (most significant first).
pub open spec fn digits_value(s: Seq<char>) -> nat
    decreases s.len(),
{
    if s.len() == 0 {
        0
    } else {
        digits_value(s.drop_last()) * 10 + digit_value(s.last())
    }
}

/// `s` without the one leading `+` that `str::parse::<usize>` accepts.
pub open spec fn unsigned_body(s: Seq<char>) -> Seq<char> {
    if s.len() > 0 && s[0] == '+' {
        s.drop_first()
    } else {
        s
    }
}

/// Every character of `s` is a decimal digit.
pub open spec fn all_digits(s: Seq<char>) -> bool {
    forall|i: int| 0 <= i < s.len() ==> is_digit(#[trigger] s[i])
}

/// What `str::parse::<usize>` gives for `s`: an optional `+`, then one or more decimal
/// digits whose value fits in a `usize`.
pub open spec fn usize_parse(s: Seq<char>) -> Option<usize> {
    let d = unsigned_body(s);
    if d.len() > 0 && all_digits(d) && digits_value(d) <= usize::MAX {
        Some(digits_value(d) as usize)
    } else {
        None
    }
}

/// The decimal digits of `n` as ASCII bytes, without leading zeros, as `Display` writes them.
pub open spec fn decimal_bytes(n: nat) -> Seq<u8>
    decreases n,
{
    if n < 10 {
        seq![(n + 48) as u8]
    } else {
        decimal_bytes(n / 10).push(((n % 10) + 48) as u8)
    }
}

proof fn lemma_digits_value_prefix_bound(s: Seq<char>, k: int)
    requires
        0 <= k <= s.len(),
        forall|i: int| 0 <= i < s.len() ==> is_digit(#[trigger] s[i]),
    ensures
        digits_value(s.take(k)) <= digits_value(s),
    decreases s.len() - k,
{
    if k < s.len() {
        lemma_digits_value_prefix_bound(s, k + 1);
        assert(s.take(k + 1).drop_last() =~= s.take(k));
    } else {
        assert(s.take(k) =~= s);
    }
}

/// `a` and `b` hold the same characters.
pub fn chars_equal(a: &[char], b: &[char]) -> (r: bool)
    ensures
        r == (a@ == b@),
{
    if a.len() != b.len() {
        return false;
    }
    let mut i: usize = 0;
    while i < a.len()
        invariant
            i <= a.len(),
            a.len() == b.len(),
            forall|j: int| 0 <= j < i ==> a@[j] == b@[j],
        decreases a.len() - i,
    {
        if a[i] != b[i] {
            return false;
        }
        i += 1;
    }
    assert(a@ =~= b@);
    true
}

/// Parses `s` as `str::parse::<usize>` does; `None` where that returns an error.
pub fn parse_usize(s: &[char]) -> (r: Option<usize>)
    ensures
        r == usize_parse(s@),
{
    let start: usize = if s.len() > 0 && s[0] == '+' {
        1
    } else {
        0
    };
    let ghost d = unsigned_body(s@);
    assert(d =~= s@.skip(start as int));
    if start >= s.len() {
        return None;
    }
    let mut value: usize = 0;
    let mut i: usize = start;
    while i < s.len()
        invariant
            start <= i <= s.len(),
            d =~= s@.skip(start as int),
            d == unsigned_body(s@),
            d.len() > 0,
            forall|j: int| start <= j < i ==> is_digit(#[trigger] s@[j]),
            value == digits_value(d.take(i - start)),
        decreases s.len() - i,
    {
        let c = s[i];
        if !('0' <= c && c <= '9') {
            assert(!is_digit(d[i - start]));
            assert(!all_digits(d));
            assert(usize_parse(s@).is_none());
            return None;
        }
        let digit: usize = (c as u32 - '0' as u32) as usize;
        assert(d.take(i + 1 - start).drop_last() =~= d.take(i - start));
        assert(d.take(i + 1 - start).last() == c);
        if value > (usize::MAX - digit) / 10 {
            proof {
                assert(value * 10 + digit > usize::MAX) by (nonlinear_arith)
                    requires
                        value > (usize::MAX - digit) / 10,
                        digit <= 9,
                ;
                if all_digits(d) {
                    lemma_digits_value_prefix_bound(d, i + 1 - start);
                }
            }
            return None;
        }
        value = value * 10 + digit;
        i += 1;
    }
    assert(d.take(i - start) =~= d);
    Some(value)
}

/// Appends the decimal digits of `n` to `out`.
pub fn push_decimal(out: &mut Vec<u8>, n: usize)
    ensures
        final(out)@ == old(out)@ + decimal_bytes(n as nat),
    decreases n,
{
    if n < 10 {
        out.push((n as u8) + 48);
        assert(decimal_bytes(n as nat) =~= seq![(n + 48) as u8]);
    } else {
        push_decimal(out, n / 10);
        out.push(((n % 10) as u8) + 48);
    }
}

/// `c` has the Unicode White_Space property, which is what `char::is_whitespace` and
/// `str::trim` go by.
pub open spec fn is_whitespace(c: char) -> bool {
    let u = c as u32;
    (9 <= u <= 13) || u == 32 || u == 0x85 || u == 0xa0 || u == 0x1680 || (0x2000 <= u <= 0x200a)
        || u == 0x2028 || u == 0x2029 || u == 0x202f || u == 0x205f || u == 0x3000
}

/// `s` without its leading white space.
pub open spec fn trim_start(s: Seq<char>) -> Seq<char>
    decreases s.len(),
{
    if s.len() > 0 && is_whitespace(s[0]) {
        trim_start(s.drop_first())
    } else {
        s
    }
}

/// `s` without its trailing white space.
pub open spec fn trim_end(s: Seq<char>) -> Seq<char>
    decreases s.len(),
{
    if s.len() > 0 && is_whitespace(s.last()) {
        trim_end(s.drop_last())
    } else {
        s
    }
}

/// `s` without white space at either end, as `str::trim` gives it.
pub open spec fn trim(s: Seq<char>) -> Seq<char> {
    trim_end(trim_start(s))
}

fn whitespace(c: char) -> (r: bool)
    ensures
        r == is_whitespace(c),
{
    let u = c as u32;
    (9 <= u && u <= 13) || u == 32 || u == 0x85 || u == 0xa0 || u == 0x1680 || (0x2000 <= u && u
        <= 0x200a) || u == 0x2028 || u == 0x2029 || u == 0x202f || u == 0x205f || u == 0x3000
}

proof fn lemma_trim_start_skip(s: Seq<char>, i: int)
    requires
        0 <= i <= s.len(),
        forall|j: int| 0 <= j < i ==> is_whitespace(#[trigger] s[j]),
    ensures
        trim_start(s) == trim_start(s.skip(i)),
    decreases i,
{
    if i > 0 {
        assert(s.drop_first().skip(i - 1) =~= s.skip(i));
        lemma_trim_start_skip(s.drop_first(), i - 1);
    } else {
        assert(s.skip(0) =~= s);
    }
}

proof fn lemma_trim_end_take(s: Seq<char>, k: int)
    requires
        0 <= k <= s.len(),
        forall|j: int| k <= j < s.len() ==> is_whitespace(#[trigger] s[j]),
    ensures
        trim_end(s) == trim_end(s.take(k)),
    decreases s.len() - k,
{
    if k < s.len() {
        assert(s.drop_last().take(k) =~= s.take(k));
        lemma_trim_end_take(s.drop_last(), k);
    } else {
        assert(s.take(k) =~= s);
    }
}

/// The number that a line of `tput cols` or `tput lines` gives: the text trimmed of white
/// space and read as `str::parse::<usize>` reads it.
pub fn parse_dimension(text: &[char]) -> (r: Option<usize>)
    ensures
        r == usize_parse(trim(text@)),
{
    let mut a: usize = 0;
    while a < text.len() && whitespace(text[a])
        invariant
            a <= text.len(),
            forall|j: int| 0 <= j < a ==> is_whitespace(#[trigger] text@[j]),
        decreases text.len() - a,
    {
        a += 1;
    }
    proof {
        lemma_trim_start_skip(text@, a as int);
    }
    let rest = vstd::slice::slice_subrange(text, a, text.len());
    assert(rest@ =~= text@.skip(a as int));
    assert(trim_start(rest@) == rest@);
    let mut b: usize = rest.len();
    while b > 0 && whitespace(rest[b - 1])
        invariant
            b <= rest.len(),
            forall|j: int| b <= j < rest@.len() ==> is_whitespace(#[trigger] rest@[j]),
        decreases b,
    {
        b -= 1;
    }
    proof {
        lemma_trim_end_take(rest@, b as int);
    }
    let core = vstd::slice::slice_subrange(rest, 0, b);
    assert(core@ =~= rest@.take(b as int));
    assert(trim_end(core@) == core@);
    parse_usize(core)
}

} // verus!
