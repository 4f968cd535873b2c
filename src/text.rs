use vstd::prelude::*;

verus! {

/// The value of a decimal digit character.
pub open spec fn digit_value(c: char) -> nat {
    (c as u32 - '0' as u32) as nat
}

pub open spec fn is_digit(c: char) -> bool {
    '0' <= c && c <= '9'
}

/// The number written by a sequence of decimal digits (most significant first).
pub open spec fn digits_value(s: Seq<char>) -> nat
    decreases s.len(),
{
    if s.len() == 0 {
        0
    } else {
        digits_value(s.drop_last()) * 10 + digit_value(s.last())
    }
}

/// The character of a digit value below ten.
pub open spec fn digit_char(d: nat) -> char {
    ((d + '0' as u32) as u32) as char
}

/// Decimal text of a natural number, without leading zeros ("0" for zero).
pub open spec fn nat_text(n: nat) -> Seq<char>
    decreases n,
{
    if n < 10 {
        seq![digit_char(n)]
    } else {
        nat_text(n / 10).push(digit_char(n % 10))
    }
}

/// Text of a count of thousandths as a decimal with exactly three fraction digits.
pub open spec fn thousandths_text(n: nat) -> Seq<char> {
    nat_text(n / 1000) + seq!['.', digit_char((n / 100) % 10), digit_char((n / 10) % 10), digit_char(n % 10)]
}

/// Index of the first position at or after `i` that does not hold a digit.
pub open spec fn digit_end(s: Seq<char>, i: int) -> int
    decreases s.len() - i,
{
    if i < 0 || i >= s.len() || !is_digit(s[i]) {
        if i < 0 { 0 } else { i }
    } else {
        digit_end(s, i + 1)
    }
}

pub proof fn lemma_digit_end(s: Seq<char>, i: int)
    requires
        0 <= i <= s.len(),
    ensures
        i <= digit_end(s, i) <= s.len(),
        forall|k: int| i <= k < digit_end(s, i) ==> is_digit(#[trigger] s[k]),
        digit_end(s, i) < s.len() ==> !is_digit(s[digit_end(s, i)]),
    decreases s.len() - i,
{
    if i < s.len() && is_digit(s[i]) {
        lemma_digit_end(s, i + 1);
    }
}

proof fn lemma_digits_value_prefix(s: Seq<char>, k: int)
    requires
        0 <= k <= s.len(),
    ensures
        digits_value(s.subrange(0, k)) <= digits_value(s),
    decreases s.len() - k,
{
    if k < s.len() {
        lemma_digits_value_prefix(s, k + 1);
        let t = s.subrange(0, k + 1);
        assert(t.drop_last() =~= s.subrange(0, k));
    } else {
        assert(s.subrange(0, k) =~= s);
    }
}

/// The characters of a string, one by one.
pub fn chars_of(s: &str) -> (r: Vec<char>)
    ensures
        r@ == s@,
{
    let n = s.unicode_len();
    let mut r: Vec<char> = Vec::new();
    let mut i: usize = 0;
    while i < n
        invariant
            n == s@.len(),
            i <= n,
            r@ == s@.subrange(0, i as int),
        decreases n - i,
    {
        r.push(s.get_char(i));
        i = i + 1;
        assert(r@ =~= s@.subrange(0, i as int));
    }
    assert(r@ =~= s@);
    r
}

/// Reads the digits `s[from..to]` as a number; `None` when it exceeds `limit`.
pub fn parse_digits(s: &Vec<char>, from: usize, to: usize, limit: u64) -> (r: Option<u64>)
    requires
        from <= to <= s@.len(),
        forall|k: int| from <= k < to ==> is_digit(#[trigger] s@[k]),
    ensures
        match r {
            Some(v) => v as nat == digits_value(s@.subrange(from as int, to as int)) && v <= limit,
            None => digits_value(s@.subrange(from as int, to as int)) > limit,
        },
{
    let ghost w = s@.subrange(from as int, to as int);
    let mut acc: u64 = 0;
    let mut i: usize = from;
    while i < to
        invariant
            from <= i <= to <= s@.len(),
            w == s@.subrange(from as int, to as int),
            forall|k: int| from <= k < to ==> is_digit(#[trigger] s@[k]),
            acc as nat == digits_value(s@.subrange(from as int, i as int)),
            acc <= limit,
        decreases to - i,
    {
        let c = s[i];
        assert(is_digit(s@[i as int]));
        let d = (c as u32 - '0' as u32) as u64;
        let ghost next = s@.subrange(from as int, i + 1);
        assert(next.drop_last() =~= s@.subrange(from as int, i as int));
        assert(next.last() == c);
        assert(next =~= w.subrange(0, i + 1 - from));
        if d > limit || acc > (limit - d) / 10 {
            assert(digits_value(next) > limit) by (nonlinear_arith)
                requires
                    digits_value(next) == acc * 10 + d,
                    d > limit || acc > (limit - d) / 10,
            {
            }
            proof {
                lemma_digits_value_prefix(w, i + 1 - from);
            }
            return None;
        }
        assert(acc * 10 + d <= limit) by (nonlinear_arith)
            requires
                acc <= (limit - d) / 10,
                d <= limit,
        {
        }
        acc = acc * 10 + d;
        i = i + 1;
    }
    Some(acc)
}

/// The digits of a number token `[0-9]+[.]?[0-9]*` that starts at `i`, as
/// `(int_start, int_end, frac_start, frac_end)`; the token ends at `frac_end`.
pub open spec fn number_span(s: Seq<char>, i: int) -> (int, int, int, int) {
    let e = digit_end(s, i);
    if e < s.len() && s[e] == '.' {
        (i, e, e + 1, digit_end(s, e + 1))
    } else {
        (i, e, e, e)
    }
}

pub proof fn lemma_number_span(s: Seq<char>, i: int)
    requires
        0 <= i <= s.len(),
    ensures
        ({
            let (a, b, c, d) = number_span(s, i);
            &&& a == i <= b <= c <= d <= s.len()
            &&& forall|k: int| a <= k < b ==> is_digit(#[trigger] s[k])
            &&& forall|k: int| c <= k < d ==> is_digit(#[trigger] s[k])
        }),
{
    lemma_digit_end(s, i);
    let e = digit_end(s, i);
    if e < s.len() && s[e] == '.' {
        lemma_digit_end(s, e + 1);
    }
}

/// Finds the number token that starts at `i`.
pub fn read_number(s: &Vec<char>, i: usize) -> (r: (usize, usize, usize, usize))
    requires
        i <= s@.len(),
    ensures
        (r.0 as int, r.1 as int, r.2 as int, r.3 as int) == number_span(s@, i as int),
{
    proof {
        lemma_digit_end(s@, i as int);
    }
    let e = skip_digits(s, i);
    if e < s.len() && s[e] == '.' {
        proof {
            lemma_digit_end(s@, e + 1);
        }
        let f = skip_digits(s, e + 1);
        (i, e, e + 1, f)
    } else {
        (i, e, e, e)
    }
}

/// The first position at or after `i` that does not hold a digit.
pub fn skip_digits(s: &Vec<char>, i: usize) -> (r: usize)
    requires
        i <= s@.len(),
    ensures
        r as int == digit_end(s@, i as int),
{
    let mut j: usize = i;
    while j < s.len() && '0' <= s[j] && s[j] <= '9'
        invariant
            i <= j <= s@.len(),
            digit_end(s@, j as int) == digit_end(s@, i as int),
        decreases s@.len() - j,
    {
        j = j + 1;
    }
    j
}

} // verus!
