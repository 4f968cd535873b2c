use vstd::prelude::*;

use crate::text::{
    chars_of, digits_value, is_digit, lemma_number_span, number_span, parse_digits, read_number,
};

verus! {

/// Largest count of ten-thousandths that a height may hold, so that rounding
/// to thousandths cannot overflow.
pub const MAX_SCALED: u64 = 18446744073709551610;

/// A height in millimetres, truncated to whole ten-thousandths of a millimetre.
#[derive(Clone, Copy, Debug, PartialEq, Eq, Structural)]
pub struct Height {
    pub ten_thousandths: u64,
}

/// Rounds a count of ten-thousandths to the nearest thousandth, halves upward.
pub open spec fn comparable_of(t: int) -> int {
    (t + 5) / 10
}

/// The first four fraction digits, padded with zeros.
pub open spec fn frac4(f: Seq<char>) -> Seq<char> {
    Seq::new(4, |k: int| if k < f.len() { f[k] } else { '0' })
}

/// A decimal with integer digits `i` and fraction digits `f`, times ten
/// thousand and truncated.
pub open spec fn scaled_value(i: Seq<char>, f: Seq<char>) -> nat {
    digits_value(i) * 10000 + digits_value(frac4(f))
}

/// The scaled value of the number token that starts at `i` of `s`.
pub open spec fn token_scaled(s: Seq<char>, i: int) -> nat {
    let (a, b, c, d) = number_span(s, i);
    scaled_value(s.subrange(a, b), s.subrange(c, d))
}

/// Whether a digit other than zero stands in `s[a..b]`.
pub open spec fn has_nonzero(s: Seq<char>, a: int, b: int) -> bool {
    exists|k: int| a <= k < b && s[k] != '0'
}

/// Whether the number token at `i` is greater than zero.
pub open spec fn token_positive(s: Seq<char>, i: int) -> bool {
    let (a, b, c, d) = number_span(s, i);
    has_nonzero(s, a, b) || has_nonzero(s, c, d)
}

impl Height {
    pub open spec fn wf(&self) -> bool {
        self.ten_thousandths <= MAX_SCALED
    }

    pub open spec fn comparable_spec(&self) -> int {
        comparable_of(self.ten_thousandths as int)
    }

    /// The height rounded to whole thousandths of a millimetre, which is
    /// what two heights are compared by.
    pub fn comparable(&self) -> (r: u64)
        requires
            self.wf(),
        ensures
            r as int == self.comparable_spec(),
    {
        (self.ten_thousandths + 5) / 10
    }

    /// The height at which printing resumes, half a millimetre higher, in
    /// thousandths.
    pub fn resume_thousandths(&self) -> (r: u64)
        requires
            self.wf(),
        ensures
            r as int == self.comparable_spec() + 500,
    {
        self.comparable() + 500
    }
}

/// Scales the number token at `i` to ten-thousandths; `None` when it exceeds
/// `MAX_SCALED`.
pub fn scale_token(s: &Vec<char>, i: usize) -> (r: Option<u64>)
    requires
        i <= s@.len(),
    ensures
        match r {
            Some(v) => v as nat == token_scaled(s@, i as int) && v <= MAX_SCALED,
            None => token_scaled(s@, i as int) > MAX_SCALED,
        },
{
    proof {
        lemma_number_span(s@, i as int);
    }
    let (a, b, c, d) = read_number(s, i);
    let ghost f = s@.subrange(c as int, d as int);
    let ghost f4 = frac4(f);
    let iv = match parse_digits(s, a, b, u64::MAX) {
        Some(v) => v,
        None => {
            return None;
        },
    };
    let mut fv: u64 = 0;
    let mut k: usize = 0;
    while k < 4
        invariant
            k <= 4,
            a <= b <= c <= d <= s@.len(),
            f == s@.subrange(c as int, d as int),
            f4 == frac4(f),
            forall|j: int| c <= j < d ==> is_digit(#[trigger] s@[j]),
            fv as nat == digits_value(f4.subrange(0, k as int)),
            fv < 10000,
            k == 0 ==> fv == 0,
            k == 1 ==> fv < 10,
            k == 2 ==> fv < 100,
            k == 3 ==> fv < 1000,
        decreases 4 - k,
    {
        let dg: u64 = if k < d - c {
            assert(is_digit(s@[c + k]));
            (s[c + k] as u32 - '0' as u32) as u64
        } else {
            0
        };
        let ghost next = f4.subrange(0, k + 1);
        assert(next.drop_last() =~= f4.subrange(0, k as int));
        assert(next.last() == f4[k as int]);
        assert(fv * 10 + dg < 10000 && (k == 0 ==> fv * 10 + dg < 10) && (k == 1 ==> fv * 10 + dg
            < 100) && (k == 2 ==> fv * 10 + dg < 1000)) by (nonlinear_arith)
            requires
                fv < 10000,
                dg <= 9,
                k < 4,
                k == 0 ==> fv == 0,
                k == 1 ==> fv < 10,
                k == 2 ==> fv < 100,
                k == 3 ==> fv < 1000,
        {
        }
        fv = fv * 10 + dg;
        k = k + 1;
    }
    assert(f4.subrange(0, 4) =~= f4);
    if iv > (MAX_SCALED - fv) / 10000 {
        assert(iv * 10000 + fv > MAX_SCALED) by (nonlinear_arith)
            requires
                iv > (MAX_SCALED - fv) / 10000,
                fv < 10000,
        {
        }
        return None;
    }
    assert(iv * 10000 + fv <= MAX_SCALED) by (nonlinear_arith)
        requires
            iv <= (MAX_SCALED - fv) / 10000,
            fv < 10000,
    {
    }
    Some(iv * 10000 + fv)
}

/// Why a pause height was refused.
#[derive(Clone, Copy, Debug, PartialEq, Eq, Structural)]
pub enum HeightError {
    /// No number was given, or it is not greater than zero.
    NotPositive,
    /// The number is too large to be held.
    TooLarge,
}

impl HeightError {
    pub fn message(&self) -> (r: String)
        ensures
            *self == HeightError::NotPositive ==> r@
                == "Pause Height must be a positive number greater than zero."@,
            *self == HeightError::TooLarge ==> r@ == "Pause Height is too large."@,
    {
        match self {
            HeightError::NotPositive => String::from_str(
                "Pause Height must be a positive number greater than zero.",
            ),
            HeightError::TooLarge => String::from_str("Pause Height is too large."),
        }
    }
}

/// Whether a number `-?[0-9]+[.]?[0-9]*` starts at `i`.
pub open spec fn starts_number(s: Seq<char>, i: int) -> bool {
    ||| (0 <= i < s.len() && is_digit(s[i]))
    ||| (0 <= i && i + 1 < s.len() && s[i] == '-' && is_digit(s[i + 1]))
}

/// The first position at or after `i` where a number starts, or the length.
pub open spec fn first_number(s: Seq<char>, i: int) -> int
    decreases s.len() - i,
{
    if i < 0 || i >= s.len() {
        s.len() as int
    } else if starts_number(s, i) {
        i
    } else {
        first_number(s, i + 1)
    }
}

/// The height that the first number found in `s` gives, or why it gives none.
pub open spec fn pause_height_of(s: Seq<char>) -> Result<Height, HeightError> {
    let j = first_number(s, 0);
    if j >= s.len() {
        Err(HeightError::NotPositive)
    } else {
        let negative = s[j] == '-';
        let ds = if negative { j + 1 } else { j };
        if negative || !token_positive(s, ds) {
            Err(HeightError::NotPositive)
        } else if token_scaled(s, ds) > MAX_SCALED {
            Err(HeightError::TooLarge)
        } else {
            Ok(Height { ten_thousandths: token_scaled(s, ds) as u64 })
        }
    }
}

proof fn lemma_first_number(s: Seq<char>, i: int)
    requires
        0 <= i <= s.len(),
    ensures
        i <= first_number(s, i) <= s.len(),
        first_number(s, i) < s.len() ==> starts_number(s, first_number(s, i)),
    decreases s.len() - i,
{
    if i < s.len() && !starts_number(s, i) {
        lemma_first_number(s, i + 1);
    }
}

fn any_nonzero(s: &Vec<char>, a: usize, b: usize) -> (r: bool)
    requires
        a <= b <= s@.len(),
    ensures
        r == has_nonzero(s@, a as int, b as int),
{
    let mut k: usize = a;
    while k < b
        invariant
            a <= k <= b <= s@.len(),
            forall|j: int| a <= j < k ==> s@[j] == '0',
        decreases b - k,
    {
        if s[k] != '0' {
            return true;
        }
        k = k + 1;
    }
    false
}

/// Reads the pause height from text: the first number in it, which must be
/// greater than zero.
pub fn parse_pause_height(text: &str) -> (r: Result<Height, HeightError>)
    ensures
        r == pause_height_of(text@),
        r matches Ok(h) ==> h.wf() && h.ten_thousandths as int == token_scaled(
            text@,
            first_number(text@, 0),
        ),
{
    let s = chars_of(text);
    let mut j: usize = 0;
    while j < s.len() && !((s[j] >= '0' && s[j] <= '9') || (j + 1 < s.len() && s[j] == '-' && s[j
        + 1] >= '0' && s[j + 1] <= '9'))
        invariant
            j <= s@.len(),
            first_number(s@, j as int) == first_number(s@, 0),
        decreases s@.len() - j,
    {
        j = j + 1;
    }
    proof {
        lemma_first_number(s@, j as int);
    }
    if j >= s.len() {
        return Err(HeightError::NotPositive);
    }
    let negative = s[j] == '-';
    let ds = if negative { j + 1 } else { j };
    proof {
        lemma_number_span(s@, ds as int);
    }
    let (a, b, c, d) = read_number(&s, ds);
    if negative || !(any_nonzero(&s, a, b) || any_nonzero(&s, c, d)) {
        return Err(HeightError::NotPositive);
    }
    match scale_token(&s, ds) {
        Some(v) => Ok(Height { ten_thousandths: v }),
        None => Err(HeightError::TooLarge),
    }
}

/// Heights less than a ten-thousandth apart truncate to counts that differ by
/// at most one; such heights compare equal unless the lower count is the last
/// one below a rounding boundary (a count ending in the digit 4).
pub proof fn lemma_close_heights_agree(a: Height, b: Height)
    requires
        a.wf(),
        b.wf(),
        a.ten_thousandths <= b.ten_thousandths + 1,
        b.ten_thousandths <= a.ten_thousandths + 1,
        a.ten_thousandths < b.ten_thousandths ==> a.ten_thousandths % 10 != 4,
        b.ten_thousandths < a.ten_thousandths ==> b.ten_thousandths % 10 != 4,
    ensures
        a.comparable_spec() == b.comparable_spec(),
{
}

/// Heights at least a thousandth of a millimetre apart never compare equal.
pub proof fn lemma_distant_heights_differ(a: Height, b: Height)
    requires
        a.wf(),
        b.wf(),
        a.ten_thousandths + 10 <= b.ten_thousandths || b.ten_thousandths + 10
            <= a.ten_thousandths,
    ensures
        a.comparable_spec() != b.comparable_spec(),
{
}

} // verus!
