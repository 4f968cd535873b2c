use vstd::prelude::*;

use crate::height::{scale_token, token_scaled, Height, MAX_SCALED};
use crate::text::{
    chars_of, digit_end, digits_value, is_digit, lemma_digit_end, lemma_number_span,
    number_span, parse_digits, read_number, skip_digits,
};

verus! {

/// The word that marks the end of a layer.
pub const LAYER_END_WORD: &'static str = "END_LAYER_OBJECT";

/// Unicode white space.
pub open spec fn is_space(c: char) -> bool {
    ||| c == '\t' || c == '\n' || c == '\u{0B}' || c == '\u{0C}' || c == '\r' || c == ' '
    ||| c == '\u{85}' || c == '\u{A0}' || c == '\u{1680}'
    ||| ('\u{2000}' <= c && c <= '\u{200A}')
    ||| c == '\u{2028}' || c == '\u{2029}' || c == '\u{202F}' || c == '\u{205F}' || c
        == '\u{3000}'
}

/// The first position at or after `i` that is not white space.
pub open spec fn space_end(s: Seq<char>, i: int) -> int
    decreases s.len() - i,
{
    if i < 0 || i >= s.len() || !is_space(s[i]) {
        if i < 0 { 0 } else { i }
    } else {
        space_end(s, i + 1)
    }
}

/// The first position at or after `i` that is not a blank (`' '`).
pub open spec fn blank_end(s: Seq<char>, i: int) -> int
    decreases s.len() - i,
{
    if i < 0 || i >= s.len() || s[i] != ' ' {
        if i < 0 { 0 } else { i }
    } else {
        blank_end(s, i + 1)
    }
}

/// Whether `w` stands in `s` at position `i`.
pub open spec fn word_at(s: Seq<char>, i: int, w: Seq<char>) -> bool {
    0 <= i && i + w.len() <= s.len() && s.subrange(i, i + w.len()) == w
}

pub open spec fn contains_word(s: Seq<char>, w: Seq<char>) -> bool {
    exists|i: int| word_at(s, i, w)
}

/// Where the height starts on a line of the form
/// `;<space>+END_LAYER_OBJECT<space>+z<space>*=<number><rest>`.
pub open spec fn layer_end_start(s: Seq<char>) -> Option<int> {
    let w = LAYER_END_WORD@;
    let a = space_end(s, 1);
    let b = space_end(s, a + w.len());
    let c = space_end(s, b + 1);
    if s.len() > 0 && s[0] == ';' && a > 1 && word_at(s, a, w) && b > a + w.len() && b < s.len()
        && s[b] == 'z' && c + 1 < s.len() && s[c] == '=' && is_digit(s[c + 1]) {
        Some(c + 1)
    } else {
        None
    }
}

/// Where the temperature starts on a line of the form `M10[49] *S<digits>...`.
pub open spec fn temperature_start(s: Seq<char>) -> Option<int> {
    let b = blank_end(s, 4);
    if s.len() > 4 && s[0] == 'M' && s[1] == '1' && s[2] == '0' && (s[3] == '4' || s[3] == '9')
        && b + 1 < s.len() && s[b] == 'S' && is_digit(s[b + 1]) {
        Some(b + 1)
    } else {
        None
    }
}

/// The temperature written at `i`.
pub open spec fn temperature_value(s: Seq<char>, i: int) -> nat {
    digits_value(s.subrange(i, digit_end(s, i)))
}

/// What one line of G-code announces.
#[derive(Debug)]
pub enum LineEvent {
    /// A layer ends at `height`; `rest` is what follows the height on the line.
    LayerEnd { height: Height, rest: String },
    /// The extruder temperature is set.
    TemperatureSet { temperature: u64 },
    /// Anything else.
    Plain,
}

/// A number on a marked line that is too large to be held.
#[derive(Clone, Copy, Debug, PartialEq, Eq, Structural)]
pub enum ParseError {
    NumberTooLarge,
}

impl ParseError {
    pub fn message(&self) -> (r: String)
        ensures
            r@ == "A number in the G-code is too large."@,
    {
        String::from_str("A number in the G-code is too large.")
    }
}

/// Whether a line holds a number that is too large.
pub open spec fn line_fails(s: Seq<char>) -> bool {
    if contains_word(s, LAYER_END_WORD@) {
        match layer_end_start(s) {
            Some(i) => token_scaled(s, i) > MAX_SCALED,
            None => false,
        }
    } else {
        match temperature_start(s) {
            Some(i) => temperature_value(s, i) > u64::MAX,
            None => false,
        }
    }
}

/// Whether `e` is what the line `s` announces. A line that names the layer
/// end word is never read as a temperature.
pub open spec fn event_of(s: Seq<char>, e: LineEvent) -> bool {
    if contains_word(s, LAYER_END_WORD@) {
        match layer_end_start(s) {
            Some(i) => match e {
                LineEvent::LayerEnd { height, rest } => height.ten_thousandths == token_scaled(s, i)
                    && rest@ == s.subrange(number_span(s, i).3, s.len() as int),
                _ => false,
            },
            None => e is Plain,
        }
    } else {
        match temperature_start(s) {
            Some(i) => match e {
                LineEvent::TemperatureSet { temperature } => temperature == temperature_value(s, i),
                _ => false,
            },
            None => e is Plain,
        }
    }
}

fn is_space_char(c: char) -> (r: bool)
    ensures
        r == is_space(c),
{
    c == '\t' || c == '\n' || c == '\u{0B}' || c == '\u{0C}' || c == '\r' || c == ' ' || c
        == '\u{85}' || c == '\u{A0}' || c == '\u{1680}' || ('\u{2000}' <= c && c <= '\u{200A}')
        || c == '\u{2028}' || c == '\u{2029}' || c == '\u{202F}' || c == '\u{205F}' || c
        == '\u{3000}'
}

fn skip_spaces(s: &Vec<char>, i: usize) -> (r: usize)
    requires
        i <= s@.len(),
    ensures
        r as int == space_end(s@, i as int),
        i <= r <= s@.len(),
{
    let mut j: usize = i;
    while j < s.len() && is_space_char(s[j])
        invariant
            i <= j <= s@.len(),
            space_end(s@, j as int) == space_end(s@, i as int),
        decreases s@.len() - j,
    {
        j = j + 1;
    }
    j
}

fn skip_blanks(s: &Vec<char>, i: usize) -> (r: usize)
    requires
        i <= s@.len(),
    ensures
        r as int == blank_end(s@, i as int),
        i <= r <= s@.len(),
{
    let mut j: usize = i;
    while j < s.len() && s[j] == ' '
        invariant
            i <= j <= s@.len(),
            blank_end(s@, j as int) == blank_end(s@, i as int),
        decreases s@.len() - j,
    {
        j = j + 1;
    }
    j
}

/// Whether `w` stands in `s` at position `i`.
pub fn word_at_exec(s: &Vec<char>, i: usize, w: &str) -> (r: bool)
    ensures
        r == word_at(s@, i as int, w@),
{
    let n = w.unicode_len();
    let sl = s.len();
    if i > sl || n > sl - i {
        return false;
    }
    let mut k: usize = 0;
    while k < n
        invariant
            n == w@.len(),
            sl == s@.len(),
            i + n <= sl,
            k <= n,
            forall|j: int| 0 <= j < k ==> s@[i + j] == w@[j],
        decreases n - k,
    {
        if s[i + k] != w.get_char(k) {
            assert(s@.subrange(i as int, i + n)[k as int] != w@[k as int]);
            return false;
        }
        k = k + 1;
    }
    assert(s@.subrange(i as int, i + n) =~= w@);
    true
}

/// Whether `w` stands anywhere in `s`.
pub fn contains_word_exec(s: &Vec<char>, w: &str) -> (r: bool)
    ensures
        r == contains_word(s@, w@),
{
    let mut i: usize = 0;
    while i < s.len()
        invariant
            i <= s@.len(),
            forall|j: int| 0 <= j < i ==> !word_at(s@, j, w@),
        decreases s@.len() - i,
    {
        if word_at_exec(s, i, w) {
            return true;
        }
        i = i + 1;
    }
    if word_at_exec(s, i, w) {
        return true;
    }
    assert forall|j: int| !word_at(s@, j, w@) by {
        if 0 <= j && j + w@.len() <= s@.len() && j != i {
            assert(j < i);
        }
    }
    false
}

/// Reads what one line announces: a layer end with its height, a temperature
/// setting, or nothing of interest.
pub fn classify_line(line: &str) -> (r: Result<LineEvent, ParseError>)
    ensures
        r is Err <==> line_fails(line@),
        r matches Ok(e) ==> event_of(line@, e),
{
    let s = chars_of(line);
    if contains_word_exec(&s, LAYER_END_WORD) {
        if s.len() == 0 || s[0] != ';' {
            return Ok(LineEvent::Plain);
        }
        let a = skip_spaces(&s, 1);
        let n = LAYER_END_WORD.unicode_len();
        if !(a > 1 && word_at_exec(&s, a, LAYER_END_WORD)) {
            return Ok(LineEvent::Plain);
        }
        let b = skip_spaces(&s, a + n);
        if !(b > a + n && b < s.len() && s[b] == 'z') {
            return Ok(LineEvent::Plain);
        }
        let c = skip_spaces(&s, b + 1);
        if !(c < s.len() && c + 1 < s.len() && s[c] == '=' && '0' <= s[c + 1] && s[c + 1] <= '9') {
            return Ok(LineEvent::Plain);
        }
        proof {
            lemma_number_span(s@, c + 1);
        }
        let (_, _, _, d) = read_number(&s, c + 1);
        match scale_token(&s, c + 1) {
            Some(v) => {
                let rest = String::from_str(line.substring_char(d, s.len()));
                Ok(LineEvent::LayerEnd { height: Height { ten_thousandths: v }, rest })
            },
            None => Err(ParseError::NumberTooLarge),
        }
    } else {
        if !(s.len() > 4 && s[0] == 'M' && s[1] == '1' && s[2] == '0' && (s[3] == '4' || s[3]
            == '9')) {
            return Ok(LineEvent::Plain);
        }
        let b = skip_blanks(&s, 4);
        if !(b < s.len() && b + 1 < s.len() && s[b] == 'S' && '0' <= s[b + 1] && s[b + 1] <= '9') {
            return Ok(LineEvent::Plain);
        }
        proof {
            lemma_digit_end(s@, b + 1);
        }
        let e = skip_digits(&s, b + 1);
        match parse_digits(&s, b + 1, e, u64::MAX) {
            Some(t) => Ok(LineEvent::TemperatureSet { temperature: t }),
            None => Err(ParseError::NumberTooLarge),
        }
    }
}

} // verus!
