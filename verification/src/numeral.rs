use vstd::prelude::*;
use vstd::string::StringSliceAdditionalSpecFns;

verus! {

/// Whether `c` is one of the ten ASCII digits.
pub open spec fn is_digit(c: char) -> bool {
    '0' <= c && c <= '9'
}

/// The number that the digit `c` stands for.
pub open spec fn digit_value(c: char) -> nat {
    (c as int - '0' as int) as nat
}

/// The first position at or after `from` that holds no digit.
pub open spec fn digits_end(s: Seq<char>, from: int) -> int
    decreases s.len() - from,
{
    if 0 <= from < s.len() && is_digit(s[from]) {
        digits_end(s, from + 1)
    } else {
        from
    }
}

/// The number that a run of digits denotes in base ten; the empty run denotes zero.
pub open spec fn digits_value(s: Seq<char>) -> nat
    decreases s.len(),
{
    if s.len() == 0 {
        0
    } else {
        digits_value(s.drop_last()) * 10 + digit_value(s.last())
    }
}

/// Whether `c` is a plus or a minus sign.
pub open spec fn is_sign(c: char) -> bool {
    c == '+' || c == '-'
}

/// Length of the sign in front of the numeral: one or zero.
pub open spec fn sign_len(s: Seq<char>) -> int {
    if s.len() > 0 && is_sign(s[0]) {
        1
    } else {
        0
    }
}

/// Where the digits before the decimal point end.
pub open spec fn int_end(s: Seq<char>) -> int {
    digits_end(s, sign_len(s))
}

/// Whether a decimal point follows the integer digits.
pub open spec fn has_point(s: Seq<char>) -> bool {
    int_end(s) < s.len() && s[int_end(s)] == '.'
}

/// Where the digits after the decimal point begin.
pub open spec fn frac_start(s: Seq<char>) -> int {
    if has_point(s) {
        int_end(s) + 1
    } else {
        int_end(s)
    }
}

/// Where the digits after the decimal point end.
pub open spec fn frac_end(s: Seq<char>) -> int {
    digits_end(s, frac_start(s))
}

/// Whether an exponent marker follows the digits.
pub open spec fn has_exponent(s: Seq<char>) -> bool {
    frac_end(s) < s.len() && (s[frac_end(s)] == 'e' || s[frac_end(s)] == 'E')
}

/// Length of the sign behind the exponent marker: one or zero.
pub open spec fn exp_sign_len(s: Seq<char>) -> int {
    if has_exponent(s) && frac_end(s) + 1 < s.len() && is_sign(s[frac_end(s) + 1]) {
        1
    } else {
        0
    }
}

/// Where the exponent's digits begin.
pub open spec fn exp_start(s: Seq<char>) -> int {
    if has_exponent(s) {
        frac_end(s) + 1 + exp_sign_len(s)
    } else {
        frac_end(s)
    }
}

/// Where the exponent's digits end.
pub open spec fn exp_end(s: Seq<char>) -> int {
    digits_end(s, exp_start(s))
}

/// The grammar of a decimal numeral: an optional sign; digits, with an optional
/// decimal point among, before or behind them, and at least one digit in all;
/// then optionally `e` or `E`, an optional sign and at least one digit.
pub open spec fn is_decimal(s: Seq<char>) -> bool {
    &&& (int_end(s) - sign_len(s)) + (frac_end(s) - frac_start(s)) > 0
    &&& has_exponent(s) ==> exp_end(s) > exp_start(s)
    &&& exp_end(s) == s.len()
}

/// Whether `c` is the lower-case letter `lower` or its capital.
pub open spec fn is_letter(c: char, lower: char) -> bool {
    c == lower || c as int + 32 == lower as int
}

/// The words for what is no finite number: an optional sign, then `inf`,
/// `infinity` or `nan`, each letter in either case.
pub open spec fn is_special(s: Seq<char>) -> bool {
    let at = sign_len(s);
    ||| s.len() == at + 3 && is_letter(s[at], 'i') && is_letter(s[at + 1], 'n') && is_letter(
        s[at + 2],
        'f',
    )
    ||| s.len() == at + 3 && is_letter(s[at], 'n') && is_letter(s[at + 1], 'a') && is_letter(
        s[at + 2],
        'n',
    )
    ||| s.len() == at + 8 && is_letter(s[at], 'i') && is_letter(s[at + 1], 'n') && is_letter(
        s[at + 2],
        'f',
    ) && is_letter(s[at + 3], 'i') && is_letter(s[at + 4], 'n') && is_letter(s[at + 5], 'i')
        && is_letter(s[at + 6], 't') && is_letter(s[at + 7], 'y')
}

/// What a number may be written as: a decimal numeral, or one of the words for
/// what is no finite number. These are the texts that denote a floating-point
/// number.
pub open spec fn is_numeral(s: Seq<char>) -> bool {
    is_decimal(s) || is_special(s)
}

/// The byte that the text denotes as `u8`'s own parser reads it: an optional plus
/// sign and at least one digit, the number being at most 255.
pub open spec fn parse_byte(s: Seq<char>) -> Option<u8> {
    let start: int = if s.len() > 0 && s[0] == '+' {
        1
    } else {
        0
    };
    if start < s.len() && digits_end(s, start) == s.len() && digits_value(
        s.subrange(start, s.len() as int),
    ) <= u8::MAX {
        Some(digits_value(s.subrange(start, s.len() as int)) as u8)
    } else {
        None
    }
}

/// The ASCII codes of the characters that a numeral is made of.
const DIGIT_ZERO: u8 = 0x30;

const DIGIT_NINE: u8 = 0x39;

const PLUS: u8 = 0x2B;

const MINUS: u8 = 0x2D;

const POINT: u8 = 0x2E;

const LOWER_A: u8 = 0x61;

const LOWER_E: u8 = 0x65;

const LOWER_F: u8 = 0x66;

const LOWER_I: u8 = 0x69;

const LOWER_N: u8 = 0x6E;

const LOWER_T: u8 = 0x74;

const LOWER_Y: u8 = 0x79;

/// How far a capital letter stands before its lower-case letter.
const CASE_GAP: u8 = 0x20;

/// The run of digits that starts at `from` lies inside the text, holds digits
/// only, and is not followed by a digit.
pub proof fn lemma_digits_end(s: Seq<char>, from: int)
    requires
        0 <= from <= s.len(),
    ensures
        from <= digits_end(s, from) <= s.len(),
        forall|i: int| from <= i < digits_end(s, from) ==> is_digit(#[trigger] s[i]),
        digits_end(s, from) < s.len() ==> !is_digit(s[digits_end(s, from)]),
    decreases s.len() - from,
{
    if from < s.len() && is_digit(s[from]) {
        lemma_digits_end(s, from + 1);
    }
}

/// A numeral is written in ASCII.
pub proof fn lemma_numeral_is_ascii(s: Seq<char>)
    requires
        is_numeral(s),
    ensures
        vstd::utf8::is_ascii_chars(s),
{
    if is_decimal(s) {
        lemma_digits_end(s, sign_len(s));
        lemma_digits_end(s, frac_start(s));
        if has_exponent(s) {
            lemma_digits_end(s, exp_start(s));
        }
        assert forall|i: int| 0 <= i < s.len() implies '\0' <= #[trigger] s[i] <= '\u{7f}' by {
            if i < sign_len(s) {
                assert(is_sign(s[i]));
            } else if i < int_end(s) {
                assert(is_digit(s[i]));
            } else if i < frac_start(s) {
                assert(s[i] == '.');
            } else if i < frac_end(s) {
                assert(is_digit(s[i]));
            } else if i < exp_start(s) {
                assert(s[i] == 'e' || s[i] == 'E' || is_sign(s[i]));
            } else {
                assert(is_digit(s[i]));
            }
        }
    } else {
        let at = sign_len(s);
        assert forall|i: int| 0 <= i < s.len() implies '\0' <= #[trigger] s[i] <= '\u{7f}' by {
            if i < at {
                assert(is_sign(s[i]));
            } else {
                let k = i - at;
                assert(s[i] == s[at + k]);
                assert(0 <= k < 8);
            }
        }
    }
}

/// A text that `parse_byte` accepts is written in ASCII.
pub proof fn lemma_byte_is_ascii(s: Seq<char>)
    requires
        parse_byte(s) is Some,
    ensures
        vstd::utf8::is_ascii_chars(s),
{
    let start: int = if s.len() > 0 && s[0] == '+' {
        1
    } else {
        0
    };
    lemma_digits_end(s, start);
    assert forall|i: int| 0 <= i < s.len() implies '\0' <= #[trigger] s[i] <= '\u{7f}' by {
        if i >= start {
            assert(is_digit(s[i]));
        }
    }
}

/// Whether `bytes` holds the characters of `chars`, one ASCII byte for each.
spec fn spelled(bytes: Seq<u8>, chars: Seq<char>) -> bool {
    &&& bytes.len() == chars.len()
    &&& forall|i: int|
        0 <= i < chars.len() ==> '\0' <= #[trigger] chars[i] <= '\u{7f}' && bytes[i] == chars[i] as u8
}

/// The bytes of a text in ASCII hold its characters one by one.
proof fn lemma_ascii_spelled(text: &str)
    requires
        text.is_ascii(),
    ensures
        spelled(text.spec_bytes(), text@),
{
    vstd::string::is_ascii_spec_bytes(text);
}

/// Whether `value` and `over` record the number that `digits` denote: the number
/// itself while it is within `limit`, and no more than the fact once it is beyond.
spec fn tallied(value: u16, over: bool, digits: Seq<char>, limit: u8) -> bool {
    if over {
        digits_value(digits) > limit
    } else {
        value == digits_value(digits) && value <= limit
    }
}

/// Finds where the digits that start at `from` end.
fn scan_digits(bytes: &[u8], from: usize, Ghost(text): Ghost<&str>) -> (end: usize)
    requires
        spelled(bytes@, text@),
        from <= text@.len(),
    ensures
        end == digits_end(text@, from as int),
        from <= end <= text@.len(),
{
    proof {
        lemma_digits_end(text@, from as int);
    }
    let len: usize = bytes.len();
    let mut at: usize = from;
    while at < len
        invariant
            spelled(bytes@, text@),
            len == text@.len(),
            from <= at <= len,
            digits_end(text@, from as int) == digits_end(text@, at as int),
        ensures
            from <= at <= len,
            at == digits_end(text@, from as int),
        decreases len - at,
    {
        let byte: u8 = bytes[at];
        if byte < DIGIT_ZERO || byte > DIGIT_NINE {
            break ;
        }
        at = at + 1;
    }
    at
}

/// Reads the number that the digits from `from` to `end` denote, as far as it
/// stays within `limit`.
fn read_digits(bytes: &[u8], from: usize, end: usize, limit: u8, Ghost(text): Ghost<&str>) -> (r: (
    u16,
    bool,
))
    requires
        spelled(bytes@, text@),
        from <= end <= text@.len(),
        end == digits_end(text@, from as int),
    ensures
        tallied(r.0, r.1, text@.subrange(from as int, end as int), limit),
{
    proof {
        lemma_digits_end(text@, from as int);
    }
    let mut at: usize = from;
    let mut value: u16 = 0;
    let mut over: bool = false;
    assert(text@.subrange(from as int, at as int) =~= Seq::<char>::empty());
    while at < end
        invariant
            spelled(bytes@, text@),
            from <= at <= end <= text@.len(),
            forall|i: int| from <= i < end ==> is_digit(#[trigger] text@[i]),
            tallied(value, over, text@.subrange(from as int, at as int), limit),
        decreases end - at,
    {
        let byte: u8 = bytes[at];
        assert(is_digit(text@[at as int]));
        let digit: u16 = (byte - DIGIT_ZERO) as u16;
        proof {
            let run = text@.subrange(from as int, at as int);
            let longer = text@.subrange(from as int, at + 1);
            assert(longer.drop_last() =~= run);
            assert(longer.last() == text@[at as int]);
            assert(digits_value(longer) == digits_value(run) * 10 + digit);
        }
        if !over {
            let next: u16 = value * 10 + digit;
            if next > limit as u16 {
                over = true;
            } else {
                value = next;
            }
        }
        at = at + 1;
    }
    (value, over)
}

/// Whether `byte` is the lower-case letter `lower` or its capital.
fn letter(byte: u8, lower: u8) -> (yes: bool)
    requires
        lower >= CASE_GAP,
    ensures
        yes == (byte == lower || byte + CASE_GAP == lower),
{
    byte == lower || byte == lower - CASE_GAP
}

/// Whether the text is a decimal numeral.
fn decimal_shape(bytes: &[u8], Ghost(text): Ghost<&str>) -> (yes: bool)
    requires
        spelled(bytes@, text@),
    ensures
        yes == is_decimal(text@),
{
    let len: usize = bytes.len();
    let mut start: usize = 0;
    if len > 0 && (bytes[0] == PLUS || bytes[0] == MINUS) {
        start = 1;
    }
    assert(start == sign_len(text@));
    let point_at = scan_digits(bytes, start, Ghost(text));
    let mut behind: usize = point_at;
    if point_at < len && bytes[point_at] == POINT {
        behind = point_at + 1;
    }
    assert(behind == frac_start(text@));
    let stop = scan_digits(bytes, behind, Ghost(text));
    let mut power: usize = stop;
    let mut marked: bool = false;
    if stop < len && (bytes[stop] == LOWER_E || bytes[stop] == LOWER_E - CASE_GAP) {
        marked = true;
        power = stop + 1;
        if power < len && (bytes[power] == PLUS || bytes[power] == MINUS) {
            power = power + 1;
        }
    }
    assert(marked == has_exponent(text@));
    assert(power == exp_start(text@));
    let end = scan_digits(bytes, power, Ghost(text));
    (point_at - start) + (stop - behind) > 0 && (!marked || end > power) && end == len
}

/// Whether the text is one of the words for what is no finite number.
fn special_shape(bytes: &[u8], Ghost(text): Ghost<&str>) -> (yes: bool)
    requires
        spelled(bytes@, text@),
    ensures
        yes == is_special(text@),
{
    let len: usize = bytes.len();
    let mut at: usize = 0;
    if len > 0 && (bytes[0] == PLUS || bytes[0] == MINUS) {
        at = 1;
    }
    assert(at == sign_len(text@));
    if len - at == 3 {
        (letter(bytes[at], LOWER_I) && letter(bytes[at + 1], LOWER_N) && letter(
            bytes[at + 2],
            LOWER_F,
        )) || (letter(bytes[at], LOWER_N) && letter(bytes[at + 1], LOWER_A) && letter(
            bytes[at + 2],
            LOWER_N,
        ))
    } else if len - at == 8 {
        letter(bytes[at], LOWER_I) && letter(bytes[at + 1], LOWER_N) && letter(
            bytes[at + 2],
            LOWER_F,
        ) && letter(bytes[at + 3], LOWER_I) && letter(bytes[at + 4], LOWER_N) && letter(
            bytes[at + 5],
            LOWER_I,
        ) && letter(bytes[at + 6], LOWER_T) && letter(bytes[at + 7], LOWER_Y)
    } else {
        false
    }
}

/// A number as it is written: the text of a reading, known to be a numeral.
///
/// The text is kept as it came, so that nothing of the number is lost: whoever
/// needs the number as a float reads the text, which cannot fail. Two numerals
/// are equal when they are written alike.
#[derive(Debug, PartialEq, Eq)]
pub struct Numeral {
    text: String,
}

impl View for Numeral {
    type V = Seq<char>;

    closed spec fn view(&self) -> Seq<char> {
        self.text@
    }
}

/// What an optional numeral is written as.
pub open spec fn numeral_view(numeral: Option<Numeral>) -> Option<Seq<char>> {
    match numeral {
        Some(held) => Some(held@),
        None => None,
    }
}

impl Numeral {
    #[verifier::type_invariant]
    spec fn well_formed(self) -> bool {
        is_numeral(self.text@)
    }

    /// Takes the text for a number if it is a numeral, and refuses it otherwise.
    pub fn parse(text: &str) -> (numeral: Option<Numeral>)
        ensures
            numeral_view(numeral) == if is_numeral(text@) {
                Some(text@)
            } else {
                None
            },
    {
        if !text.is_ascii() {
            proof {
                if is_numeral(text@) {
                    lemma_numeral_is_ascii(text@);
                }
            }
            return None;
        }
        proof {
            lemma_ascii_spelled(text);
        }
        let bytes = text.as_bytes();
        if decimal_shape(bytes, Ghost(text)) || special_shape(bytes, Ghost(text)) {
            Some(Numeral { text: text.to_owned() })
        } else {
            None
        }
    }

    /// The numeral as text.
    pub fn as_str(&self) -> (text: &str)
        ensures
            text@ == self@,
            is_numeral(text@),
    {
        proof {
            use_type_invariant(self);
        }
        self.text.as_str()
    }

    /// A second copy of the numeral.
    pub fn duplicate(&self) -> (copy: Numeral)
        ensures
            copy@ == self@,
    {
        proof {
            use_type_invariant(self);
        }
        Numeral { text: self.text.clone() }
    }
}

/// Reads a byte as `u8`'s own parser does.
pub fn parse_u8(text: &str) -> (value: Option<u8>)
    ensures
        value == parse_byte(text@),
{
    if !text.is_ascii() {
        proof {
            if parse_byte(text@) is Some {
                lemma_byte_is_ascii(text@);
            }
        }
        return None;
    }
    proof {
        lemma_ascii_spelled(text);
    }
    let bytes = text.as_bytes();
    let len: usize = bytes.len();
    let mut start: usize = 0;
    if len > 0 {
        let first: u8 = bytes[0];
        if first == PLUS {
            start = 1;
        }
    }
    let end = scan_digits(bytes, start, Ghost(text));
    if start < len && end == len {
        let (value, over) = read_digits(bytes, start, end, u8::MAX, Ghost(text));
        if over {
            None
        } else {
            Some(value as u8)
        }
    } else {
        None
    }
}

} // verus!
