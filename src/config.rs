//! Validation of the per-device settings given on the command line or in
//! the environment: oversampling multiplier, decoder kind, gain and
//! channel frequencies.

use vstd::prelude::*;
use vstd::string::*;
use crate::decoders::ValidDecoderType;

verus! {

/// Lowest tuner gain accepted, in dB.
pub const MIN_GAIN_DB: u32 = 0;
/// Highest tuner gain accepted, in dB.
pub const MAX_GAIN_DB: u32 = 60;
/// Lower edge of the air band, in MHz.
pub const AIRBAND_LOW_MHZ: u32 = 108;
/// Upper edge of the air band, in MHz.
pub const AIRBAND_HIGH_MHZ: u32 = 137;
/// Integer parts at or above this are held as this value while parsing: no
/// bound that the settings compare with comes near it.
pub const DECIMAL_CAP: u32 = 1000;

/// Why a setting was refused.
#[derive(Clone, Debug, PartialEq, Eq)]
pub enum OxideInputError {
    /// The text is not a decimal number.
    ParseFloat,
    /// The text is not an integer.
    ParseInt,
    /// A gain outside [MIN_GAIN_DB, MAX_GAIN_DB]; holds the text given.
    GainRange { input: String },
    /// An oversampling multiplier other than 160 or 192.
    Mult { input: i32 },
    /// A decoder name other than ACARS or VDLM2; holds the text given.
    DecodingType { input: String },
    /// A frequency outside the air band; holds the text given.
    FrequencyOutsideOfAirband { freq: String },
}

pub open spec fn is_digit_char(c: char) -> bool {
    '0' <= c <= '9'
}

pub open spec fn all_digits(s: Seq<char>) -> bool {
    forall|i: int| 0 <= i < s.len() ==> is_digit_char(#[trigger] s[i])
}

pub open spec fn digit_value(c: char) -> int {
    c as int - '0' as int
}

/// The number written by the decimal digits `s`, most significant first.
pub open spec fn digits_value(s: Seq<char>) -> int
    decreases s.len(),
{
    if s.len() == 0 {
        0
    } else {
        digits_value(s.drop_last()) * 10 + digit_value(s.last())
    }
}

/// The integer written by `s`: an optional sign and one or more digits.
pub open spec fn integer_text_value(s: Seq<char>) -> Option<int> {
    if s.len() > 0 && (s[0] == '+' || s[0] == '-') {
        let d = s.skip(1);
        if d.len() > 0 && all_digits(d) {
            Some(
                if s[0] == '-' {
                    -digits_value(d)
                } else {
                    digits_value(d)
                },
            )
        } else {
            None
        }
    } else if s.len() > 0 && all_digits(s) {
        Some(digits_value(s))
    } else {
        None
    }
}

/// The `i32` written by `s`, if it is an integer in range.
pub open spec fn i32_text_value(s: Seq<char>) -> Option<i32> {
    match integer_text_value(s) {
        Some(v) => if i32::MIN <= v <= i32::MAX {
            Some(v as i32)
        } else {
            None
        },
        None => None,
    }
}

/// Relies on `str::parse::<i32>`: an optional `+` or `-` followed by one or
/// more ASCII digits is read as that integer when it fits; anything else,
/// or a value out of range, is an error.
#[verifier::external_body]
fn parse_i32(s: &str) -> (r: Option<i32>)
    ensures
        r == i32_text_value(s@),
{
    s.parse::<i32>().ok()
}

/// What `validate_mult` returns for text `s`.
pub open spec fn mult_result(s: Seq<char>) -> Result<i32, OxideInputError> {
    match i32_text_value(s) {
        None => Err(OxideInputError::ParseInt),
        Some(m) => if m != 160 && m != 192 {
            Err(OxideInputError::Mult { input: m })
        } else {
            Ok(m)
        },
    }
}

/// Reads an oversampling multiplier: 160 or 192.
pub fn validate_mult(env: &str) -> (r: Result<i32, OxideInputError>)
    ensures
        r == mult_result(env@),
{
    match parse_i32(env) {
        None => Err(OxideInputError::ParseInt),
        Some(m) => {
            if m != 160 && m != 192 {
                Err(OxideInputError::Mult { input: m })
            } else {
                Ok(m)
            }
        },
    }
}

/// The upper-case form of a text, as `str::to_uppercase` gives it.
pub uninterp spec fn upper_of(s: Seq<char>) -> Seq<char>;

/// Relies on `str::to_uppercase`: the result depends on the characters alone.
#[verifier::external_body]
fn uppercase(s: &str) -> (r: String)
    ensures
        r@ == upper_of(s@),
{
    s.to_uppercase()
}

/// `r` is what the decoder name `input`, whose upper-case form is `upper`,
/// selects: ACARS, VDL2 (written VDLM2), or an error that holds the name.
pub open spec fn decoder_type_selects(
    upper: Seq<char>,
    input: Seq<char>,
    r: Result<ValidDecoderType, OxideInputError>,
) -> bool {
    if upper == seq!['A', 'C', 'A', 'R', 'S'] {
        r == Ok::<ValidDecoderType, OxideInputError>(ValidDecoderType::ACARS)
    } else if upper == seq!['V', 'D', 'L', 'M', '2'] {
        r == Ok::<ValidDecoderType, OxideInputError>(ValidDecoderType::VDL2)
    } else {
        match r {
            Err(OxideInputError::DecodingType { input: i }) => i@ == input,
            _ => false,
        }
    }
}

/// Picks the decoder from the upper-case form `upper` of the name `input`.
pub fn decoder_type_from_upper(upper: &str, input: &str) -> (r: Result<
    ValidDecoderType,
    OxideInputError,
>)
    ensures
        decoder_type_selects(upper@, input@, r),
{
    let u = String::from_str(upper);
    let acars = String::from_str("ACARS");
    let vdl = String::from_str("VDLM2");
    proof {
        reveal_strlit("ACARS");
        reveal_strlit("VDLM2");
        assert("ACARS"@ =~= seq!['A', 'C', 'A', 'R', 'S']);
        assert("VDLM2"@ =~= seq!['V', 'D', 'L', 'M', '2']);
    }
    if u == acars {
        Ok(ValidDecoderType::ACARS)
    } else if u == vdl {
        Ok(ValidDecoderType::VDL2)
    } else {
        Err(OxideInputError::DecodingType { input: String::from_str(input) })
    }
}

/// Reads a decoder name, in any case: ACARS or VDLM2.
pub fn validate_decoding_type(env: &str) -> (r: Result<ValidDecoderType, OxideInputError>)
    ensures
        decoder_type_selects(upper_of(env@), env@, r),
{
    let upper = uppercase(env);
    decoder_type_from_upper(upper.as_str(), env)
}

pub open spec fn sign_len(s: Seq<char>) -> int {
    if s.len() > 0 && (s[0] == '+' || s[0] == '-') {
        1
    } else {
        0
    }
}

pub open spec fn is_negative(s: Seq<char>) -> bool {
    s.len() > 0 && s[0] == '-'
}

/// The text after the sign, if any.
pub open spec fn unsigned_part(s: Seq<char>) -> Seq<char> {
    s.skip(sign_len(s))
}

/// Position of the first '.' of `u` at or after `i`, or `u`'s length.
pub open spec fn dot_from(u: Seq<char>, i: int) -> int
    decreases u.len() - i,
{
    if i < 0 || i >= u.len() {
        u.len() as int
    } else if u[i] == '.' {
        i
    } else {
        dot_from(u, i + 1)
    }
}

/// Digits before the decimal point.
pub open spec fn int_digits(s: Seq<char>) -> Seq<char> {
    unsigned_part(s).subrange(0, dot_from(unsigned_part(s), 0))
}

/// Digits after the decimal point.
pub open spec fn frac_digits(s: Seq<char>) -> Seq<char> {
    let u = unsigned_part(s);
    let d = dot_from(u, 0);
    if d < u.len() {
        u.subrange(d + 1, u.len() as int)
    } else {
        Seq::empty()
    }
}

/// An optional sign, digits, and optionally a point and more digits, with
/// at least one digit in all.
pub open spec fn is_decimal_text(s: Seq<char>) -> bool {
    &&& all_digits(int_digits(s))
    &&& all_digits(frac_digits(s))
    &&& int_digits(s).len() + frac_digits(s).len() > 0
}

pub open spec fn all_zero(f: Seq<char>) -> bool {
    forall|i: int| 0 <= i < f.len() ==> #[trigger] f[i] == '0'
}

/// The first `k` digits of `f`, padded with zeros.
pub open spec fn padded_digits(f: Seq<char>, k: nat) -> Seq<char> {
    Seq::new(k, |i: int| if i < f.len() { f[i] } else { '0' })
}

/// The fractional part in millionths, truncated.
pub open spec fn micro_units(s: Seq<char>) -> int {
    digits_value(padded_digits(frac_digits(s), 6))
}

pub open spec fn capped(v: int) -> int {
    if v < DECIMAL_CAP {
        v
    } else {
        DECIMAL_CAP as int
    }
}

pub open spec fn pow10(k: nat) -> int
    decreases k,
{
    if k == 0 {
        1
    } else {
        pow10((k - 1) as nat) * 10
    }
}

/// A decimal number read from text: its sign, its integer part (held at
/// DECIMAL_CAP when larger), its fraction in millionths, and whether the
/// fraction is zero.
#[derive(Clone, Copy, Debug, PartialEq, Eq, Structural)]
pub struct DecimalParts {
    pub negative: bool,
    pub int_part: u32,
    pub micro: u32,
    pub frac_zero: bool,
}

/// `d` is what text `s` says.
pub open spec fn decimal_parts_of(s: Seq<char>, d: DecimalParts) -> bool {
    &&& d.negative == is_negative(s)
    &&& d.int_part == capped(digits_value(int_digits(s)))
    &&& d.micro == micro_units(s)
    &&& d.frac_zero == all_zero(frac_digits(s))
}

proof fn lemma_dot_from_bounds(u: Seq<char>, i: int)
    requires
        0 <= i <= u.len(),
    ensures
        i <= dot_from(u, i) <= u.len(),
        dot_from(u, i) < u.len() ==> u[dot_from(u, i)] == '.',
    decreases u.len() - i,
{
    if i < u.len() && u[i] != '.' {
        lemma_dot_from_bounds(u, i + 1);
    }
}

proof fn lemma_pow10_bound(k: nat)
    requires
        k <= 6,
    ensures
        pow10(k) <= 1000000,
{
    reveal_with_fuel(pow10, 7);
}

proof fn lemma_capped_step(v: int, d: int)
    requires
        0 <= d <= 9,
    ensures
        capped(capped(v) * 10 + d) == capped(v * 10 + d),
{
    if v >= DECIMAL_CAP {
        assert(v * 10 >= v) by (nonlinear_arith)
            requires
                v >= DECIMAL_CAP,
        ;
    }
}

proof fn lemma_digits_step(f: Seq<char>, k: int)
    requires
        0 <= k < f.len(),
    ensures
        digits_value(f.subrange(0, k + 1)) == digits_value(f.subrange(0, k)) * 10 + digit_value(
            f[k],
        ),
{
    assert(f.subrange(0, k + 1).drop_last() == f.subrange(0, k));
}

/// Reads a decimal number: an optional sign, digits, and optionally a point
/// and more digits, with at least one digit. Exponents are not accepted.
pub fn parse_decimal(s: &str) -> (r: Option<DecimalParts>)
    ensures
        match r {
            None => !is_decimal_text(s@),
            Some(d) => is_decimal_text(s@) && decimal_parts_of(s@, d) && d.micro < 1000000,
        },
{
    let n = s.unicode_len();
    let mut i: usize = 0;
    let mut negative = false;
    if n > 0 {
        let c = s.get_char(0);
        if c == '+' || c == '-' {
            negative = c == '-';
            i = 1;
        }
    }
    let start = i;
    let ghost u = s@.skip(start as int);
    assert(u == unsigned_part(s@));
    let mut int_part: u32 = 0;
    proof {
        lemma_dot_from_bounds(u, 0);
    }
    while i < n && s.get_char(i) != '.'
        invariant
            start <= i <= n,
            n == s@.len(),
            u == s@.skip(start as int),
            u == unsigned_part(s@),
            0 <= dot_from(u, 0) <= u.len(),
            dot_from(u, 0) == dot_from(u, i - start),
            all_digits(u.subrange(0, i - start)),
            int_part == capped(digits_value(u.subrange(0, i - start))),
        decreases n - i,
    {
        let c = s.get_char(i);
        if !('0' <= c && c <= '9') {
            proof {
                assert(u[i - start] == c);
                assert(dot_from(u, i - start) == dot_from(u, i - start + 1));
                lemma_dot_from_bounds(u, i - start + 1);
                assert(int_digits(s@)[i - start] == c);
                assert(!is_digit_char(int_digits(s@)[i - start]));
            }
            return None;
        }
        proof {
            lemma_digits_step(u, i - start);
            lemma_capped_step(digits_value(u.subrange(0, i - start)), digit_value(c));
            assert(u.subrange(0, i - start + 1) =~= u.subrange(0, i - start).push(c));
        }
        let v = int_part * 10 + (c as u32 - '0' as u32);
        int_part = if v < DECIMAL_CAP {
            v
        } else {
            DECIMAL_CAP
        };
        i = i + 1;
    }
    let int_len = i - start;
    assert(dot_from(u, i - start) == i - start);
    assert(int_digits(s@) == u.subrange(0, i - start));
    let ghost f = frac_digits(s@);
    let ghost pd = padded_digits(f, 6);
    let mut micro: u32 = 0;
    let mut frac_zero = true;
    let mut k: usize = 0;
    if i < n {
        let lo = i + 1;
        assert(f == s@.subrange(lo as int, n as int));
        let mut j: usize = lo;
        while j < n
            invariant
                lo <= j <= n,
                n == s@.len(),
                f == s@.subrange(lo as int, n as int),
                f == frac_digits(s@),
                pd == padded_digits(f, 6),
                k == (if j - lo < 6 {
                    j - lo
                } else {
                    6
                }),
                all_digits(f.subrange(0, j - lo)),
                frac_zero == all_zero(f.subrange(0, j - lo)),
                micro == digits_value(pd.subrange(0, k as int)),
                micro < pow10(k as nat),
            decreases n - j,
        {
            let c = s.get_char(j);
            if !('0' <= c && c <= '9') {
                assert(f[j - lo] == c);
                assert(!is_digit_char(f[j - lo]));
                return None;
            }
            if k < 6 {
                proof {
                    lemma_pow10_bound((k + 1) as nat);
                    assert(pow10((k + 1) as nat) == pow10(k as nat) * 10);
                    lemma_digits_step(pd, k as int);
                    assert(pd[k as int] == c);
                }
                micro = micro * 10 + (c as u32 - '0' as u32);
                k = k + 1;
            }
            frac_zero = frac_zero && c == '0';
            j = j + 1;
            proof {
                let a = f.subrange(0, j - lo - 1);
                let b = f.subrange(0, j - lo);
                assert(b =~= a.push(c));
                assert(b[a.len() as int] == c);
                assert(forall|x: int| 0 <= x < a.len() ==> a[x] == b[x]);
            }
        }
        assert(f.subrange(0, n - lo) == f);
    } else {
        assert(f.len() == 0);
    }
    if int_len == 0 && k == 0 {
        return None;
    }
    while k < 6
        invariant
            k <= 6,
            pd == padded_digits(f, 6),
            k < 6 ==> f.len() <= k,
            micro == digits_value(pd.subrange(0, k as int)),
            micro < pow10(k as nat),
        decreases 6 - k,
    {
        proof {
            lemma_digits_step(pd, k as int);
            lemma_pow10_bound((k + 1) as nat);
            assert(pow10((k + 1) as nat) == pow10(k as nat) * 10);
        }
        micro = micro * 10;
        k = k + 1;
    }
    assert(pd.subrange(0, 6) == pd);
    proof {
        lemma_pow10_bound(6);
    }
    Some(DecimalParts { negative, int_part, micro, frac_zero })
}

/// The integer part of the decimal text `s`.
pub open spec fn int_value(s: Seq<char>) -> int {
    digits_value(int_digits(s))
}

/// The decimal text `s` is a value in [lo, hi].
pub open spec fn decimal_within(s: Seq<char>, lo: int, hi: int) -> bool {
    let zero = int_value(s) == 0 && all_zero(frac_digits(s));
    &&& (!is_negative(s) || zero)
    &&& (int_value(s) >= lo || (lo <= 0 && zero))
    &&& (int_value(s) < hi || (int_value(s) == hi && all_zero(frac_digits(s))))
}

/// A frequency text in MHz, in Hz, truncated to whole Hz.
pub open spec fn freq_hz_of(s: Seq<char>) -> int {
    int_value(s) * 1000000 + micro_units(s)
}

/// Reads a channel frequency in MHz and returns it in Hz; it must lie in
/// the air band, [108, 137] MHz.
pub fn validate_freq(freqs_string: &str) -> (r: Result<u32, OxideInputError>)
    ensures
        !is_decimal_text(freqs_string@) ==> r == Err::<u32, OxideInputError>(
            OxideInputError::ParseFloat,
        ),
        is_decimal_text(freqs_string@) && decimal_within(
            freqs_string@,
            AIRBAND_LOW_MHZ as int,
            AIRBAND_HIGH_MHZ as int,
        ) ==> r == Ok::<u32, OxideInputError>(freq_hz_of(freqs_string@) as u32),
        is_decimal_text(freqs_string@) && !decimal_within(
            freqs_string@,
            AIRBAND_LOW_MHZ as int,
            AIRBAND_HIGH_MHZ as int,
        ) ==> match r {
            Err(OxideInputError::FrequencyOutsideOfAirband { freq }) => freq@ == freqs_string@,
            _ => false,
        },
{
    match parse_decimal(freqs_string) {
        None => Err(OxideInputError::ParseFloat),
        Some(d) => {
            let zero = d.int_part == 0 && d.frac_zero;
            if (!d.negative || zero) && d.int_part >= AIRBAND_LOW_MHZ && (d.int_part
                < AIRBAND_HIGH_MHZ || (d.int_part == AIRBAND_HIGH_MHZ && d.frac_zero)) {
                Ok(d.int_part * 1000000 + d.micro)
            } else {
                Err(
                    OxideInputError::FrequencyOutsideOfAirband {
                        freq: String::from_str(freqs_string),
                    },
                )
            }
        },
    }
}

/// Reads a tuner gain in dB, which must lie in [0, 60], and returns its
/// whole decibels in tenths of a dB.
pub fn parse_sdr_gain(env: &str) -> (r: Result<i32, OxideInputError>)
    ensures
        !is_decimal_text(env@) ==> r == Err::<i32, OxideInputError>(OxideInputError::ParseFloat),
        is_decimal_text(env@) && decimal_within(env@, MIN_GAIN_DB as int, MAX_GAIN_DB as int)
            ==> r == Ok::<i32, OxideInputError>((int_value(env@) * 10) as i32),
        is_decimal_text(env@) && !decimal_within(env@, MIN_GAIN_DB as int, MAX_GAIN_DB as int)
            ==> match r {
            Err(OxideInputError::GainRange { input }) => input@ == env@,
            _ => false,
        },
{
    match parse_decimal(env) {
        None => Err(OxideInputError::ParseFloat),
        Some(d) => {
            let zero = d.int_part == 0 && d.frac_zero;
            if (!d.negative || zero) && (d.int_part < MAX_GAIN_DB || (d.int_part == MAX_GAIN_DB
                && d.frac_zero)) {
                Ok((d.int_part * 10) as i32)
            } else {
                Err(OxideInputError::GainRange { input: String::from_str(env) })
            }
        },
    }
}

/// One dongle's settings as collected, each possibly absent. The
/// oversampling multiplier is an integer, 160 or 192 once validated.
pub struct SDRConfig {
    pub gain: Option<u32>,
    pub ppm: Option<i32>,
    pub bias_tee: Option<bool>,
    pub mult: Option<u32>,
    pub freq: Option<Vec<String>>,
    pub serial: Option<String>,
}

/// `r` holds the same texts as `v`, in order.
pub open spec fn same_texts(r: Seq<String>, v: Seq<String>) -> bool {
    &&& r.len() == v.len()
    &&& forall|i: int| 0 <= i < v.len() ==> #[trigger] r[i]@ == v[i]@
}

fn copy_texts(v: &Vec<String>) -> (r: Vec<String>)
    ensures
        same_texts(r@, v@),
{
    let mut r: Vec<String> = Vec::new();
    let mut i: usize = 0;
    while i < v.len()
        invariant
            i <= v@.len(),
            same_texts(r@, v@.subrange(0, i as int)),
        decreases v@.len() - i,
    {
        r.push(v[i].clone());
        i = i + 1;
    }
    assert(v@.subrange(0, v@.len() as int) == v@);
    r
}

impl SDRConfig {
    pub fn new(
        gain: Option<u32>,
        ppm: Option<i32>,
        bias_tee: Option<bool>,
        mult: Option<u32>,
        freq: Option<Vec<String>>,
        serial: Option<String>,
    ) -> (r: SDRConfig)
        ensures
            r.gain == gain,
            r.ppm == ppm,
            r.bias_tee == bias_tee,
            r.mult == mult,
            r.freq == freq,
            r.serial == serial,
    {
        SDRConfig { gain, ppm, bias_tee, mult, freq, serial }
    }

    pub fn get_gain(&self) -> (r: Option<u32>)
        ensures
            r == self.gain,
    {
        self.gain
    }

    pub fn get_ppm(&self) -> (r: Option<i32>)
        ensures
            r == self.ppm,
    {
        self.ppm
    }

    pub fn get_bias_tee(&self) -> (r: Option<bool>)
        ensures
            r == self.bias_tee,
    {
        self.bias_tee
    }

    pub fn get_mult(&self) -> (r: Option<u32>)
        ensures
            r == self.mult,
    {
        self.mult
    }

    pub fn get_freq(&self) -> (r: Option<Vec<String>>)
        ensures
            match (r, self.freq) {
                (Some(a), Some(b)) => same_texts(a@, b@),
                (None, None) => true,
                _ => false,
            },
    {
        match &self.freq {
            Some(v) => Some(copy_texts(v)),
            None => None,
        }
    }

    pub fn get_serial(&self) -> (r: Option<String>)
        ensures
            match (r, self.serial) {
                (Some(a), Some(b)) => a@ == b@,
                (None, None) => true,
                _ => false,
            },
    {
        match &self.serial {
            Some(s) => Some(s.clone()),
            None => None,
        }
    }

    /// Whether the dongle was left unconfigured: neither a serial nor
    /// frequencies given.
    pub fn is_empty(&self) -> (r: bool)
        ensures
            r == (self.serial is None && self.freq is None),
    {
        self.serial.is_none() && self.freq.is_none()
    }
}

} // verus!
