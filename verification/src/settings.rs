//! Saved preferences, their validity, and the read-only migration of the
//! legacy Qt `AirPodsTrayApp.conf` file.
use vstd::prelude::*;
use vstd::utf8::*;

use crate::bytes::utf8_text;
use crate::text::{chars_equal, chars_of, string_of, trim, trim_range};

verus! {

/// The preferences that are kept across restarts.
#[derive(Debug, PartialEq, Eq)]
pub struct Settings {
    /// The published values: 0 = I, 1 = II, 2 = Off.
    pub ear_detection_behavior: u8,
    pub conversational_awareness: bool,
    pub adaptive_noise_level: u8,
    pub one_bud_anc: bool,
    pub device_name: String,
    pub model_number: String,
    pub bluetooth_address: String,
    pub model: u8,
    pub magic_acc_irk: Vec<u8>,
    pub magic_acc_enc_key: Vec<u8>,
}

/// The value of [`Settings`].
pub struct SettingsView {
    pub ear_detection_behavior: u8,
    pub conversational_awareness: bool,
    pub adaptive_noise_level: u8,
    pub one_bud_anc: bool,
    pub device_name: Seq<char>,
    pub model_number: Seq<char>,
    pub bluetooth_address: Seq<char>,
    pub model: u8,
    pub magic_acc_irk: Seq<u8>,
    pub magic_acc_enc_key: Seq<u8>,
}

impl View for Settings {
    type V = SettingsView;

    open spec fn view(&self) -> SettingsView {
        SettingsView {
            ear_detection_behavior: self.ear_detection_behavior,
            conversational_awareness: self.conversational_awareness,
            adaptive_noise_level: self.adaptive_noise_level,
            one_bud_anc: self.one_bud_anc,
            device_name: self.device_name@,
            model_number: self.model_number@,
            bluetooth_address: self.bluetooth_address@,
            model: self.model,
            magic_acc_irk: self.magic_acc_irk@,
            magic_acc_enc_key: self.magic_acc_enc_key@,
        }
    }
}

pub open spec fn default_settings() -> SettingsView {
    SettingsView {
        ear_detection_behavior: 0,
        conversational_awareness: false,
        adaptive_noise_level: 50,
        one_bud_anc: false,
        device_name: Seq::empty(),
        model_number: Seq::empty(),
        bluetooth_address: Seq::empty(),
        model: 0,
        magic_acc_irk: Seq::empty(),
        magic_acc_enc_key: Seq::empty(),
    }
}

impl Clone for Settings {
    fn clone(&self) -> (r: Self)
        ensures
            r@ == self@,
    {
        let irk = self.magic_acc_irk.clone();
        let key = self.magic_acc_enc_key.clone();
        assert(irk@ =~= self.magic_acc_irk@);
        assert(key@ =~= self.magic_acc_enc_key@);
        Settings {
            ear_detection_behavior: self.ear_detection_behavior,
            conversational_awareness: self.conversational_awareness,
            adaptive_noise_level: self.adaptive_noise_level,
            one_bud_anc: self.one_bud_anc,
            device_name: self.device_name.clone(),
            model_number: self.model_number.clone(),
            bluetooth_address: self.bluetooth_address.clone(),
            model: self.model,
            magic_acc_irk: irk,
            magic_acc_enc_key: key,
        }
    }
}

impl Default for Settings {
    fn default() -> (r: Self)
        ensures
            r@ == default_settings(),
    {
        Settings {
            ear_detection_behavior: 0,
            conversational_awareness: false,
            adaptive_noise_level: 50,
            one_bud_anc: false,
            device_name: String::new(),
            model_number: String::new(),
            bluetooth_address: String::new(),
            model: 0,
            magic_acc_irk: Vec::new(),
            magic_acc_enc_key: Vec::new(),
        }
    }
}

/// Why saved or legacy preferences were refused.
#[derive(Clone, Copy, Debug, PartialEq, Eq)]
pub struct SettingsError(pub &'static str);

impl SettingsError {
    pub fn message(&self) -> (r: &'static str)
        ensures
            r == self.0,
    {
        self.0
    }
}

/// The outcome by the view of the settings and the text of the error.
pub open spec fn settings_view(r: Result<Settings, SettingsError>) -> Result<SettingsView, Seq<char>> {
    match r {
        Ok(s) => Ok(s@),
        Err(e) => Err(e.0@),
    }
}

pub open spec fn unit_view(r: Result<(), SettingsError>) -> Result<(), Seq<char>> {
    match r {
        Ok(()) => Ok(()),
        Err(e) => Err(e.0@),
    }
}

/// A pairing key is absent (empty) or 16 bytes.
pub open spec fn key_length_valid(key: Seq<u8>) -> bool {
    key.len() == 0 || key.len() == 16
}

/// Saved preferences are in range, and pairing keys have a valid length.
pub open spec fn spec_validate(s: SettingsView) -> Result<(), Seq<char>> {
    if s.ear_detection_behavior > 2 || s.adaptive_noise_level > 100 {
        Err("saved AirPods preference is out of range"@)
    } else if !key_length_valid(s.magic_acc_irk) || !key_length_valid(s.magic_acc_enc_key) {
        Err("saved AirPods pairing key has invalid length"@)
    } else {
        Ok(())
    }
}

impl Settings {
    pub fn validate(&self) -> (r: Result<(), SettingsError>)
        ensures
            unit_view(r) == spec_validate(self@),
    {
        if self.ear_detection_behavior > 2 || self.adaptive_noise_level > 100 {
            return Err(SettingsError("saved AirPods preference is out of range"));
        }
        if (self.magic_acc_irk.len() != 0 && self.magic_acc_irk.len() != 16) || (
        self.magic_acc_enc_key.len() != 0 && self.magic_acc_enc_key.len() != 16) {
            return Err(SettingsError("saved AirPods pairing key has invalid length"));
        }
        Ok(())
    }
}

/// A decimal digit's value.
pub open spec fn decimal_digit(c: char) -> Option<u8> {
    if '0' <= c <= '9' {
        Some(((c as u32) - 48) as u8)
    } else {
        None
    }
}

/// The value of the first `k` digits, as `u8::from_str` reads them from left to right.
pub open spec fn digits_value(s: Seq<char>, k: nat) -> Result<u8, Seq<char>>
    decreases k,
{
    if k == 0 {
        Ok(0)
    } else {
        match digits_value(s, (k - 1) as nat) {
            Err(e) => Err(e),
            Ok(v) => match decimal_digit(s[k - 1]) {
                None => Err("invalid digit found in string"@),
                Some(d) => if v * 10 + d > 255 {
                    Err("number too large to fit in target type"@)
                } else {
                    Ok((v * 10 + d) as u8)
                },
            },
        }
    }
}

/// `u8::from_str`: an optional `+` and decimal digits, at most 255.
pub open spec fn spec_parse_u8(s: Seq<char>) -> Result<u8, Seq<char>> {
    if s.len() == 0 {
        Err("cannot parse integer from empty string"@)
    } else if s.len() == 1 && (s[0] == '+' || s[0] == '-') {
        Err("invalid digit found in string"@)
    } else if s[0] == '+' {
        digits_value(s.drop_first(), (s.len() - 1) as nat)
    } else {
        digits_value(s, s.len())
    }
}

pub open spec fn u8_view(r: Result<u8, SettingsError>) -> Result<u8, Seq<char>> {
    match r {
        Ok(v) => Ok(v),
        Err(e) => Err(e.0@),
    }
}

proof fn lemma_digits_error_persists(s: Seq<char>, k: nat, m: nat)
    requires
        k <= m,
        digits_value(s, k) is Err,
    ensures
        digits_value(s, m) == digits_value(s, k),
    decreases m - k,
{
    if k < m {
        lemma_digits_error_persists(s, k, (m - 1) as nat);
    }
}

/// Reads `chars[start..end]` as `u8::from_str` does.
pub fn parse_u8(chars: &Vec<char>, start: usize, end: usize) -> (r: Result<u8, SettingsError>)
    requires
        start <= end <= chars@.len(),
    ensures
        u8_view(r) == spec_parse_u8(chars@.subrange(start as int, end as int)),
{
    let ghost s = chars@.subrange(start as int, end as int);
    if start == end {
        return Err(SettingsError("cannot parse integer from empty string"));
    }
    if end - start == 1 && (chars[start] == '+' || chars[start] == '-') {
        return Err(SettingsError("invalid digit found in string"));
    }
    let first = if chars[start] == '+' {
        start + 1
    } else {
        start
    };
    let ghost digits = chars@.subrange(first as int, end as int);
    assert(s[0] == '+' ==> s.drop_first() =~= digits);
    assert(s[0] != '+' ==> s =~= digits);
    let mut value: u8 = 0;
    let mut i = first;
    while i < end
        invariant
            start <= first <= i <= end <= chars@.len(),
            digits == chars@.subrange(first as int, end as int),
            spec_parse_u8(chars@.subrange(start as int, end as int)) == digits_value(
                digits,
                digits.len(),
            ),
            digits_value(digits, (i - first) as nat) == Ok::<u8, Seq<char>>(value),
        decreases end - i,
    {
        let c = chars[i];
        if !('0' <= c && c <= '9') {
            proof {
                lemma_digits_error_persists(digits, (i - first + 1) as nat, digits.len());
            }
            return Err(SettingsError("invalid digit found in string"));
        }
        let d = (c as u32 - 48) as u8;
        if value > 25 || (value == 25 && d > 5) {
            proof {
                lemma_digits_error_persists(digits, (i - first + 1) as nat, digits.len());
            }
            return Err(SettingsError("number too large to fit in target type"));
        }
        value = value * 10 + d;
        i = i + 1;
    }
    Ok(value)
}

/// Qt's boolean spellings.
pub open spec fn spec_legacy_bool(s: Seq<char>) -> Result<bool, Seq<char>> {
    if s == "true"@ || s == "1"@ {
        Ok(true)
    } else if s == "false"@ || s == "0"@ {
        Ok(false)
    } else {
        Err("invalid legacy boolean preference"@)
    }
}

pub fn legacy_bool(chars: &Vec<char>, start: usize, end: usize) -> (r: Result<bool, SettingsError>)
    requires
        start <= end <= chars@.len(),
    ensures
        match r {
            Ok(b) => spec_legacy_bool(chars@.subrange(start as int, end as int)) == Ok::<
                bool,
                Seq<char>,
            >(b),
            Err(e) => spec_legacy_bool(chars@.subrange(start as int, end as int)) == Err::<
                bool,
                Seq<char>,
            >(e.0@),
        },
{
    if chars_equal(chars, start, end, &chars_of("true")) || chars_equal(
        chars,
        start,
        end,
        &chars_of("1"),
    ) {
        Ok(true)
    } else if chars_equal(chars, start, end, &chars_of("false")) || chars_equal(
        chars,
        start,
        end,
        &chars_of("0"),
    ) {
        Ok(false)
    } else {
        Err(SettingsError("invalid legacy boolean preference"))
    }
}

/// The value between one pair of enclosing double quotes, if it has them.
pub open spec fn spec_unquote(s: Seq<char>) -> Seq<char> {
    if s.len() >= 2 && s[0] == '"' && s.last() == '"' {
        s.subrange(1, s.len() - 1)
    } else {
        s
    }
}

pub fn unquote(chars: &Vec<char>, start: usize, end: usize) -> (r: (usize, usize))
    requires
        start <= end <= chars@.len(),
    ensures
        start <= r.0 <= r.1 <= end,
        chars@.subrange(r.0 as int, r.1 as int) == spec_unquote(
            chars@.subrange(start as int, end as int),
        ),
{
    if end - start >= 2 && chars[start] == '"' && chars[end - 1] == '"' {
        assert(chars@.subrange(start + 1, end - 1) =~= chars@.subrange(
            start as int,
            end as int,
        ).subrange(1, end - start - 1));
        (start + 1, end - 1)
    } else {
        (start, end)
    }
}

/// A hexadecimal digit as `char::to_digit(16)` reads the byte.
pub open spec fn hex_value(b: u8) -> Option<u8> {
    if 48 <= b <= 57 {
        Some((b - 48) as u8)
    } else if 97 <= b <= 102 {
        Some((b - 87) as u8)
    } else if 65 <= b <= 70 {
        Some((b - 55) as u8)
    } else {
        None
    }
}

fn hex_value_of(b: u8) -> (r: Option<u8>)
    ensures
        r == hex_value(b),
{
    if 48 <= b && b <= 57 {
        Some(b - 48)
    } else if 97 <= b && b <= 102 {
        Some(b - 87)
    } else if 65 <= b && b <= 70 {
        Some(b - 55)
    } else {
        None
    }
}

/// The byte of a one-character Qt escape (after the backslash).
pub open spec fn simple_escape(b: u8) -> Option<u8> {
    if b == 48 {
        Some(0u8)
    } else if b == 97 {
        Some(7u8)
    } else if b == 98 {
        Some(8u8)
    } else if b == 102 {
        Some(12u8)
    } else if b == 110 {
        Some(10u8)
    } else if b == 114 {
        Some(13u8)
    } else if b == 116 {
        Some(9u8)
    } else if b == 118 {
        Some(11u8)
    } else if b == 92 || b == 34 || b == 39 {
        Some(b)
    } else {
        None
    }
}

/// The bytes of Qt's escaped text: `\0 \a \b \f \n \r \t \v \\ \" \'` and
/// `\x` with one or two hexadecimal digits.
pub open spec fn spec_unescape(s: Seq<u8>) -> Result<Seq<u8>, Seq<char>>
    decreases s.len(),
{
    if s.len() == 0 {
        Ok(Seq::empty())
    } else if s[0] != 92 {
        match spec_unescape(s.drop_first()) {
            Ok(rest) => Ok(seq![s[0]] + rest),
            Err(e) => Err(e),
        }
    } else if s.len() == 1 {
        Err("unfinished legacy escape"@)
    } else if s[1] == 120 {
        if s.len() < 3 || hex_value(s[2]) is None {
            Err("invalid legacy hexadecimal escape"@)
        } else if s.len() >= 4 && hex_value(s[3]) is Some {
            match spec_unescape(s.skip(4)) {
                Ok(rest) => Ok(
                    seq![(hex_value(s[2])->0 * 16 + hex_value(s[3])->0) as u8] + rest,
                ),
                Err(e) => Err(e),
            }
        } else {
            match spec_unescape(s.skip(3)) {
                Ok(rest) => Ok(seq![hex_value(s[2])->0] + rest),
                Err(e) => Err(e),
            }
        }
    } else {
        match simple_escape(s[1]) {
            None => Err("unknown legacy escape"@),
            Some(b) => match spec_unescape(s.skip(2)) {
                Ok(rest) => Ok(seq![b] + rest),
                Err(e) => Err(e),
            },
        }
    }
}

pub open spec fn bytes_view(r: Result<Vec<u8>, SettingsError>) -> Result<Seq<u8>, Seq<char>> {
    match r {
        Ok(v) => Ok(v@),
        Err(e) => Err(e.0@),
    }
}

/// The unescaped remainder after `done` has been produced from a prefix.
pub open spec fn prefixed(done: Seq<u8>, rest: Result<Seq<u8>, Seq<char>>) -> Result<Seq<u8>, Seq<char>> {
    match rest {
        Ok(r) => Ok(done + r),
        Err(e) => Err(e),
    }
}

proof fn lemma_prefixed_push(done: Seq<u8>, b: u8, rest: Result<Seq<u8>, Seq<char>>)
    ensures
        prefixed(done, match rest {
            Ok(r) => Ok(seq![b] + r),
            Err(e) => Err(e),
        }) == prefixed(done.push(b), rest),
{
    if rest is Ok {
        assert(done + (seq![b] + rest->Ok_0) =~= done.push(b) + rest->Ok_0);
    }
}

/// Unescapes Qt's escaped text.
pub fn unescape(value: &[u8]) -> (r: Result<Vec<u8>, SettingsError>)
    ensures
        bytes_view(r) == spec_unescape(value@),
{
    let mut output: Vec<u8> = Vec::new();
    let mut i: usize = 0;
    let n = value.len();
    proof {
        assert(value@.skip(0) =~= value@);
        if spec_unescape(value@) is Ok {
            assert(output@ + spec_unescape(value@)->Ok_0 =~= spec_unescape(value@)->Ok_0);
        }
    }
    while i < n
        invariant
            n == value@.len(),
            i <= n,
            spec_unescape(value@) == prefixed(output@, spec_unescape(value@.skip(i as int))),
        decreases n - i,
    {
        let ghost s = value@.skip(i as int);
        let byte = value[i];
        if byte != 92 {
            proof {
                assert(s.drop_first() =~= value@.skip(i + 1));
                lemma_prefixed_push(output@, byte, spec_unescape(s.drop_first()));
            }
            output.push(byte);
            i = i + 1;
        } else {
            if i + 1 >= n {
                return Err(SettingsError("unfinished legacy escape"));
            }
            let escaped = value[i + 1];
            if escaped == 120 {
                let first = if i + 2 < n {
                    hex_value_of(value[i + 2])
                } else {
                    None
                };
                match first {
                    None => {
                        return Err(SettingsError("invalid legacy hexadecimal escape"));
                    },
                    Some(high) => {
                        let second = if i + 3 < n {
                            hex_value_of(value[i + 3])
                        } else {
                            None
                        };
                        match second {
                            Some(low) => {
                                proof {
                                    assert(s.skip(4) =~= value@.skip(i + 4));
                                    lemma_prefixed_push(
                                        output@,
                                        (high * 16 + low) as u8,
                                        spec_unescape(s.skip(4)),
                                    );
                                }
                                output.push(high * 16 + low);
                                i = i + 4;
                            },
                            None => {
                                proof {
                                    assert(s.skip(3) =~= value@.skip(i + 3));
                                    lemma_prefixed_push(output@, high, spec_unescape(s.skip(3)));
                                }
                                output.push(high);
                                i = i + 3;
                            },
                        }
                    },
                }
            } else {
                let decoded = if escaped == 48 {
                    Some(0u8)
                } else if escaped == 97 {
                    Some(7u8)
                } else if escaped == 98 {
                    Some(8u8)
                } else if escaped == 102 {
                    Some(12u8)
                } else if escaped == 110 {
                    Some(10u8)
                } else if escaped == 114 {
                    Some(13u8)
                } else if escaped == 116 {
                    Some(9u8)
                } else if escaped == 118 {
                    Some(11u8)
                } else if escaped == 92 || escaped == 34 || escaped == 39 {
                    Some(escaped)
                } else {
                    None
                };
                match decoded {
                    None => {
                        return Err(SettingsError("unknown legacy escape"));
                    },
                    Some(b) => {
                        proof {
                            assert(s.skip(2) =~= value@.skip(i + 2));
                            lemma_prefixed_push(output@, b, spec_unescape(s.skip(2)));
                        }
                        output.push(b);
                        i = i + 2;
                    },
                }
            }
        }
    }
    proof {
        assert(value@.skip(n as int) =~= Seq::<u8>::empty());
        assert(output@ + Seq::<u8>::empty() =~= output@);
    }
    Ok(output)
}


/// The position of the first `c`.
pub open spec fn first_index(s: Seq<char>, c: char) -> Option<int>
    decreases s.len(),
{
    if s.len() == 0 {
        None
    } else if s[0] == c {
        Some(0)
    } else {
        match first_index(s.drop_first(), c) {
            Some(i) => Some(i + 1),
            None => None,
        }
    }
}

pub proof fn lemma_first_index_bounds(s: Seq<char>, c: char)
    ensures
        first_index(s, c) matches Some(i) ==> 0 <= i < s.len() && s[i] == c,
    decreases s.len(),
{
    if s.len() > 0 {
        lemma_first_index_bounds(s.drop_first(), c);
    }
}

proof fn lemma_first_index(s: Seq<char>, c: char, k: int)
    requires
        0 <= k <= s.len(),
        forall|j: int| 0 <= j < k ==> s[j] != c,
    ensures
        k < s.len() && s[k] == c ==> first_index(s, c) == Some(k),
        k == s.len() ==> first_index(s, c) is None,
    decreases k,
{
    if k > 0 {
        lemma_first_index(s.drop_first(), c, k - 1);
    }
}

/// Finds the first `c` in `chars[start..end]`; `end` when there is none.
fn find_char(chars: &Vec<char>, start: usize, end: usize, c: char) -> (r: usize)
    requires
        start <= end <= chars@.len(),
    ensures
        start <= r <= end,
        r < end ==> first_index(chars@.subrange(start as int, end as int), c) == Some(r - start),
        r == end ==> first_index(chars@.subrange(start as int, end as int), c) is None,
{
    let mut i = start;
    while i < end && chars[i] != c
        invariant
            start <= i <= end <= chars@.len(),
            forall|j: int| start <= j < i ==> chars@[j] != c,
        decreases end - i,
    {
        i = i + 1;
    }
    proof {
        lemma_first_index(chars@.subrange(start as int, end as int), c, i - start);
    }
    i
}

/// Qt writes `\` in key names where a group separator `/` is meant.
pub open spec fn slashes(s: Seq<char>) -> Seq<char> {
    s.map_values(|c: char| if c == '\\' { '/' } else { c })
}

/// A legacy text value: unquoted, unescaped, and valid UTF-8.
pub open spec fn spec_legacy_string(value: Seq<char>) -> Result<Seq<char>, Seq<char>> {
    match spec_unescape(encode_utf8(spec_unquote(value))) {
        Err(e) => Err(e),
        Ok(bytes) => if valid_utf8(bytes) {
            Ok(decode_utf8(bytes))
        } else {
            Err("invalid utf-8 sequence"@)
        },
    }
}

/// A legacy key: unquoted `@ByteArray(...)` with escaped contents.
pub open spec fn spec_legacy_byte_array(value: Seq<char>) -> Result<Seq<u8>, Seq<char>> {
    let v = spec_unquote(value);
    if v.len() >= 12 && v.take(11) == "@ByteArray("@ && v.last() == ')' {
        spec_unescape(encode_utf8(v.subrange(11, v.len() - 1)))
    } else {
        Err("invalid legacy pairing key encoding"@)
    }
}

pub fn legacy_string(chars: &Vec<char>, start: usize, end: usize) -> (r: Result<String, SettingsError>)
    requires
        start <= end <= chars@.len(),
    ensures
        match r {
            Ok(s) => spec_legacy_string(chars@.subrange(start as int, end as int)) == Ok::<
                Seq<char>,
                Seq<char>,
            >(s@),
            Err(e) => spec_legacy_string(chars@.subrange(start as int, end as int)) == Err::<
                Seq<char>,
                Seq<char>,
            >(e.0@),
        },
{
    let (a, b) = unquote(chars, start, end);
    let text = string_of(chars, a, b);
    let bytes = match unescape(text.as_str().as_bytes()) {
        Ok(bytes) => bytes,
        Err(e) => return Err(e),
    };
    match utf8_text(bytes.as_slice()) {
        Some(s) => Ok(s.to_owned()),
        None => Err(SettingsError("invalid utf-8 sequence")),
    }
}

pub fn legacy_byte_array(chars: &Vec<char>, start: usize, end: usize) -> (r: Result<Vec<u8>, SettingsError>)
    requires
        start <= end <= chars@.len(),
    ensures
        bytes_view(r) == spec_legacy_byte_array(chars@.subrange(start as int, end as int)),
{
    let (a, b) = unquote(chars, start, end);
    let ghost v = chars@.subrange(a as int, b as int);
    let prefix = chars_of("@ByteArray(");
    if b - a >= 12 && chars_equal(chars, a, a + 11, &prefix) && chars[b - 1] == ')' {
        assert(chars@.subrange(a as int, a + 11) =~= v.take(11));
        assert(chars@.subrange(a + 11, b - 1) =~= v.subrange(11, v.len() - 1));
        let text = string_of(chars, a + 11, b - 1);
        unescape(text.as_str().as_bytes())
    } else {
        proof {
            if v.len() >= 12 && v.take(11) == "@ByteArray("@ && v.last() == ')' {
                assert(chars@.subrange(a as int, a + 11) =~= v.take(11));
            }
        }
        Err(SettingsError("invalid legacy pairing key encoding"))
    }
}

/// A legacy `key=value` entry applied to the preferences it names; other keys
/// stay in the legacy file, untouched.
#[verifier::opaque]
pub open spec fn apply_key(v: SettingsView, key: Seq<char>, value: Seq<char>) -> Result<SettingsView, Seq<char>> {
    if key == "earDetection/setting"@ {
        match spec_parse_u8(value) {
            Ok(x) => Ok(SettingsView { ear_detection_behavior: x, ..v }),
            Err(e) => Err(e),
        }
    } else if key == "DeviceInfo/conversationalAwareness"@ {
        match spec_legacy_bool(value) {
            Ok(x) => Ok(SettingsView { conversational_awareness: x, ..v }),
            Err(e) => Err(e),
        }
    } else if key == "DeviceInfo/adaptiveNoiseLevel"@ {
        match spec_parse_u8(value) {
            Ok(x) => Ok(SettingsView { adaptive_noise_level: x, ..v }),
            Err(e) => Err(e),
        }
    } else if key == "DeviceInfo/oneBudANCMode"@ {
        match spec_legacy_bool(value) {
            Ok(x) => Ok(SettingsView { one_bud_anc: x, ..v }),
            Err(e) => Err(e),
        }
    } else if key == "DeviceInfo/deviceName"@ {
        match spec_legacy_string(value) {
            Ok(x) => Ok(SettingsView { device_name: x, ..v }),
            Err(e) => Err(e),
        }
    } else if key == "DeviceInfo/modelNumber"@ {
        match spec_legacy_string(value) {
            Ok(x) => Ok(SettingsView { model_number: x, ..v }),
            Err(e) => Err(e),
        }
    } else if key == "DeviceInfo/bluetoothAddress"@ {
        match spec_legacy_string(value) {
            Ok(x) => Ok(SettingsView { bluetooth_address: x, ..v }),
            Err(e) => Err(e),
        }
    } else if key == "DeviceInfo/model"@ {
        match spec_parse_u8(value) {
            Ok(x) => Ok(SettingsView { model: x, ..v }),
            Err(e) => Err(e),
        }
    } else if key == "DeviceInfo/magicAccIRK"@ {
        match spec_legacy_byte_array(value) {
            Ok(x) => Ok(SettingsView { magic_acc_irk: x, ..v }),
            Err(e) => Err(e),
        }
    } else if key == "DeviceInfo/magicAccEncKey"@ {
        match spec_legacy_byte_array(value) {
            Ok(x) => Ok(SettingsView { magic_acc_enc_key: x, ..v }),
            Err(e) => Err(e),
        }
    } else {
        Ok(v)
    }
}

/// One line of the legacy file, with the current `[group]`: blank lines and
/// `;` or `#` comments are skipped, `[name]` opens a group, and `name=value`
/// sets the key `group/name`.
#[verifier::opaque]
pub open spec fn legacy_step(state: (SettingsView, Seq<char>), line: Seq<char>) -> Result<
    (SettingsView, Seq<char>),
    Seq<char>,
> {
    let l = trim(line);
    if l.len() == 0 || l[0] == ';' || l[0] == '#' {
        Ok(state)
    } else if l.len() >= 2 && l[0] == '[' && l.last() == ']' {
        Ok((state.0, l.subrange(1, l.len() - 1)))
    } else {
        match first_index(l, '=') {
            None => Ok(state),
            Some(i) => match apply_key(
                state.0,
                state.1 + seq!['/'] + slashes(trim(l.take(i))),
                trim(l.skip(i + 1)),
            ) {
                Ok(v) => Ok((v, state.1)),
                Err(e) => Err(e),
            },
        }
    }
}

/// The lines of `text` (as `str::lines` splits them) applied in order.
pub open spec fn legacy_fold(state: (SettingsView, Seq<char>), text: Seq<char>) -> Result<
    (SettingsView, Seq<char>),
    Seq<char>,
>
    decreases text.len(),
{
    if text.len() == 0 {
        Ok(state)
    } else {
        match first_index(text, '\n') {
            None => legacy_step(state, text),
            Some(i) => {
                proof {
                    lemma_first_index_bounds(text, '\n');
                }
                let raw = text.take(i);
                let line = if raw.len() > 0 && raw.last() == '\r' {
                    raw.drop_last()
                } else {
                    raw
                };
                match legacy_step(state, line) {
                    Err(e) => Err(e),
                    Ok(next) => legacy_fold(next, text.skip(i + 1)),
                }
            },
        }
    }
}

/// The preferences migrated from a legacy file.
pub open spec fn spec_from_legacy(text: Seq<char>) -> Result<SettingsView, Seq<char>> {
    match legacy_fold((default_settings(), Seq::empty()), text) {
        Err(e) => Err(e),
        Ok((v, _)) => match spec_validate(v) {
            Ok(()) => Ok(v),
            Err(e) => Err(e),
        },
    }
}

fn same_chars(a: &Vec<char>, b: &str) -> (r: bool)
    ensures
        r == (a@ == b@),
{
    let expected = chars_of(b);
    let r = chars_equal(a, 0, a.len(), &expected);
    assert(a@.subrange(0, a@.len() as int) =~= a@);
    r
}

/// Applies the value of a known key to the preferences.
fn apply_legacy_key(settings: &mut Settings, key: &Vec<char>, chars: &Vec<char>, start: usize, end: usize) -> (r: Result<(), SettingsError>)
    requires
        start <= end <= chars@.len(),
    ensures
        match r {
            Ok(()) => apply_key(old(settings)@, key@, chars@.subrange(start as int, end as int))
                == Ok::<SettingsView, Seq<char>>(final(settings)@),
            Err(e) => apply_key(old(settings)@, key@, chars@.subrange(start as int, end as int))
                == Err::<SettingsView, Seq<char>>(e.0@),
        },
{
    reveal(apply_key);
    if same_chars(key, "earDetection/setting") {
        match parse_u8(chars, start, end) {
            Ok(x) => settings.ear_detection_behavior = x,
            Err(e) => return Err(e),
        }
    } else if same_chars(key, "DeviceInfo/conversationalAwareness") {
        match legacy_bool(chars, start, end) {
            Ok(x) => settings.conversational_awareness = x,
            Err(e) => return Err(e),
        }
    } else if same_chars(key, "DeviceInfo/adaptiveNoiseLevel") {
        match parse_u8(chars, start, end) {
            Ok(x) => settings.adaptive_noise_level = x,
            Err(e) => return Err(e),
        }
    } else if same_chars(key, "DeviceInfo/oneBudANCMode") {
        match legacy_bool(chars, start, end) {
            Ok(x) => settings.one_bud_anc = x,
            Err(e) => return Err(e),
        }
    } else if same_chars(key, "DeviceInfo/deviceName") {
        match legacy_string(chars, start, end) {
            Ok(x) => settings.device_name = x,
            Err(e) => return Err(e),
        }
    } else if same_chars(key, "DeviceInfo/modelNumber") {
        match legacy_string(chars, start, end) {
            Ok(x) => settings.model_number = x,
            Err(e) => return Err(e),
        }
    } else if same_chars(key, "DeviceInfo/bluetoothAddress") {
        match legacy_string(chars, start, end) {
            Ok(x) => settings.bluetooth_address = x,
            Err(e) => return Err(e),
        }
    } else if same_chars(key, "DeviceInfo/model") {
        match parse_u8(chars, start, end) {
            Ok(x) => settings.model = x,
            Err(e) => return Err(e),
        }
    } else if same_chars(key, "DeviceInfo/magicAccIRK") {
        match legacy_byte_array(chars, start, end) {
            Ok(x) => settings.magic_acc_irk = x,
            Err(e) => return Err(e),
        }
    } else if same_chars(key, "DeviceInfo/magicAccEncKey") {
        match legacy_byte_array(chars, start, end) {
            Ok(x) => settings.magic_acc_enc_key = x,
            Err(e) => return Err(e),
        }
    }
    Ok(())
}

/// Applies one line (`chars[start..end]`) with the current group (`chars[group.0..group.1]`).
fn legacy_line(
    settings: &mut Settings,
    group: &mut (usize, usize),
    chars: &Vec<char>,
    start: usize,
    end: usize,
) -> (r: Result<(), SettingsError>)
    requires
        start <= end <= chars@.len(),
        old(group).0 <= old(group).1 <= chars@.len(),
    ensures
        final(group).0 <= final(group).1 <= chars@.len(),
        match r {
            Ok(()) => legacy_step(
                (old(settings)@, chars@.subrange(old(group).0 as int, old(group).1 as int)),
                chars@.subrange(start as int, end as int),
            ) == Ok::<(SettingsView, Seq<char>), Seq<char>>(
                (final(settings)@, chars@.subrange(final(group).0 as int, final(group).1 as int)),
            ),
            Err(e) => legacy_step(
                (old(settings)@, chars@.subrange(old(group).0 as int, old(group).1 as int)),
                chars@.subrange(start as int, end as int),
            ) == Err::<(SettingsView, Seq<char>), Seq<char>>(e.0@),
        },
{
    reveal(legacy_step);
    let ghost line = chars@.subrange(start as int, end as int);
    let (a, b) = trim_range(chars, start, end);
    let ghost l = chars@.subrange(a as int, b as int);
    if a == b || chars[a] == ';' || chars[a] == '#' {
        return Ok(());
    }
    if b - a >= 2 && chars[a] == '[' && chars[b - 1] == ']' {
        assert(chars@.subrange(a + 1, b - 1) =~= l.subrange(1, l.len() - 1));
        *group = (a + 1, b - 1);
        return Ok(());
    }
    let k = find_char(chars, a, b, '=');
    if k == b {
        return Ok(());
    }
    let (na, nb) = trim_range(chars, a, k);
    let (va, vb) = trim_range(chars, k + 1, b);
    assert(chars@.subrange(a as int, k as int) =~= l.take(k - a));
    assert(chars@.subrange(k + 1, b as int) =~= l.skip(k - a + 1));
    let mut key: Vec<char> = Vec::new();
    let mut i = group.0;
    while i < group.1
        invariant
            group.0 <= i <= group.1 <= chars@.len(),
            key@ == chars@.subrange(group.0 as int, i as int),
        decreases group.1 - i,
    {
        key.push(chars[i]);
        i = i + 1;
        assert(key@ =~= chars@.subrange(group.0 as int, i as int));
    }
    key.push('/');
    let ghost prefix = key@;
    let mut j = na;
    while j < nb
        invariant
            na <= j <= nb <= chars@.len(),
            key@ == prefix + slashes(chars@.subrange(na as int, j as int)),
        decreases nb - j,
    {
        let c = chars[j];
        key.push(if c == '\\' { '/' } else { c });
        j = j + 1;
        assert(key@ =~= prefix + slashes(chars@.subrange(na as int, j as int)));
    }
    assert(key@ =~= chars@.subrange(group.0 as int, group.1 as int) + seq!['/'] + slashes(
        trim(l.take(k - a)),
    ));
    apply_legacy_key(settings, &key, chars, va, vb)
}

impl Settings {
    /// Reads the preferences of the legacy Qt file. The legacy file itself is
    /// never changed; keys it holds for other features are ignored.
    pub fn from_legacy(contents: &str) -> (r: Result<Settings, SettingsError>)
        ensures
            settings_view(r) == spec_from_legacy(contents@),
    {
        let chars = chars_of(contents);
        let n = chars.len();
        let mut settings = Settings::default();
        let mut group: (usize, usize) = (0, 0);
        let mut pos: usize = 0;
        assert(chars@.skip(0) =~= chars@);
        assert(chars@.subrange(0, 0) =~= Seq::<char>::empty());
        while pos < n
            invariant
                n == chars@.len(),
                chars@ == contents@,
                pos <= n,
                group.0 <= group.1 <= n,
                legacy_fold((default_settings(), Seq::empty()), contents@) == legacy_fold(
                    (settings@, chars@.subrange(group.0 as int, group.1 as int)),
                    chars@.skip(pos as int),
                ),
            decreases n - pos,
        {
            let ghost rest = chars@.skip(pos as int);
            let j = find_char(&chars, pos, n, '\n');
            assert(chars@.subrange(pos as int, n as int) =~= rest);
            let line_end = if j < n && j > pos && chars[j - 1] == '\r' {
                j - 1
            } else {
                j
            };
            proof {
                if j < n {
                    assert(rest.take(j - pos) =~= chars@.subrange(pos as int, j as int));
                    if j > pos && chars@[j - 1] == '\r' {
                        assert(rest.take(j - pos).drop_last() =~= chars@.subrange(
                            pos as int,
                            line_end as int,
                        ));
                    }
                    assert(rest.skip(j - pos + 1) =~= chars@.skip(j + 1));
                }
            }
            match legacy_line(&mut settings, &mut group, &chars, pos, line_end) {
                Ok(()) => {},
                Err(e) => return Err(e),
            }
            pos = if j < n {
                j + 1
            } else {
                n
            };
        }
        match settings.validate() {
            Ok(()) => Ok(settings),
            Err(e) => Err(e),
        }
    }
}

/// Preferences migrated from a legacy file are always within range: a value
/// out of range is reported, never adopted.
pub proof fn law_migrated_settings_are_valid(text: Seq<char>)
    ensures
        spec_from_legacy(text) matches Ok(v) ==> spec_validate(v) is Ok,
{
}

/// The value of a hexadecimal digit byte: `0`-`9`, `a`-`f` or `A`-`F`.
pub open spec fn is_hex_digit(b: u8) -> bool {
    (48 <= b <= 57) || (97 <= b <= 102) || (65 <= b <= 70)
}

/// A two-digit `\x` escape stands for sixteen times its first digit plus its
/// second (so `\x9b` is 0x9b); a one-digit escape followed by something else
/// stands for that digit; both are followed by the rest, unescaped.
pub proof fn law_hex_escape_value(a: u8, b: u8, rest: Seq<u8>)
    requires
        is_hex_digit(a),
    ensures
        ({
            let da: int = if a <= 57 { a - 48 } else if a >= 97 { a - 87 } else { a - 55 };
            let db: int = if b <= 57 { b - 48 } else if b >= 97 { b - 87 } else { b - 55 };
            &&& is_hex_digit(b) ==> spec_unescape(seq![92u8, 120u8, a, b] + rest) == match spec_unescape(rest) {
                Ok(t) => Ok(seq![(16 * da + db) as u8] + t),
                Err(e) => Err(e),
            }
            &&& !is_hex_digit(b) ==> spec_unescape(seq![92u8, 120u8, a, b] + rest) == match spec_unescape(seq![b] + rest) {
                Ok(t) => Ok(seq![da as u8] + t),
                Err(e) => Err(e),
            }
        }),
{
    let s = seq![92u8, 120u8, a, b] + rest;
    assert(s[0] == 92 && s[1] == 120 && s[2] == a && s[3] == b);
    assert(s.skip(4) =~= rest);
    assert(s.skip(3) =~= seq![b] + rest);
}

/// Text without a backslash is its own unescaped form.
pub proof fn law_unescape_plain(s: Seq<u8>)
    requires
        forall|i: int| 0 <= i < s.len() ==> s[i] != 92,
    ensures
        spec_unescape(s) == Ok::<Seq<u8>, Seq<char>>(s),
    decreases s.len(),
{
    if s.len() > 0 {
        law_unescape_plain(s.drop_first());
        assert(seq![s[0]] + s.drop_first() =~= s);
    } else {
        assert(s =~= Seq::<u8>::empty());
    }
}

} // verus!
