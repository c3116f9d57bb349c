use vstd::prelude::*;

verus! {

/// Why an opcode request body was refused.
#[derive(Clone, Copy, Debug, PartialEq, Eq, Structural)]
pub enum OpcodeParseError {
    /// The body is not UTF-8 text.
    InvalidUtf8,
    /// The text starts with `0x` or `0X` but the rest is not a 16-bit hexadecimal number.
    InvalidHex,
    /// The text is not a 16-bit decimal number.
    InvalidDecimal,
}

/// The text that a byte sequence encodes as UTF-8, or `None` where it is not
/// well-formed UTF-8.
pub uninterp spec fn utf8_text(bytes: Seq<u8>) -> Option<Seq<char>>;

/// A text with its leading and trailing white space removed.
pub uninterp spec fn trimmed(s: Seq<char>) -> Seq<char>;

/// Relies on std::str::from_utf8: it accepts a byte slice exactly when it is
/// well-formed UTF-8, and then returns the text it encodes.
#[verifier::external_body]
fn text_of_bytes(bytes: &[u8]) -> (r: Option<&str>)
    ensures
        match r {
            Some(s) => utf8_text(bytes@) == Some(s@),
            None => utf8_text(bytes@) is None,
        },
{
    std::str::from_utf8(bytes).ok()
}

/// Relies on str::trim: the result depends on the text alone.
#[verifier::external_body]
pub(crate) fn trim_text(s: &str) -> (r: &str)
    ensures
        r@ == trimmed(s@),
{
    s.trim()
}

/// The value of digit `c` in base `radix` (10 or 16), if it is one.
/// Hexadecimal digits may be upper or lower case.
pub open spec fn digit_value(c: char, radix: nat) -> Option<nat> {
    if '0' <= c <= '9' {
        Some((c as u32 - '0' as u32) as nat)
    } else if radix == 16 && 'a' <= c <= 'f' {
        Some((c as u32 - 'a' as u32 + 10) as nat)
    } else if radix == 16 && 'A' <= c <= 'F' {
        Some((c as u32 - 'A' as u32 + 10) as nat)
    } else {
        None
    }
}

pub open spec fn all_digits(s: Seq<char>, radix: nat) -> bool {
    forall|i: int| 0 <= i < s.len() ==> (#[trigger] digit_value(s[i], radix)) is Some
}

/// The number that a sequence of digits writes in base `radix`.
pub open spec fn digits_value(s: Seq<char>, radix: nat) -> nat
    decreases s.len(),
{
    if s.len() == 0 {
        0
    } else {
        digits_value(s.drop_last(), radix) * radix + digit_value(s.last(), radix)->0
    }
}

/// The 16-bit number that `s` writes in base `radix`: one or more digits and
/// nothing else, with a value below 2^16.
pub open spec fn number_value(s: Seq<char>, radix: nat) -> Option<u16> {
    if s.len() > 0 && all_digits(s, radix) && digits_value(s, radix) < 0x10000 {
        Some(digits_value(s, radix) as u16)
    } else {
        None
    }
}

pub open spec fn has_hex_prefix(t: Seq<char>) -> bool {
    t.len() >= 2 && t[0] == '0' && (t[1] == 'x' || t[1] == 'X')
}

/// The opcode that a (trimmed) request text names: hexadecimal after a `0x` or
/// `0X` prefix, decimal otherwise.
pub open spec fn opcode_text_value(t: Seq<char>) -> Result<u16, OpcodeParseError> {
    if has_hex_prefix(t) {
        match number_value(t.subrange(2, t.len() as int), 16) {
            Some(v) => Ok(v),
            None => Err(OpcodeParseError::InvalidHex),
        }
    } else {
        match number_value(t, 10) {
            Some(v) => Ok(v),
            None => Err(OpcodeParseError::InvalidDecimal),
        }
    }
}

/// The opcode that a request body names: UTF-8 text, trimmed of white space.
pub open spec fn opcode_body_value(body: Seq<u8>) -> Result<u16, OpcodeParseError> {
    match utf8_text(body) {
        Some(t) => opcode_text_value(trimmed(t)),
        None => Err(OpcodeParseError::InvalidUtf8),
    }
}

/// A value of a prefix of a digit sequence is at most that of the whole.
proof fn lemma_prefix_value_le(s: Seq<char>, k: int, radix: nat)
    requires
        0 <= k <= s.len(),
        radix >= 1,
    ensures
        digits_value(s.subrange(0, k), radix) <= digits_value(s, radix),
    decreases s.len(),
{
    if k < s.len() {
        lemma_prefix_value_le(s.drop_last(), k, radix);
        assert(s.drop_last().subrange(0, k) =~= s.subrange(0, k));
        let v = digits_value(s.drop_last(), radix);
        assert(v <= v * radix) by (nonlinear_arith)
            requires radix >= 1;
    } else {
        assert(s.subrange(0, k) =~= s);
    }
}

fn digit_of(b: u8, radix: u32) -> (r: Option<u32>)
    requires
        radix == 10 || radix == 16,
    ensures
        match digit_value(b as char, radix as nat) {
            Some(v) => r == Some(v as u32),
            None => r is None,
        },
        r matches Some(v) ==> v < 16,
{
    if b >= 48 && b <= 57 {
        Some((b - 48) as u32)
    } else if radix == 16 && b >= 97 && b <= 102 {
        Some((b - 87) as u32)
    } else if radix == 16 && b >= 65 && b <= 70 {
        Some((b - 55) as u32)
    } else {
        None
    }
}

/// The number written in `radix` by the characters of ASCII text `t` from `start` on.
fn number_from(t: &str, start: usize, radix: u32) -> (r: Option<u16>)
    requires
        t.is_ascii(),
        start <= t@.len(),
        radix == 10 || radix == 16,
    ensures
        r == number_value(t@.subrange(start as int, t@.len() as int), radix as nat),
{
    let n = t.unicode_len();
    let ghost s = t@.subrange(start as int, t@.len() as int);
    if start == n {
        return None;
    }
    let mut acc: u32 = 0;
    let mut i: usize = start;
    while i < n
        invariant
            t.is_ascii(),
            n == t@.len(),
            start <= i <= n,
            radix == 10 || radix == 16,
            s == t@.subrange(start as int, n as int),
            all_digits(s.subrange(0, i - start), radix as nat),
            acc == digits_value(s.subrange(0, i - start), radix as nat),
            acc < 0x10000,
        decreases n - i,
    {
        let b = t.get_ascii(i);
        proof {
            assert('\0' <= t@[i as int] <= '\u{7f}');
            assert(b as char == t@[i as int]);
            assert(s[i - start] == t@[i as int]);
        }
        let d = digit_of(b, radix);
        let ghost pre = s.subrange(0, i - start + 1);
        proof {
            assert(pre.drop_last() =~= s.subrange(0, i - start));
            assert(pre.last() == s[i - start]);
        }
        match d {
            None => {
                assert(!all_digits(s, radix as nat)) by {
                    assert(digit_value(s[i - start], radix as nat) is None);
                }
                return None;
            },
            Some(v) => {
                assert(acc as u64 * radix as u64 <= 0x10000 * 16) by (nonlinear_arith)
                    requires acc < 0x10000, radix <= 16;
                let next = acc as u64 * radix as u64 + v as u64;
                if next >= 0x10000 {
                    proof {
                        assert(digits_value(pre, radix as nat) == next);
                        if all_digits(s, radix as nat) {
                            lemma_prefix_value_le(s, i - start + 1, radix as nat);
                        }
                    }
                    return None;
                }
                acc = next as u32;
                i = i + 1;
                proof {
                    assert forall|j: int| 0 <= j < pre.len() implies (#[trigger] digit_value(
                        pre[j],
                        radix as nat,
                    )) is Some by {
                        if j < i - start - 1 {
                            assert(pre[j] == s.subrange(0, i - start - 1)[j]);
                        }
                    }
                }
            },
        }
    }
    assert(s.subrange(0, n - start) =~= s);
    Some(acc as u16)
}

/// Parses a trimmed opcode text: `0x`/`0X` and hexadecimal digits, or decimal digits.
pub fn parse_opcode_text(t: &str) -> (r: Result<u16, OpcodeParseError>)
    ensures
        r == opcode_text_value(t@),
{
    let n = t.unicode_len();
    let hex = n >= 2 && t.get_char(0) == '0' && (t.get_char(1) == 'x' || t.get_char(1) == 'X');
    assert(hex == has_hex_prefix(t@));
    if !t.is_ascii() {
        proof {
            let k = choose|k: int| 0 <= k < t@.len() && !('\0' <= #[trigger] t@[k] <= '\u{7f}');
            if hex {
                let s = t@.subrange(2, t@.len() as int);
                assert(s[k - 2] == t@[k]);
                assert(digit_value(s[k - 2], 16) is None);
            } else {
                assert(digit_value(t@[k], 10) is None);
            }
        }
        return if hex {
            Err(OpcodeParseError::InvalidHex)
        } else {
            Err(OpcodeParseError::InvalidDecimal)
        };
    }
    if hex {
        match number_from(t, 2, 16) {
            Some(v) => Ok(v),
            None => Err(OpcodeParseError::InvalidHex),
        }
    } else {
        assert(t@.subrange(0, t@.len() as int) =~= t@);
        match number_from(t, 0, 10) {
            Some(v) => Ok(v),
            None => Err(OpcodeParseError::InvalidDecimal),
        }
    }
}

/// Parses an opcode request body: UTF-8 text, trimmed, then as `parse_opcode_text`.
pub fn parse_opcode_body(body: &[u8]) -> (r: Result<u16, OpcodeParseError>)
    ensures
        r == opcode_body_value(body@),
{
    match text_of_bytes(body) {
        None => Err(OpcodeParseError::InvalidUtf8),
        Some(text) => parse_opcode_text(trim_text(text)),
    }
}

/// A number written in hexadecimal after `0x` and the same number written in
/// decimal name the same opcode.
pub proof fn lemma_hex_decimal_agree(h: Seq<char>, d: Seq<char>)
    requires
        h.len() > 0,
        d.len() > 0,
        all_digits(h, 16),
        all_digits(d, 10),
        digits_value(h, 16) == digits_value(d, 10),
        digits_value(d, 10) < 0x10000,
    ensures
        opcode_text_value(seq!['0', 'x'] + h) == Ok::<u16, OpcodeParseError>(
            digits_value(d, 10) as u16,
        ),
        opcode_text_value(d) == opcode_text_value(seq!['0', 'x'] + h),
{
    let t = seq!['0', 'x'] + h;
    assert(t.subrange(2, t.len() as int) =~= h);
    if d.len() >= 2 {
        assert(digit_value(d[1], 10) is Some);
    }
}

} // verus!
