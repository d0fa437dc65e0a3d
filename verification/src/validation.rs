//! Validation of what nodes send each other: ids, addresses and message
//! formats.

use vstd::prelude::*;
use vstd::string::StringSliceAdditionalSpecFns;

verus! {

/// Why a value was rejected.
#[derive(Debug, Clone, Copy, PartialEq, Eq, Structural)]
pub enum ValidationError {
    /// The text is no UUID.
    InvalidUuid,
    /// The text is no IPv4 address in dotted decimal form.
    InvalidIpAddress,
    /// The pattern could not be compiled.
    InvalidPattern,
    /// The message does not match the pattern.
    InvalidMessageFormat,
}

/// The error of `uuid::Uuid::parse_str`. It is carried through; nothing
/// inside it is read.
#[verifier::external_type_specification]
#[verifier::external_body]
pub struct ExUuidError(uuid::Error);

/// The error of `regex::Regex::new`. It is carried through; nothing
/// inside it is read.
#[verifier::external_type_specification]
#[verifier::external_body]
pub struct ExRegexError(regex::Error);

/// The 128-bit value of the UUID that `text` denotes, if it denotes one:
/// what `uuid::Uuid::parse_str` makes of the text.
pub uninterp spec fn uuid_value(text: Seq<char>) -> Option<u128>;

/// Whether the regular expression `pattern` matches somewhere in `text`:
/// what `regex::Regex::is_match` answers for the compiled pattern.
pub uninterp spec fn regex_matches(pattern: Seq<char>, text: Seq<char>) -> bool;

/// Parses `text` as a UUID and returns its 128-bit value.
///
/// Calls `uuid::Uuid::parse_str`, which accepts the simple, hyphenated,
/// URN and braced forms, and `Uuid::as_u128` on the result. The outcome
/// depends on the text alone; the contract names it.
#[verifier::external_body]
fn parse_uuid(text: &str) -> (r: Result<u128, uuid::Error>)
    ensures
        r is Ok <==> uuid_value(text@) is Some,
        r matches Ok(v) ==> uuid_value(text@) == Some(v),
{
    match uuid::Uuid::parse_str(text) {
        Ok(id) => Ok(id.as_u128()),
        Err(e) => Err(e),
    }
}

/// Compiles `pattern` and tests whether it matches somewhere in `text`.
///
/// Calls `regex::Regex::new` and `Regex::is_match`. Whether a pattern
/// compiles is left open: besides its syntax it depends on a size limit
/// that is measured in memory. The answer of a compiled pattern depends
/// on pattern and text alone; the contract names it.
#[verifier::external_body]
fn match_pattern(pattern: &str, text: &str) -> (r: Result<bool, regex::Error>)
    ensures
        r matches Ok(found) ==> found == regex_matches(pattern@, text@),
{
    match regex::Regex::new(pattern) {
        Ok(compiled) => Ok(compiled.is_match(text)),
        Err(e) => Err(e),
    }
}

/// Whether `b` is an ASCII decimal digit.
pub open spec fn is_digit(b: u8) -> bool {
    0x30 <= b <= 0x39
}

/// Whether `s` consists of ASCII decimal digits.
pub open spec fn all_digits(s: Seq<u8>) -> bool {
    forall|i: int| 0 <= i < s.len() ==> is_digit(#[trigger] s[i])
}

/// The number that the decimal digits `s` denote.
pub open spec fn decimal_value(s: Seq<u8>) -> nat
    decreases s.len(),
{
    if s.len() == 0 {
        0
    } else {
        decimal_value(s.drop_last()) * 10 + (s.last() - 0x30) as nat
    }
}

/// Whether `s` is one part of a dotted address: one to three decimal
/// digits that denote a number up to 255. Leading zeros are allowed.
pub open spec fn is_octet(s: Seq<u8>) -> bool {
    1 <= s.len() <= 3 && all_digits(s) && decimal_value(s) <= 255
}

/// Whether `s` consists of `n` octets with a dot between each two.
pub open spec fn is_octets(s: Seq<u8>, n: nat) -> bool
    decreases n,
{
    if n == 0 {
        false
    } else if n == 1 {
        is_octet(s)
    } else {
        exists|i: int|
            0 < i < s.len() && s[i] == 0x2e && is_octet(#[trigger] s.take(i)) && is_octets(
                s.skip(i + 1),
                (n - 1) as nat,
            )
    }
}

/// Whether `s` is an IPv4 address in dotted decimal form: four octets
/// with a dot between each two, and nothing before, between or after.
pub open spec fn is_ipv4(s: Seq<u8>) -> bool {
    is_octets(s, 4)
}

/// Where the digits at the front of `s` end at `e`, `s` consists of `n`
/// octets, `n` being two or more, exactly if those digits are an octet, a
/// dot follows, and the rest consists of one octet fewer.
pub proof fn lemma_first_octet(s: Seq<u8>, e: int, n: nat)
    requires
        n >= 2,
        0 <= e <= s.len(),
        all_digits(s.take(e)),
        e == s.len() || !is_digit(s[e]),
    ensures
        is_octets(s, n) <==> (e < s.len() && s[e] == 0x2e && is_octet(s.take(e)) && is_octets(
            s.skip(e + 1),
            (n - 1) as nat,
        )),
{
    if is_octets(s, n) {
        let i = choose|i: int|
            0 < i < s.len() && s[i] == 0x2e && is_octet(#[trigger] s.take(i)) && is_octets(
                s.skip(i + 1),
                (n - 1) as nat,
            );
        if i < e {
            assert(s.take(e)[i] == s[i]);
            assert(is_digit(s.take(e)[i]));
        }
        if i > e {
            assert(s.take(i)[e] == s[e]);
            assert(is_digit(s.take(i)[e]));
        }
        assert(i == e);
    }
    if e < s.len() && s[e] == 0x2e && is_octet(s.take(e)) && is_octets(
        s.skip(e + 1),
        (n - 1) as nat,
    ) {
        assert(s.take(e).len() == e);
        assert(0 < e);
    }
}

/// The end of the decimal digits that start at `start`.
fn digits_end(bytes: &[u8], start: usize) -> (end: usize)
    requires
        start <= bytes@.len(),
    ensures
        start <= end <= bytes@.len(),
        all_digits(bytes@.subrange(start as int, end as int)),
        end == bytes@.len() || !is_digit(bytes@[end as int]),
{
    let mut end: usize = start;
    while end < bytes.len() && 0x30 <= bytes[end] && bytes[end] <= 0x39
        invariant
            start <= end <= bytes@.len(),
            all_digits(bytes@.subrange(start as int, end as int)),
        decreases bytes@.len() - end,
    {
        proof {
            let longer = bytes@.subrange(start as int, end + 1);
            assert forall|i: int| 0 <= i < longer.len() implies is_digit(#[trigger] longer[i]) by {
                if i < end - start {
                    assert(bytes@.subrange(start as int, end as int)[i] == longer[i]);
                }
            }
        }
        end = end + 1;
    }
    end
}

/// Whether the decimal digits from `start` to `end` are an octet.
fn digits_are_octet(bytes: &[u8], start: usize, end: usize) -> (ok: bool)
    requires
        start <= end <= bytes@.len(),
        all_digits(bytes@.subrange(start as int, end as int)),
    ensures
        ok == is_octet(bytes@.subrange(start as int, end as int)),
{
    let n: usize = end - start;
    if n == 0 || n > 3 {
        return false;
    }
    let mut value: u32 = 0;
    let mut i: usize = start;
    while i < end
        invariant
            start <= i <= end <= bytes@.len(),
            end - start <= 3,
            all_digits(bytes@.subrange(start as int, end as int)),
            value == decimal_value(bytes@.subrange(start as int, i as int)),
            i - start == 0 ==> value == 0,
            i - start == 1 ==> value <= 9,
            i - start == 2 ==> value <= 99,
            i - start == 3 ==> value <= 999,
        decreases end - i,
    {
        proof {
            let longer = bytes@.subrange(start as int, i + 1);
            assert(longer.drop_last() =~= bytes@.subrange(start as int, i as int));
            assert(longer.last() == bytes@[i as int]);
            assert(bytes@.subrange(start as int, end as int)[i - start] == bytes@[i as int]);
            assert(is_digit(bytes@[i as int]));
        }
        value = value * 10 + (bytes[i] - 0x30) as u32;
        i = i + 1;
    }
    value <= 255
}

/// Whether `bytes` is an IPv4 address in dotted decimal form.
pub fn is_ipv4_address(bytes: &[u8]) -> (ok: bool)
    ensures
        ok == is_ipv4(bytes@),
{
    let mut pos: usize = 0;
    let mut remaining: usize = 4;
    assert(bytes@.skip(0) =~= bytes@);
    while remaining > 1
        invariant
            1 <= remaining <= 4,
            pos <= bytes@.len(),
            is_ipv4(bytes@) <==> is_octets(bytes@.skip(pos as int), remaining as nat),
        decreases remaining,
    {
        let end: usize = digits_end(bytes, pos);
        proof {
            let s = bytes@.skip(pos as int);
            assert(s.take(end - pos) =~= bytes@.subrange(pos as int, end as int));
            lemma_first_octet(s, end - pos, remaining as nat);
            if end < bytes@.len() {
                assert(s[end - pos] == bytes@[end as int]);
                assert(s.skip(end - pos + 1) =~= bytes@.skip(end + 1));
            }
        }
        if end >= bytes.len() {
            return false;
        }
        if bytes[end] != 0x2e {
            return false;
        }
        if !digits_are_octet(bytes, pos, end) {
            return false;
        }
        pos = end + 1;
        remaining = remaining - 1;
    }
    let end: usize = digits_end(bytes, pos);
    proof {
        let s = bytes@.skip(pos as int);
        assert(s =~= bytes@.subrange(pos as int, bytes@.len() as int));
        if end < bytes@.len() {
            assert(s[end - pos] == bytes@[end as int]);
            assert(!all_digits(s));
        }
    }
    if end < bytes.len() {
        return false;
    }
    digits_are_octet(bytes, pos, end)
}

/// The verdict on a text that was parsed as a UUID.
pub fn uuid_verdict(parsed: Result<u128, uuid::Error>) -> (r: Result<u128, ValidationError>)
    ensures
        r == match parsed {
            Ok(v) => Ok::<u128, ValidationError>(v),
            Err(_) => Err::<u128, ValidationError>(ValidationError::InvalidUuid),
        },
{
    match parsed {
        Ok(v) => Ok(v),
        Err(_) => Err(ValidationError::InvalidUuid),
    }
}

/// The verdict on a message that was held against a pattern.
pub fn format_verdict(matched: Result<bool, regex::Error>) -> (r: Result<(), ValidationError>)
    ensures
        r == match matched {
            Ok(true) => Ok::<(), ValidationError>(()),
            Ok(false) => Err::<(), ValidationError>(ValidationError::InvalidMessageFormat),
            Err(_) => Err::<(), ValidationError>(ValidationError::InvalidPattern),
        },
{
    match matched {
        Ok(true) => Ok(()),
        Ok(false) => Err(ValidationError::InvalidMessageFormat),
        Err(_) => Err(ValidationError::InvalidPattern),
    }
}

/// The checks that messages between nodes are put through.
#[derive(Debug)]
pub struct Validator;

impl Validator {
    /// Reads `uuid_str` as a UUID and returns its 128-bit value: the id
    /// under which the cluster knows a node, a proposal or a task.
    pub fn validate_uuid(uuid_str: &str) -> (r: Result<u128, ValidationError>)
        ensures
            r == match uuid_value(uuid_str@) {
                Some(v) => Ok::<u128, ValidationError>(v),
                None => Err::<u128, ValidationError>(ValidationError::InvalidUuid),
            },
    {
        uuid_verdict(parse_uuid(uuid_str))
    }

    /// Accepts `ip_address` if it is an IPv4 address in dotted decimal
    /// form: four numbers up to 255, of one to three digits each.
    pub fn validate_ip_address(ip_address: &str) -> (r: Result<(), ValidationError>)
        ensures
            r == if is_ipv4(ip_address.spec_bytes()) {
                Ok::<(), ValidationError>(())
            } else {
                Err::<(), ValidationError>(ValidationError::InvalidIpAddress)
            },
    {
        if is_ipv4_address(ip_address.as_bytes()) {
            Ok(())
        } else {
            Err(ValidationError::InvalidIpAddress)
        }
    }

    /// Accepts `message` if the regular expression `pattern` matches
    /// somewhere in it. A pattern that does not compile is an error of its
    /// own; whether one compiles is decided by the regex engine.
    pub fn validate_message_format(message: &str, pattern: &str) -> (r: Result<
        (),
        ValidationError,
    >)
        ensures
            r is Ok ==> regex_matches(pattern@, message@),
            r == Err::<(), ValidationError>(ValidationError::InvalidMessageFormat)
                ==> !regex_matches(pattern@, message@),
            r is Ok || r == Err::<(), ValidationError>(ValidationError::InvalidMessageFormat) || r
                == Err::<(), ValidationError>(ValidationError::InvalidPattern),
    {
        format_verdict(match_pattern(pattern, message))
    }
}

} // verus!
