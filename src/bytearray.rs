use vstd::prelude::*;
use vstd::string::StrSliceExecFns;

use crate::classify::{chars_of, trim_end_at, trim_start_at};
use crate::hash::{bytearray_hash_of, trimmed};

verus! {

/// What `starknet_crypto::Felt`'s `{:#64x}` formatting writes for a field
/// element given as big-endian bytes.
pub uninterp spec fn felt_hex_of(b: Seq<u8>) -> Seq<char>;

/// Relies on `starknet_crypto::Felt`'s `LowerHex` formatting with `{:#64x}`,
/// a function of the value alone.
#[verifier::external_body]
fn felt_hex(b: &[u8; 32]) -> (r: String)
    ensures
        r@ == felt_hex_of(b@),
{
    format!("{:#64x}", starknet_crypto::Felt::from_bytes_be(b))
}

/// Why the argument of the byte-array hash macro was refused.
#[derive(PartialEq, Eq, Structural, Clone, Copy, Debug)]
pub enum BytearrayHashError {
    /// The argument is not parenthesized.
    InvalidParameter,
    /// The parenthesized argument is not a string literal.
    InvalidParameterType,
}

/// The token text of the string literal, quotes included, that the argument
/// holds in parentheses.
pub open spec fn hash_argument(arg: Seq<char>) -> Result<Seq<char>, BytearrayHashError> {
    let t = trimmed(arg);
    if t.len() >= 2 && t[0] == '(' && t[t.len() - 1] == ')' {
        let inner = trimmed(t.subrange(1, t.len() - 1));
        if inner.len() >= 2 && inner[0] == '"' && inner[inner.len() - 1] == '"' {
            Ok(inner)
        } else {
            Err(BytearrayHashError::InvalidParameterType)
        }
    } else {
        Err(BytearrayHashError::InvalidParameter)
    }
}

/// The message for a refused argument.
pub open spec fn hash_error_message(e: BytearrayHashError, arg: Seq<char>) -> Seq<char> {
    match e {
        BytearrayHashError::InvalidParameter => "bytearray_hash: invalid parameter (arg: "@ + arg
            + ")"@,
        BytearrayHashError::InvalidParameterType => "bytearray_hash: invalid parameter type (arg: "@
            + trimmed(arg) + ")"@,
    }
}

/// Reads the argument of the byte-array hash macro: a string literal in
/// parentheses, whose token text (quotes included) is returned.
pub fn parse_hash_argument(arg: &str) -> (r: Result<String, BytearrayHashError>)
    ensures
        match r {
            Ok(s) => hash_argument(arg@) == Ok::<Seq<char>, BytearrayHashError>(s@),
            Err(e) => hash_argument(arg@) == Err::<Seq<char>, BytearrayHashError>(e),
        },
{
    let cs = chars_of(arg);
    let a = trim_start_at(&cs, 0, cs.len());
    let b = trim_end_at(&cs, a, cs.len());
    let ghost t = arg@.subrange(a as int, b as int);
    assert(t == trimmed(arg@));
    if !(b - a >= 2 && cs[a] == '(' && cs[b - 1] == ')') {
        return Err(BytearrayHashError::InvalidParameter);
    }
    let c = trim_start_at(&cs, a + 1, b - 1);
    let d = trim_end_at(&cs, c, b - 1);
    proof {
        let body = t.subrange(1, t.len() - 1);
        assert(body =~= arg@.subrange(a + 1, b - 1));
        lemma_trim_shift(arg@, a + 1, b - 1);
    }
    if !(d - c >= 2 && cs[c] == '"' && cs[d - 1] == '"') {
        return Err(BytearrayHashError::InvalidParameterType);
    }
    let r = arg.substring_char(c, d).to_owned();
    Ok(r)
}

/// Trimming a part of a text is trimming the text's positions in that part.
proof fn lemma_trim_shift(s: Seq<char>, lo: int, hi: int)
    requires
        0 <= lo <= hi <= s.len(),
    ensures
        ({
            let a = crate::classify::trim_start(s, lo, hi);
            let b = crate::classify::trim_end(s, a, hi);
            trimmed(s.subrange(lo, hi)) == s.subrange(a, b)
        }),
{
    let p = s.subrange(lo, hi);
    lemma_trim_start_shift(s, lo, hi, lo);
    let a = crate::classify::trim_start(s, lo, hi);
    lemma_trim_end_shift(s, lo, hi, a, hi);
    assert(p.subrange(a - lo, crate::classify::trim_end(s, a, hi) - lo) =~= s.subrange(
        a,
        crate::classify::trim_end(s, a, hi),
    ));
}

proof fn lemma_trim_start_shift(s: Seq<char>, lo: int, hi: int, i: int)
    requires
        0 <= lo <= i <= hi <= s.len(),
    ensures
        crate::classify::trim_start(s.subrange(lo, hi), i - lo, hi - lo) == crate::classify::trim_start(
            s,
            i,
            hi,
        ) - lo,
        i <= crate::classify::trim_start(s, i, hi) <= hi,
    decreases hi - i,
{
    if i < hi {
        lemma_trim_start_shift(s, lo, hi, i + 1);
    }
}

proof fn lemma_trim_end_shift(s: Seq<char>, lo: int, hi: int, a: int, j: int)
    requires
        0 <= lo <= a <= j <= hi <= s.len(),
    ensures
        crate::classify::trim_end(s.subrange(lo, hi), a - lo, j - lo) == crate::classify::trim_end(
            s,
            a,
            j,
        ) - lo,
        a <= crate::classify::trim_end(s, a, j) <= j,
    decreases j - a,
{
    if a < j {
        lemma_trim_end_shift(s, lo, hi, a, j - 1);
    }
}

/// The byte-array hash macro: the hexadecimal hash of the string literal in
/// the argument, or the message that says why the argument was refused.
pub fn bytearray_hash(arg: &str) -> (r: Result<String, String>)
    ensures
        match hash_argument(arg@) {
            Ok(text) => r matches Ok(h) && h@ == felt_hex_of(bytearray_hash_of(text)),
            Err(e) => r matches Err(m) && m@ == hash_error_message(e, arg@),
        },
{
    match parse_hash_argument(arg) {
        Ok(text) => {
            let h = crate::hash::bytearray_hash(text.as_str());
            Ok(felt_hex(&h))
        },
        Err(e) => {
            let mut m = match e {
                BytearrayHashError::InvalidParameter => {
                    let mut m = "bytearray_hash: invalid parameter (arg: ".to_owned();
                    m.append(arg);
                    m
                },
                BytearrayHashError::InvalidParameterType => {
                    let mut m = "bytearray_hash: invalid parameter type (arg: ".to_owned();
                    let t = crate::hash::trim_text(arg);
                    m.append(t.as_str());
                    m
                },
            };
            m.append(")");
            Err(m)
        },
    }
}

} // verus!
