use vstd::prelude::*;
use vstd::utf8::valid_utf8;
use vstd::utf8::decode_utf8;

verus! {

broadcast use vstd::string::axiom_spec_iter;

/// A character of the lower-case base-32 alphabet (RFC 4648): `a`-`z`, `2`-`7`.
pub open spec fn is_base32_char(c: char) -> bool {
    ||| 'a' <= c && c <= 'z'
    ||| '2' <= c && c <= '7'
}

/// A character of the base-58 alphabet: digits and letters without `0`, `O`, `I`, `l`.
pub open spec fn is_base58_char(c: char) -> bool {
    ||| '1' <= c && c <= '9'
    ||| 'A' <= c && c <= 'H'
    ||| 'J' <= c && c <= 'N'
    ||| 'P' <= c && c <= 'Z'
    ||| 'a' <= c && c <= 'k'
    ||| 'm' <= c && c <= 'z'
}

/// Every character of `s` belongs to the base-32 alphabet.
pub open spec fn spec_is_base_32(s: Seq<char>) -> bool {
    forall|i: int| 0 <= i < s.len() ==> is_base32_char(#[trigger] s[i])
}

/// Every character of `s` belongs to the base-58 alphabet.
pub open spec fn spec_is_base_58(s: Seq<char>) -> bool {
    forall|i: int| 0 <= i < s.len() ==> is_base58_char(#[trigger] s[i])
}

/// A stream CID is accepted when its text is in base 32 or in base 58.
pub open spec fn cid_encoding_ok(s: Seq<char>) -> bool {
    spec_is_base_32(s) || spec_is_base_58(s)
}

fn char_is_base32(c: char) -> (r: bool)
    ensures
        r == is_base32_char(c),
{
    (c >= 'a' && c <= 'z') || (c >= '2' && c <= '7')
}

fn char_is_base58(c: char) -> (r: bool)
    ensures
        r == is_base58_char(c),
{
    (c >= '1' && c <= '9') || (c >= 'A' && c <= 'H') || (c >= 'J' && c <= 'N') || (c >= 'P'
        && c <= 'Z') || (c >= 'a' && c <= 'k') || (c >= 'm' && c <= 'z')
}

/// Whether `input` is written in the base-32 alphabet.
pub fn is_base_32(input: &str) -> (r: bool)
    ensures
        r == spec_is_base_32(input@),
{
    for c in it: input.chars()
        invariant
            it.seq() == input@,
            forall|j: int| 0 <= j < it.index() ==> is_base32_char(#[trigger] input@[j]),
    {
        if !char_is_base32(c) {
            return false;
        }
    }
    true
}

/// Whether `input` is written in the base-58 alphabet.
pub fn is_base_58(input: &str) -> (r: bool)
    ensures
        r == spec_is_base_58(input@),
{
    for c in it: input.chars()
        invariant
            it.seq() == input@,
            forall|j: int| 0 <= j < it.index() ==> is_base58_char(#[trigger] input@[j]),
    {
        if !char_is_base58(c) {
            return false;
        }
    }
    true
}

/// `core::str::from_utf8`: the text that `bytes` encode, where they are valid UTF-8.
/// Trusted: the call returns `Ok` exactly on valid UTF-8, and its text is the
/// decoding of the bytes.
#[verifier::external_body]
pub(crate) fn str_from_utf8(bytes: &[u8]) -> (res: Option<&str>)
    ensures
        res is Some <==> valid_utf8(bytes@),
        res matches Some(s) ==> s@ == decode_utf8(bytes@),
{
    core::str::from_utf8(bytes).ok()
}

} // verus!

verus! {

/// The 32 symbols of the base-32 alphabet, one by one:
/// `abcdefghijklmnopqrstuvwxyz234567`.
pub open spec fn base32_symbol(c: char) -> bool {
    ||| c == 'a' || c == 'b' || c == 'c' || c == 'd' || c == 'e' || c == 'f' || c == 'g' || c == 'h'
    ||| c == 'i' || c == 'j' || c == 'k' || c == 'l' || c == 'm' || c == 'n' || c == 'o' || c == 'p'
    ||| c == 'q' || c == 'r' || c == 's' || c == 't' || c == 'u' || c == 'v' || c == 'w' || c == 'x'
    ||| c == 'y' || c == 'z' || c == '2' || c == '3' || c == '4' || c == '5' || c == '6' || c == '7'
}

/// The 58 symbols of the base-58 alphabet, one by one:
/// `123456789ABCDEFGHJKLMNPQRSTUVWXYZabcdefghijkmnopqrstuvwxyz`.
pub open spec fn base58_symbol(c: char) -> bool {
    ||| c == '1' || c == '2' || c == '3' || c == '4' || c == '5' || c == '6' || c == '7' || c == '8'
    ||| c == '9' || c == 'A' || c == 'B' || c == 'C' || c == 'D' || c == 'E' || c == 'F' || c == 'G'
    ||| c == 'H' || c == 'J' || c == 'K' || c == 'L' || c == 'M' || c == 'N' || c == 'P' || c == 'Q'
    ||| c == 'R' || c == 'S' || c == 'T' || c == 'U' || c == 'V' || c == 'W' || c == 'X' || c == 'Y'
    ||| c == 'Z' || c == 'a' || c == 'b' || c == 'c' || c == 'd' || c == 'e' || c == 'f' || c == 'g'
    ||| c == 'h' || c == 'i' || c == 'j' || c == 'k' || c == 'm' || c == 'n' || c == 'o' || c == 'p'
    ||| c == 'q' || c == 'r' || c == 's' || c == 't' || c == 'u' || c == 'v' || c == 'w' || c == 'x'
    ||| c == 'y' || c == 'z'
}

/// `is_base_32` accepts a text exactly when every character of it is one of the
/// 32 symbols `a`-`z`, `2`-`7`; a text that holds `0`, `1`, `8`, `9` or an
/// upper-case letter is refused.
pub proof fn law_base32_alphabet(s: Seq<char>)
    ensures
        spec_is_base_32(s) <==> forall|i: int| 0 <= i < s.len() ==> base32_symbol(#[trigger] s[i]),
        forall|c: char| is_base32_char(c) <==> base32_symbol(c),
{
    assert forall|c: char| is_base32_char(c) <==> base32_symbol(c) by {
        lemma_base32_char(c);
    }
}

/// `is_base_58` accepts a text exactly when every character of it is one of the
/// 58 symbols: digits `1`-`9` and letters other than `O`, `I` and `l`.
pub proof fn law_base58_alphabet(s: Seq<char>)
    ensures
        spec_is_base_58(s) <==> forall|i: int| 0 <= i < s.len() ==> base58_symbol(#[trigger] s[i]),
        forall|c: char| is_base58_char(c) <==> base58_symbol(c),
{
    assert forall|c: char| is_base58_char(c) <==> base58_symbol(c) by {
        lemma_base58_char(c);
    }
}

proof fn lemma_base32_char(c: char)
    ensures
        is_base32_char(c) <==> base32_symbol(c),
{
    let n = c as u32;
    assert(c == n as char);
}

proof fn lemma_base58_char(c: char)
    ensures
        is_base58_char(c) <==> base58_symbol(c),
{
    let n = c as u32;
    assert(c == n as char);
}

} // verus!
