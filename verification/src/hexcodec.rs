//! Hex decoding through the `hex` crate, and the `0x`-prefix handling around it.

use vstd::prelude::*;
use crate::text::{chars_of, has_prefix, string_from_range};

verus! {

broadcast use vstd::string::group_string_axioms;

/// An ASCII hex digit, either case.
pub open spec fn is_hex_char(c: char) -> bool {
    ('0' <= c && c <= '9') || ('a' <= c && c <= 'f') || ('A' <= c && c <= 'F')
}

/// The value of a hex digit.
pub open spec fn hex_char_value(c: char) -> nat {
    if '0' <= c && c <= '9' {
        (c as u32 - 48) as nat
    } else if 'a' <= c && c <= 'f' {
        (c as u32 - 87) as nat
    } else {
        (c as u32 - 55) as nat
    }
}

/// `hex::decode` accepts `s`: an even number of hex digits.
pub open spec fn hex_decodable(s: Seq<char>) -> bool {
    s.len() % 2 == 0 && forall|i: int| 0 <= i < s.len() ==> is_hex_char(#[trigger] s[i])
}

/// The bytes that a decodable hex string stands for, two digits per byte.
pub open spec fn hex_bytes(s: Seq<char>) -> Seq<u8> {
    Seq::new(
        s.len() / 2,
        |i: int| (hex_char_value(s[2 * i]) * 16 + hex_char_value(s[2 * i + 1])) as u8,
    )
}

/// Decodes a hex string with `hex::decode`.
///
/// Trusted: `hex::decode` checks the byte length is even, then maps each pair of
/// ASCII hex digits (either case) to one byte, high digit first, and fails on any
/// other byte; so it succeeds exactly on an even number of hex digits.
#[verifier::external_body]
pub(crate) fn hex_decode(s: &str) -> (r: Option<Vec<u8>>)
    ensures
        r is Some <==> hex_decodable(s@),
        r matches Some(b) ==> b@ == hex_bytes(s@),
{
    match hex::decode(s) {
        Ok(b) => Some(b),
        Err(_) => None,
    }
}

/// `s` with every leading repetition of `prefix` removed (`str::trim_start_matches`).
pub open spec fn strip_prefix_all(s: Seq<char>, prefix: Seq<char>) -> Seq<char>
    decreases s.len(),
{
    if prefix.len() > 0 && has_prefix(s, prefix) {
        strip_prefix_all(s.skip(prefix.len() as int), prefix)
    } else {
        s
    }
}

/// `s` with every leading `0x` removed.
pub fn strip_0x_all(s: &str) -> (r: String)
    ensures
        r@ == strip_prefix_all(s@, "0x"@),
{
    proof {
        reveal_strlit("0x");
    }
    let v = chars_of(s);
    let mut i: usize = 0;
    assert(v@.skip(0) =~= v@);
    assert("0x"@ =~= seq!['0', 'x']);
    while v.len() - i >= 2 && v[i] == '0' && v[i + 1] == 'x'
        invariant
            i <= v.len(),
            "0x"@ == seq!['0', 'x'],
            strip_prefix_all(s@, "0x"@) == strip_prefix_all(v@.skip(i as int), "0x"@),
            v@ == s@,
        decreases v.len() - i,
    {
        proof {
            let t = v@.skip(i as int);
            assert(t.subrange(0, 2) =~= "0x"@);
            assert(t.skip(2) =~= v@.skip(i + 2));
        }
        i += 2;
    }
    proof {
        let t = v@.skip(i as int);
        if has_prefix(t, "0x"@) {
            assert(t.subrange(0, 2)[0] == t[0]);
            assert(t.subrange(0, 2)[1] == t[1]);
            assert(false);
        }
        assert(v@.subrange(i as int, v.len() as int) =~= t);
    }
    string_from_range(&v, i, v.len())
}

} // verus!
