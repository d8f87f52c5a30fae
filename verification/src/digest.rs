//! Opaque identities.

use vstd::prelude::*;

verus! {

/// The longest digest that is accepted.
pub const MAX_DIGEST_LEN: usize = 128;

/// Whether a character may stand in a digest.
pub open spec fn digest_char(c: char) -> bool {
    ||| '0' <= c <= '9'
    ||| 'A' <= c <= 'Z'
    ||| 'a' <= c <= 'z'
    ||| c == '-'
    ||| c == '_'
}

/// Whether `text` is a digest: not empty, of bounded length, and made of ASCII
/// letters, ASCII digits, hyphens and underscores alone.
pub open spec fn is_digest(text: Seq<char>) -> bool {
    &&& 0 < text.len() <= MAX_DIGEST_LEN
    &&& forall|i: int| 0 <= i < text.len() ==> digest_char(#[trigger] text[i])
}

/// Whether `value` is a digest.
pub fn valid_digest(value: &str) -> (valid: bool)
    ensures
        valid == is_digest(value@),
{
    if !value.is_ascii() {
        proof {
            let i = choose|i: int| 0 <= i < value@.len() && !('\0' <= #[trigger] value@[i] <= '\u{7f}');
            assert(!digest_char(value@[i]));
        }
        return false;
    }
    let bytes: &[u8] = value.as_bytes();
    let len: usize = bytes.len();
    assert(bytes@ =~= Seq::new(value@.len(), |i: int| value@[i] as u8));
    if len == 0 || len > MAX_DIGEST_LEN {
        return false;
    }
    let mut i: usize = 0;
    while i < len
        invariant
            i <= len,
            len == bytes@.len(),
            bytes@ =~= Seq::new(value@.len(), |i: int| value@[i] as u8),
            value.is_ascii(),
            forall|j: int| 0 <= j < i ==> digest_char(#[trigger] value@[j]),
        decreases len - i,
    {
        let b: u8 = bytes[i];
        assert(b == value@[i as int] as u8);
        // The ranges of the digits and of the two cases of letters, then `-` and `_`.
        let accepted: bool = (0x30 <= b && b <= 0x39) || (0x41 <= b && b <= 0x5a) || (0x61 <= b
            && b <= 0x7a) || b == 0x2d || b == 0x5f;
        if !accepted {
            assert(!digest_char(value@[i as int]));
            return false;
        }
        i = i + 1;
    }
    true
}

} // verus!
