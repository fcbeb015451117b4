//! The content key: an opaque lookup token decoded from a hex-encoded
//! textual literal.

use vstd::prelude::*;

use crate::decode::is_digit;
use crate::text::chars_vec;

verus! {

/// A content key for the remote content-addressed store.
pub struct ContentKey {
    pub bytes: Vec<u8>,
}

impl View for ContentKey {
    type V = Seq<u8>;

    open spec fn view(&self) -> Seq<u8> {
        self.bytes@
    }
}

pub open spec fn is_hex_digit(c: char) -> bool {
    is_digit(c) || c == 'a' || c == 'b' || c == 'c' || c == 'd' || c == 'e' || c == 'f' || c
        == 'A' || c == 'B' || c == 'C' || c == 'D' || c == 'E' || c == 'F'
}

pub open spec fn hex_val(c: char) -> nat {
    if c == '0' {
        0
    } else if c == '1' {
        1
    } else if c == '2' {
        2
    } else if c == '3' {
        3
    } else if c == '4' {
        4
    } else if c == '5' {
        5
    } else if c == '6' {
        6
    } else if c == '7' {
        7
    } else if c == '8' {
        8
    } else if c == '9' {
        9
    } else if c == 'a' || c == 'A' {
        10
    } else if c == 'b' || c == 'B' {
        11
    } else if c == 'c' || c == 'C' {
        12
    } else if c == 'd' || c == 'D' {
        13
    } else if c == 'e' || c == 'E' {
        14
    } else {
        15
    }
}

/// Decodes a run of hex digits two at a time into bytes; an odd run or a
/// stray character yields nothing.
pub open spec fn decode_hex_pairs(s: Seq<char>) -> Option<Seq<u8>>
    decreases s.len(),
{
    if s.len() == 0 {
        Some(Seq::<u8>::empty())
    } else if s.len() == 1 {
        None
    } else if is_hex_digit(s[0]) && is_hex_digit(s[1]) {
        match decode_hex_pairs(s.skip(2)) {
            Some(b) => Some(seq![(hex_val(s[0]) * 16 + hex_val(s[1])) as u8] + b),
            None => None,
        }
    } else {
        None
    }
}

/// What a content-key literal decodes to: `0x` followed by at least one
/// pair of hex digits, or nothing. The result is a function of the text
/// alone, so decoding the same literal twice always yields the same key.
pub open spec fn decode_content_key_text(s: Seq<char>) -> Option<Seq<u8>> {
    if s.len() > 2 && s[0] == '0' && s[1] == 'x' {
        decode_hex_pairs(s.skip(2))
    } else {
        None
    }
}

fn hex_val_exec(c: char) -> (r: u8)
    requires
        is_hex_digit(c),
    ensures
        r == hex_val(c),
        r < 16,
{
    if c == '0' {
        0
    } else if c == '1' {
        1
    } else if c == '2' {
        2
    } else if c == '3' {
        3
    } else if c == '4' {
        4
    } else if c == '5' {
        5
    } else if c == '6' {
        6
    } else if c == '7' {
        7
    } else if c == '8' {
        8
    } else if c == '9' {
        9
    } else if c == 'a' || c == 'A' {
        10
    } else if c == 'b' || c == 'B' {
        11
    } else if c == 'c' || c == 'C' {
        12
    } else if c == 'd' || c == 'D' {
        13
    } else if c == 'e' || c == 'E' {
        14
    } else {
        15
    }
}

fn is_hex_digit_exec(c: char) -> (r: bool)
    ensures
        r == is_hex_digit(c),
{
    c == '0' || c == '1' || c == '2' || c == '3' || c == '4' || c == '5' || c == '6' || c == '7'
        || c == '8' || c == '9' || c == 'a' || c == 'b' || c == 'c' || c == 'd' || c == 'e' || c
        == 'f' || c == 'A' || c == 'B' || c == 'C' || c == 'D' || c == 'E' || c == 'F'
}

fn decode_pairs_exec(v: &Vec<char>, i: usize) -> (r: Option<Vec<u8>>)
    requires
        i <= v.len(),
    ensures
        match r {
            Some(b) => decode_hex_pairs(v@.skip(i as int)) == Some(b@),
            None => decode_hex_pairs(v@.skip(i as int)) is None,
        },
    decreases v.len() - i,
{
    let ghost s = v@.skip(i as int);
    if i == v.len() {
        proof {
            assert(s.len() == 0);
        }
        Some(Vec::new())
    } else if v.len() - i == 1 {
        None
    } else {
        proof {
            assert(s[0] == v@[i as int]);
            assert(s[1] == v@[i + 1 as int]);
        }
        if is_hex_digit_exec(v[i]) && is_hex_digit_exec(v[i + 1]) {
            let hi = hex_val_exec(v[i]);
            let lo = hex_val_exec(v[i + 1]);
            proof {
                assert(s.skip(2) =~= v@.skip(i + 2 as int));
            }
            match decode_pairs_exec(v, i + 2) {
                Some(mut b) => {
                    b.insert(0, hi * 16 + lo);
                    proof {
                        assert(b@ =~= seq![(hex_val(s[0]) * 16 + hex_val(s[1])) as u8]
                            + b@.drop_first());
                    }
                    Some(b)
                },
                None => None,
            }
        } else {
            None
        }
    }
}

/// Decodes a content-key literal of the form `0x…` to a key.
///
/// The result is exactly what `decode_content_key_text` says of the
/// input, so equal literals always decode to equal keys.
pub fn decode_content_key(s: &str) -> (r: Option<ContentKey>)
    ensures
        match r {
            Some(k) => decode_content_key_text(s@) == Some(k@),
            None => decode_content_key_text(s@) is None,
        },
{
    let v = chars_vec(s);
    proof {
        assert(v@.skip(0) =~= s@);
    }
    if v.len() > 2 {
        proof {
            assert(s@[0] == v@[0]);
            assert(s@[1] == v@[1]);
        }
        if v[0] == '0' && v[1] == 'x' {
            proof {
                assert(s@.skip(2) =~= v@.skip(2));
            }
            match decode_pairs_exec(&v, 2) {
                Some(b) => Some(ContentKey { bytes: b }),
                None => None,
            }
        } else {
            None
        }
    } else {
        None
    }
}

} // verus!
