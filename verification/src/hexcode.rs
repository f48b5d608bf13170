//! Hex pattern decoding: a hex string (spaces allowed between digits) into
//! the byte sequence it denotes.

use vstd::prelude::*;

use crate::pattern::CompileError;
use crate::strutil::chars_of;

verus! {

pub open spec fn is_hex_digit(c: char) -> bool {
    ||| '0' as u32 <= c as u32 && c as u32 <= '9' as u32
    ||| 'a' as u32 <= c as u32 && c as u32 <= 'f' as u32
    ||| 'A' as u32 <= c as u32 && c as u32 <= 'F' as u32
}

/// The value of one hex digit (meaningful only when `is_hex_digit(c)`).
pub open spec fn hex_val(c: char) -> u8 {
    if '0' as u32 <= c as u32 && c as u32 <= '9' as u32 {
        (c as u32 - '0' as u32) as u8
    } else if 'a' as u32 <= c as u32 && c as u32 <= 'f' as u32 {
        (c as u32 - 'a' as u32 + 10) as u8
    } else {
        (c as u32 - 'A' as u32 + 10) as u8
    }
}

/// `s` with every space removed.
pub open spec fn strip_spaces(s: Seq<char>) -> Seq<char>
    decreases s.len(),
{
    if s.len() == 0 {
        s
    } else if s.last() == ' ' {
        strip_spaces(s.drop_last())
    } else {
        strip_spaces(s.drop_last()).push(s.last())
    }
}

/// A decodable hex string: even length, hex digits throughout.
pub open spec fn is_hex_string(s: Seq<char>) -> bool {
    s.len() % 2 == 0 && (forall|i: int| 0 <= i < s.len() ==> is_hex_digit(#[trigger] s[i]))
}

/// The bytes a hex string denotes: one byte per digit pair, high digit
/// first (meaningful only when `is_hex_string(s)`).
pub open spec fn hex_bytes(s: Seq<char>) -> Seq<u8> {
    Seq::new((s.len() / 2) as nat, |i: int| (16 * hex_val(s[2 * i]) + hex_val(s[2 * i + 1])) as u8)
}

/// A valid hex string decodes to exactly one byte per digit pair, the
/// high digit first.
pub proof fn lemma_hex_bytes_pairs(s: Seq<char>)
    requires
        is_hex_string(s),
    ensures
        hex_bytes(s).len() == s.len() / 2,
        forall|i: int|
            0 <= i < s.len() / 2 ==> #[trigger] hex_bytes(s)[i] == 16 * hex_val(s[2 * i])
                + hex_val(s[2 * i + 1]),
{
}

fn hex_digit_value(c: char) -> (r: Option<u8>)
    ensures
        r is Some <==> is_hex_digit(c),
        r matches Some(v) ==> v == hex_val(c) && v < 16,
{
    let u = c as u32;
    if u >= '0' as u32 && u <= '9' as u32 {
        Some((u - '0' as u32) as u8)
    } else if u >= 'a' as u32 && u <= 'f' as u32 {
        Some((u - 'a' as u32 + 10) as u8)
    } else if u >= 'A' as u32 && u <= 'F' as u32 {
        Some((u - 'A' as u32 + 10) as u8)
    } else {
        None
    }
}

/// Decode `input` as hex after removing spaces. Succeeds exactly on even
/// lengths of hex digits; anything else is `InvalidHex`.
pub fn decode_hex(input: &str) -> (r: Result<Vec<u8>, CompileError>)
    ensures
        match r {
            Ok(b) => is_hex_string(strip_spaces(input@)) && b@ == hex_bytes(strip_spaces(input@)),
            Err(e) => e == CompileError::InvalidHex && !is_hex_string(strip_spaces(input@)),
        },
{
    let cs = chars_of(input);
    let n = cs.len();
    let mut stripped: Vec<char> = Vec::new();
    let mut i: usize = 0;
    while i < n
        invariant
            i <= n,
            n == cs@.len(),
            cs@ == input@,
            stripped@ == strip_spaces(cs@.subrange(0, i as int)),
        decreases n - i,
    {
        let c = cs[i];
        proof {
            assert(cs@.subrange(0, (i + 1) as int).drop_last() =~= cs@.subrange(0, i as int));
            assert(cs@.subrange(0, (i + 1) as int).last() == cs@[i as int]);
        }
        if c != ' ' {
            stripped.push(c);
        }
        i += 1;
    }
    proof {
        assert(cs@.subrange(0, n as int) =~= cs@);
    }
    let len = stripped.len();
    if len % 2 != 0 {
        return Err(CompileError::InvalidHex);
    }
    let half = len / 2;
    let mut out: Vec<u8> = Vec::new();
    let mut k: usize = 0;
    while k < half
        invariant
            k <= half,
            half == len / 2,
            len == stripped@.len(),
            len % 2 == 0,
            stripped@ == strip_spaces(input@),
            forall|j: int| 0 <= j < 2 * k ==> is_hex_digit(#[trigger] stripped@[j]),
            out@.len() == k,
            forall|j: int| 0 <= j < k ==> out@[j] == hex_bytes(stripped@)[j],
        decreases half - k,
    {
        let c0 = stripped[2 * k];
        let c1 = stripped[2 * k + 1];
        let v0 = match hex_digit_value(c0) {
            Some(v) => v,
            None => {
                proof {
                    if is_hex_string(stripped@) {
                        assert(is_hex_digit(stripped@[2 * k]));
                    }
                }
                return Err(CompileError::InvalidHex);
            },
        };
        let v1 = match hex_digit_value(c1) {
            Some(v) => v,
            None => {
                proof {
                    if is_hex_string(stripped@) {
                        assert(is_hex_digit(stripped@[2 * k + 1]));
                    }
                }
                return Err(CompileError::InvalidHex);
            },
        };
        let byte = 16 * v0 + v1;
        out.push(byte);
        proof {
            assert(hex_bytes(stripped@)[k as int] == (16 * hex_val(stripped@[2 * k]) + hex_val(
                stripped@[2 * k + 1],
            )) as u8);
        }
        k += 1;
    }
    proof {
        assert(forall|j: int| 0 <= j < len ==> is_hex_digit(#[trigger] stripped@[j]));
        assert(is_hex_string(stripped@));
        assert(out@ =~= hex_bytes(stripped@));
    }
    Ok(out)
}

} // verus!
