//! Unsigned variable-length integers: seven bits per byte, low group first,
//! the high bit set on every byte but the last.

use vstd::prelude::*;

verus! {

/// The variable-length encoding of `n`.
pub open spec fn varint(n: nat) -> Seq<u8>
    decreases n,
{
    if n < 128 {
        seq![n as u8]
    } else {
        seq![(n % 128 + 128) as u8] + varint(n / 128)
    }
}

/// The number that `s` starts with and the count of bytes it takes, where
/// `s` starts with the encoding of a number; `None` where it does not (the
/// bytes end too early, or the last group is a needless zero).
pub open spec fn parse_varint(s: Seq<u8>) -> Option<(nat, nat)>
    decreases s.len(),
{
    if s.len() == 0 {
        None
    } else if s[0] < 128 {
        Some((s[0] as nat, 1nat))
    } else {
        match parse_varint(s.drop_first()) {
            Some((high, used)) => if high == 0 {
                None
            } else {
                Some(((s[0] - 128 + 128 * high) as nat, used + 1))
            },
            None => None,
        }
    }
}

/// An encoding is never empty.
pub proof fn lemma_varint_len(n: nat)
    ensures
        varint(n).len() >= 1,
    decreases n,
{
    if n >= 128 {
        lemma_varint_len(n / 128);
    }
}

/// Parsing the encoding of `n`, whatever follows it, gives `n` and the
/// encoding's length.
pub proof fn lemma_parse_varint_of_encoding(n: nat, rest: Seq<u8>)
    ensures
        parse_varint(varint(n) + rest) == Some((n, varint(n).len())),
    decreases n,
{
    let s = varint(n) + rest;
    if n >= 128 {
        lemma_parse_varint_of_encoding(n / 128, rest);
        assert(s.drop_first() =~= varint(n / 128) + rest);
    }
}

/// What parses as a number starts with the encoding of that number.
pub proof fn lemma_parse_varint_is_encoding(s: Seq<u8>)
    ensures
        parse_varint(s) matches Some((n, used)) ==> used <= s.len() && s.subrange(0, used as int)
            == varint(n),
    decreases s.len(),
{
    if s.len() > 0 {
        if s[0] < 128 {
            assert(s.subrange(0, 1) =~= varint(s[0] as nat));
        } else {
            lemma_parse_varint_is_encoding(s.drop_first());
            match parse_varint(s.drop_first()) {
                Some((high, used)) => {
                    if high != 0 {
                        let n = (s[0] - 128 + 128 * high) as nat;
                        assert(n / 128 == high);
                        assert(n % 128 == s[0] - 128);
                        assert(s.subrange(0, used as int + 1) =~= seq![s[0]] + s.drop_first().subrange(
                            0,
                            used as int,
                        ));
                    }
                },
                None => {},
            }
        }
    }
}

/// `unsigned_varint::encode::u64`: the bytes it returns are the
/// variable-length encoding of `n`.
#[verifier::external_body]
pub(crate) fn encode_varint(n: u64) -> (out: Vec<u8>)
    ensures
        out@ == varint(n as nat),
{
    let mut buf = [0u8; 10];
    unsigned_varint::encode::u64(n, &mut buf).to_vec()
}

/// The number encoded at `at` in `s`, with the index just behind its
/// encoding, where there is one and it is no more than `max`.
pub open spec fn varint_at(s: Seq<u8>, at: int, max: u64) -> Option<(u64, usize)> {
    if 0 <= at <= s.len() {
        match parse_varint(s.subrange(at, s.len() as int)) {
            Some((n, used)) => if n <= max {
                Some((n as u64, (at + used) as usize))
            } else {
                None
            },
            None => None,
        }
    } else {
        None
    }
}

/// Reads the number encoded at `at` in `bytes`, if it is no more than `max`:
/// the number and the index just behind its encoding.
pub fn decode_varint(bytes: &[u8], at: usize, max: u64) -> (r: Option<(u64, usize)>)
    ensures
        r == varint_at(bytes@, at as int, max),
    decreases max,
{
    let ghost s = bytes@.subrange(at as int, bytes@.len() as int);
    if at >= bytes.len() {
        return None;
    }
    let b = bytes[at];
    assert(s[0] == b);
    assert(s.drop_first() =~= bytes@.subrange(at + 1, bytes@.len() as int));
    proof {
        lemma_parse_varint_is_encoding(s);
    }
    if b < 128 {
        if b as u64 <= max {
            Some((b as u64, at + 1))
        } else {
            None
        }
    } else if max < 128 {
        None
    } else {
        let low = (b - 128) as u64;
        match decode_varint(bytes, at + 1, (max - low) / 128) {
            Some((high, next)) => if high == 0 {
                None
            } else {
                Some((low + 128 * high, next))
            },
            None => None,
        }
    }
}

} // verus!
