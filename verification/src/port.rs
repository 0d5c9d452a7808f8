//! Parsing of the worker's readiness handshake: a stdout line of the exact
//! form `SIDECAR_PORT:<digits>` announcing the port the worker listens on.

use vstd::prelude::*;

verus! {

/// The handshake prefix `SIDECAR_PORT:` as a byte sequence.
pub open spec fn port_prefix() -> Seq<u8> {
    seq![
        83, 73, 68, 69, 67, 65, 82, 95, 80, 79, 82, 84, 58,
    ]
}

/// ASCII decimal digit.
pub open spec fn is_digit(b: u8) -> bool {
    48 <= b && b <= 57
}

/// Every byte of the sequence is a decimal digit.
pub open spec fn all_digits(s: Seq<u8>) -> bool {
    forall|i: int| 0 <= i < s.len() ==> is_digit(s[i])
}

/// Numeric value of a decimal digit string, most significant digit first.
pub open spec fn digits_value(s: Seq<u8>) -> nat
    decreases s.len(),
{
    if s.len() == 0 {
        0
    } else {
        digits_value(s.drop_last()) * 10 + (s.last() - 48) as nat
    }
}

/// The line starts with the handshake prefix (whatever follows it).
pub open spec fn has_port_prefix(s: Seq<u8>) -> bool {
    s.len() >= port_prefix().len() && s.take(port_prefix().len() as int) == port_prefix()
}

/// The digit part of a prefixed line: what follows `SIDECAR_PORT:`.
pub open spec fn port_digits(s: Seq<u8>) -> Seq<u8> {
    s.skip(port_prefix().len() as int)
}

/// A well-formed handshake line: the prefix followed by one or more decimal
/// digits whose value fits an unsigned 16-bit port.
pub open spec fn is_valid_port_line(s: Seq<u8>) -> bool {
    &&& has_port_prefix(s)
    &&& port_digits(s).len() > 0
    &&& all_digits(port_digits(s))
    &&& digits_value(port_digits(s)) <= u16::MAX
}

/// Appending digits never decreases the value of a digit string: the value of
/// the whole is at least the value of any prefix.
proof fn lemma_digits_value_prefix(s: Seq<u8>, n: int)
    requires
        0 <= n <= s.len(),
        all_digits(s),
    ensures
        digits_value(s.take(n)) <= digits_value(s),
    decreases s.len() - n,
{
    if n == s.len() {
        assert(s.take(n) =~= s);
    } else {
        assert(s.take(n + 1).drop_last() =~= s.take(n));
        assert(s.take(n + 1).last() == s[n]);
        assert(digits_value(s.take(n + 1)) == digits_value(s.take(n)) * 10 + (s[n] - 48) as nat);
        lemma_digits_value_prefix(s, n + 1);
    }
}

/// Parse a handshake line. Returns the announced port exactly when the line is
/// a well-formed `SIDECAR_PORT:<digits>` line whose value fits in 16 bits;
/// returns nothing for every other line.
pub fn parse_port_line(line: &Vec<u8>) -> (r: Option<u16>)
    ensures
        match r {
            Some(p) => is_valid_port_line(line@) && p == digits_value(port_digits(line@)),
            None => !is_valid_port_line(line@),
        },
{
    if !starts_with_port_prefix(line) {
        return None;
    }
    if line.len() == 13 {
        return None;
    }
    let mut acc: u32 = 0;
    let mut i: usize = 13;
    while i < line.len()
        invariant
            13 <= i <= line@.len(),
            has_port_prefix(line@),
            all_digits(line@.subrange(13, i as int)),
            acc == digits_value(line@.subrange(13, i as int)),
            acc <= u16::MAX,
        decreases line@.len() - i,
    {
        let b = line[i];
        proof {
            assert(line@.subrange(13, i + 1).drop_last() =~= line@.subrange(13, i as int));
            assert(line@.subrange(13, i + 1).last() == line@[i as int]);
        }
        if b < 48 || b > 57 {
            proof {
                assert(!all_digits(port_digits(line@))) by {
                    assert(port_digits(line@)[i - 13] == line@[i as int]);
                }
            }
            return None;
        }
        let v = acc * 10 + (b - 48) as u32;
        if v > 65535 {
            proof {
                if all_digits(port_digits(line@)) {
                    assert(port_digits(line@).take(i + 1 - 13) =~= line@.subrange(13, i + 1));
                    lemma_digits_value_prefix(port_digits(line@), i + 1 - 13);
                    assert(digits_value(port_digits(line@)) > u16::MAX);
                }
            }
            return None;
        }
        acc = v;
        i += 1;
    }
    proof {
        assert(line@.subrange(13, line@.len() as int) =~= port_digits(line@));
    }
    Some(acc as u16)
}

/// Check the 13-byte handshake prefix at the start of the line.
pub fn starts_with_port_prefix(line: &Vec<u8>) -> (r: bool)
    ensures
        r == has_port_prefix(line@),
{
    if line.len() < 13 {
        return false;
    }
    let r = line[0] == 83 && line[1] == 73 && line[2] == 68 && line[3] == 69
        && line[4] == 67 && line[5] == 65 && line[6] == 82 && line[7] == 95
        && line[8] == 80 && line[9] == 79 && line[10] == 82 && line[11] == 84
        && line[12] == 58;
    proof {
        if r {
            assert(line@.take(13) =~= port_prefix());
        } else {
            if line@.take(13) == port_prefix() {
                assert(forall|k: int| 0 <= k < 13 ==> line@[k] == port_prefix()[k]) by {
                    assert(forall|k: int| 0 <= k < 13 ==> line@.take(13)[k] == line@[k]);
                }
            }
        }
    }
    r
}

} // verus!
