//! Load-base resolution from a memory-mapping table.
//!
//! For a position-independent target the load base is the start address of
//! the first record of the live process's mapping table: the hexadecimal
//! run that opens its first line, up to the `-` that separates the record's
//! start from its end. The driver reads the table; parsing it is verified.

use vstd::prelude::*;

verus! {

/// Whether the byte is an ASCII hexadecimal digit.
pub open spec fn is_hex_digit(b: u8) -> bool {
    (48 <= b <= 57) || (65 <= b <= 70) || (97 <= b <= 102)
}

/// The value of an ASCII hexadecimal digit (meaningful only on digits).
pub open spec fn hex_digit_value(b: u8) -> int {
    if 48 <= b <= 57 {
        b - 48
    } else if 65 <= b <= 70 {
        b - 55
    } else if 97 <= b <= 102 {
        b - 87
    } else {
        0
    }
}

/// The number a big-endian run of hexadecimal digits denotes.
pub open spec fn hex_value(s: Seq<u8>) -> int
    decreases s.len(),
{
    if s.len() == 0 {
        0
    } else {
        hex_value(s.drop_last()) * 16 + hex_digit_value(s.last())
    }
}

/// The length of the leading address field: everything before the first
/// `-` or end of line.
pub open spec fn addr_field_len(s: Seq<u8>) -> int
    decreases s.len(),
{
    if s.len() == 0 {
        0
    } else if s[0] == 45 || s[0] == 10 {
        0
    } else {
        1 + addr_field_len(s.drop_first())
    }
}

/// The leading address field itself.
pub open spec fn addr_field(s: Seq<u8>) -> Seq<u8> {
    s.take(addr_field_len(s))
}

proof fn lemma_hex_value_nonneg(s: Seq<u8>)
    ensures
        hex_value(s) >= 0,
    decreases s.len(),
{
    if s.len() > 0 {
        lemma_hex_value_nonneg(s.drop_last());
    }
}

/// A longer digit run never denotes a smaller number.
proof fn lemma_hex_value_prefix_le(s: Seq<u8>, i: int, j: int)
    requires
        0 <= i <= j <= s.len(),
    ensures
        hex_value(s.take(i)) <= hex_value(s.take(j)),
    decreases j - i,
{
    if i < j {
        lemma_hex_value_prefix_le(s, i, j - 1);
        let t = s.take(j);
        assert(t.drop_last() =~= s.take(j - 1));
        lemma_hex_value_nonneg(s.take(j - 1));
    }
}

/// The field length never passes the end.
proof fn lemma_addr_field_len_le(s: Seq<u8>)
    ensures
        0 <= addr_field_len(s) <= s.len(),
    decreases s.len(),
{
    if s.len() > 0 && !(s[0] == 45 || s[0] == 10) {
        lemma_addr_field_len_le(s.drop_first());
    }
}

/// Bytes before the field length are neither `-` nor end of line; the byte
/// at the field length, if any, is one of the two.
proof fn lemma_addr_field_len_chars(s: Seq<u8>)
    ensures
        forall|k: int|
            0 <= k < addr_field_len(s) ==> #[trigger] s[k] != 45 && s[k] != 10,
        addr_field_len(s) < s.len() ==> (s[addr_field_len(s)] == 45 || s[addr_field_len(s)]
            == 10),
    decreases s.len(),
{
    lemma_addr_field_len_le(s);
    if s.len() > 0 && !(s[0] == 45 || s[0] == 10) {
        lemma_addr_field_len_chars(s.drop_first());
        assert forall|k: int| 0 <= k < addr_field_len(s) implies #[trigger] s[k] != 45 && s[k]
            != 10 by {
            if k > 0 {
                assert(s.drop_first()[k - 1] == s[k]);
            }
        }
        if addr_field_len(s) < s.len() {
            lemma_addr_field_len_le(s.drop_first());
            assert(addr_field_len(s) == 1 + addr_field_len(s.drop_first()));
            assert(s.drop_first()[addr_field_len(s.drop_first())] == s[addr_field_len(s)]);
        }
    }
}

/// Parses the load base out of a memory-mapping table: the hexadecimal run
/// that opens the table's first line, up to the `-` separator. Returns
/// `None` when the field is empty, holds a non-digit, or does not fit in a
/// 64-bit address.
#[verifier::loop_isolation(false)]
pub fn parse_base_addr(maps: &Vec<u8>) -> (r: Option<u64>)
    ensures
        ({
            let f = addr_field(maps@);
            &&& (r is Some) <==> (f.len() > 0 && (forall|k: int|
                0 <= k < f.len() ==> is_hex_digit(#[trigger] f[k])) && hex_value(f) <= u64::MAX)
            &&& (r matches Some(v) ==> v == hex_value(f))
        }),
{
    proof {
        lemma_addr_field_len_le(maps@);
        lemma_addr_field_len_chars(maps@);
    }
    let ghost f = addr_field(maps@);
    let n = maps.len();
    let mut end: usize = 0;
    while end < n && maps[end] != 45 && maps[end] != 10
        invariant
            0 <= end <= n,
            n == maps@.len(),
            end <= addr_field_len(maps@),
            forall|k: int| 0 <= k < end ==> #[trigger] maps@[k] != 45 && maps@[k] != 10,
        decreases n - end,
    {
        proof {
            if end == addr_field_len(maps@) {
                // the loop condition held, so the byte at `end` is no
                // separator, yet the field ends here: contradiction
                assert(false);
            }
        }
        end = end + 1;
    }
    proof {
        // the scan stopped exactly at the field length
        if end < addr_field_len(maps@) {
            assert(maps@[end as int] != 45 && maps@[end as int] != 10);
        }
        assert(end == addr_field_len(maps@));
        assert(f =~= maps@.take(end as int));
    }
    if end == 0 {
        return None;
    }
    let mut acc: u64 = 0;
    let mut i: usize = 0;
    while i < end
        invariant
            0 <= i <= end,
            end <= maps@.len(),
            f == maps@.take(end as int),
            f.len() == end,
            forall|k: int| 0 <= k < i ==> is_hex_digit(#[trigger] f[k]),
            acc == hex_value(f.take(i as int)),
        decreases end - i,
    {
        let b = maps[i];
        assert(f[i as int] == b);
        let d: u64 = if 48 <= b && b <= 57 {
            (b - 48) as u64
        } else if 65 <= b && b <= 70 {
            (b - 55) as u64
        } else if 97 <= b && b <= 102 {
            (b - 87) as u64
        } else {
            proof {
                // the field holds a non-digit, so no parse is owed
                assert(!is_hex_digit(f[i as int]));
            }
            return None;
        };
        assert(is_hex_digit(f[i as int]));
        assert(d == hex_digit_value(f[i as int]));
        if acc >= 0x1000_0000_0000_0000 {
            proof {
                // the next digit pushes the value past the address range
                let t = f.take(i + 1);
                assert(t.drop_last() =~= f.take(i as int));
                assert(hex_value(t) == acc * 16 + hex_digit_value(f[i as int]));
                lemma_hex_value_nonneg(f.take(i as int));
                assert(hex_value(t) > u64::MAX);
                lemma_hex_value_prefix_le(f, i + 1, f.len() as int);
                assert(f.take(f.len() as int) =~= f);
                assert(hex_value(f) > u64::MAX);
            }
            return None;
        }
        proof {
            let t = f.take(i + 1);
            assert(t.drop_last() =~= f.take(i as int));
            assert(hex_value(t) == acc * 16 + hex_digit_value(f[i as int]));
        }
        acc = acc * 16 + d;
        i = i + 1;
    }
    proof {
        assert(f.take(i as int) =~= f);
    }
    Some(acc)
}

} // verus!
