//! The packet-identifier filter mask: a fixed pass/reject table for
//! identifiers 0–255 plus a single policy bit for identifiers outside the
//! table.
//!
//! The mask is built once from allow/deny operations — the last
//! operation on an identifier wins — and is immutable afterwards.

use vstd::prelude::*;
use vstd::string::StringSliceAdditionalSpecFns;

verus! {

/// The value of one hexadecimal digit byte, in either case.
pub open spec fn hex_digit(b: u8) -> Option<u8> {
    if 0x30 <= b <= 0x39 {
        Some((b - 0x30) as u8)
    } else if 0x61 <= b <= 0x66 {
        Some((b - 0x61 + 10) as u8)
    } else if 0x41 <= b <= 0x46 {
        Some((b - 0x41 + 10) as u8)
    } else {
        None
    }
}

/// The value of a string of hexadecimal digit bytes; `None` if any byte is
/// not a digit.
pub open spec fn hex_value(s: Seq<u8>) -> Option<int>
    decreases s.len(),
{
    if s.len() == 0 {
        Some(0)
    } else {
        match hex_digit(s.last()) {
            None => None,
            Some(d) => match hex_value(s.drop_last()) {
                None => None,
                Some(v) => Some(16 * v + d),
            },
        }
    }
}

/// A digit that is not hexadecimal spoils the whole string.
proof fn lemma_hex_value_bad_digit(s: Seq<u8>, j: int)
    requires
        0 <= j < s.len(),
        hex_digit(s[j]) is None,
    ensures
        hex_value(s) is None,
    decreases s.len(),
{
    if j == s.len() - 1 {
    } else {
        lemma_hex_value_bad_digit(s.drop_last(), j);
    }
}

/// A hexadecimal value is never negative.
proof fn lemma_hex_value_nonneg(s: Seq<u8>)
    ensures
        match hex_value(s) {
            Some(v) => v >= 0,
            None => true,
        },
    decreases s.len(),
{
    if s.len() > 0 {
        lemma_hex_value_nonneg(s.drop_last());
    }
}

/// A prefix of a hexadecimal string is worth no more than the whole.
proof fn lemma_hex_value_prefix_le(s: Seq<u8>, i: int, v: int, w: int)
    requires
        0 <= i <= s.len(),
        hex_value(s) == Some(v),
        hex_value(s.take(i)) == Some(w),
    ensures
        w <= v,
    decreases s.len(),
{
    if i < s.len() {
        assert(s.drop_last().take(i) =~= s.take(i));
        match hex_value(s.drop_last()) {
            Some(u) => {
                lemma_hex_value_nonneg(s.drop_last());
                lemma_hex_value_prefix_le(s.drop_last(), i, u, w);
            },
            None => {
                assert(false);
            },
        }
    } else {
        assert(s.take(i) =~= s);
    }
}

/// The packet identifier a command-line argument names: an optional `0x`
/// prefix, then hexadecimal digits whose value fits one byte.
pub open spec fn spec_parse_packet_id(s: Seq<u8>) -> Option<u8> {
    let digits = if s.len() >= 2 && s[0] == 0x30 && s[1] == 0x78 {
        s.skip(2)
    } else {
        s
    };
    if digits.len() == 0 {
        None
    } else {
        match hex_value(digits) {
            Some(v) => if v < 256 {
                Some(v as u8)
            } else {
                None
            },
            None => None,
        }
    }
}

/// Parse a packet identifier written in hexadecimal, with or without a
/// `0x` prefix; `None` when a byte is not a digit, the digits are missing,
/// or the value does not fit one byte.
#[verifier::loop_isolation(false)]
pub fn parse_packet_id(s: &str) -> (r: Option<u8>)
    ensures
        r == spec_parse_packet_id(s.spec_bytes()),
{
    let b: &[u8] = s.as_bytes();
    let start: usize = if b.len() >= 2 && b[0] == 0x30 && b[1] == 0x78 {
        2
    } else {
        0
    };
    let ghost digits = if start == 2 {
        b@.skip(2)
    } else {
        b@
    };
    proof {
        if start == 0 {
            assert(digits =~= b@.skip(0));
        }
    }
    if b.len() == start {
        return None;
    }
    let mut acc: u32 = 0;
    let mut i: usize = start;
    while i < b.len()
        invariant
            start <= i <= b@.len(),
            acc <= 255,
            hex_value(digits.take(i - start)) == Some(acc as int),
        decreases b@.len() - i,
    {
        let c = b[i];
        let d: u8 = if 0x30 <= c && c <= 0x39 {
            c - 0x30
        } else if 0x61 <= c && c <= 0x66 {
            c - 0x61 + 10
        } else if 0x41 <= c && c <= 0x46 {
            c - 0x41 + 10
        } else {
            proof {
                lemma_hex_value_bad_digit(digits, i - start);
            }
            return None;
        };
        acc = acc * 16 + d as u32;
        i = i + 1;
        proof {
            assert(digits.take(i - start).drop_last() =~= digits.take(i - 1 - start));
            assert(digits.take(i - start).last() == digits[i - 1 - start]);
        }
        if acc > 255 {
            proof {
                match hex_value(digits) {
                    Some(v) => {
                        lemma_hex_value_prefix_le(digits, i - start, v, acc as int);
                    },
                    None => {},
                }
            }
            return None;
        }
    }
    proof {
        assert(digits.take(b@.len() - start) =~= digits);
    }
    Some(acc as u8)
}

/// Number of identifiers the mask table covers.
pub const MASK_TABLE_SIZE: usize = 256;

/// A per-identifier pass/reject policy, plus a catch-all policy for
/// identifiers outside the table.
///
/// Identifiers are a signed 32-bit space but the table is only meaningfully
/// sized for one byte; out-of-range identifiers route through the
/// unknown-packet policy rather than indexing out of bounds.
#[derive(Debug)]
pub struct PacketFilterMask {
    table: Vec<bool>,
    unknown: bool,
}

impl PacketFilterMask {
    /// The table covers exactly the identifiers 0–255.
    pub open spec fn wf(&self) -> bool {
        self.spec_table().len() == MASK_TABLE_SIZE
    }

    /// The pass/reject table, by identifier.
    pub closed spec fn spec_table(&self) -> Seq<bool> {
        self.table@
    }

    /// The policy for identifiers outside the table.
    pub closed spec fn spec_unknown(&self) -> bool {
        self.unknown
    }

    /// Whether the mask admits packets with identifier `id`.
    pub open spec fn spec_admits(&self, id: i32) -> bool {
        if 0 <= id < MASK_TABLE_SIZE {
            self.spec_table()[id as int]
        } else {
            self.spec_unknown()
        }
    }

    /// A mask admitting every in-table identifier per `default_admit` and
    /// every out-of-table identifier per `unknown_admit`.
    pub fn new(default_admit: bool, unknown_admit: bool) -> (r: Self)
        ensures
            r.wf(),
            forall|i: int| 0 <= i < MASK_TABLE_SIZE ==> r.spec_table()[i] == default_admit,
            r.spec_unknown() == unknown_admit,
    {
        let mut table: Vec<bool> = Vec::new();
        let mut i: usize = 0;
        while i < MASK_TABLE_SIZE
            invariant
                i <= MASK_TABLE_SIZE,
                table@.len() == i,
                forall|j: int| 0 <= j < i ==> table@[j] == default_admit,
            decreases MASK_TABLE_SIZE - i,
        {
            table.push(default_admit);
            i = i + 1;
        }
        PacketFilterMask { table, unknown: unknown_admit }
    }

    /// Let packets with identifier `id` through, overriding any earlier denial.
    pub fn allow(&mut self, id: u8)
        requires
            old(self).wf(),
        ensures
            final(self).wf(),
            final(self).spec_table() == old(self).spec_table().update(id as int, true),
            final(self).spec_unknown() == old(self).spec_unknown(),
    {
        self.table.set(id as usize, true);
    }

    /// Reject packets with identifier `id`, overriding any earlier admission.
    pub fn deny(&mut self, id: u8)
        requires
            old(self).wf(),
        ensures
            final(self).wf(),
            final(self).spec_table() == old(self).spec_table().update(id as int, false),
            final(self).spec_unknown() == old(self).spec_unknown(),
    {
        self.table.set(id as usize, false);
    }

    /// Whether the mask admits packets with identifier `id`: the table entry
    /// for 0–255, the unknown-packet policy otherwise.
    pub fn admits(&self, id: i32) -> (r: bool)
        requires
            self.wf(),
        ensures
            r == self.spec_admits(id),
    {
        if 0 <= id && id < 256 {
            self.table[id as usize]
        } else {
            self.unknown
        }
    }
}

} // verus!
