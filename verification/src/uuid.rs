//! Identifiers of jails and images.

use crate::text::{hex_pair, hex_pair_string};
use vstd::prelude::*;

verus! {

/// A 128-bit identifier, held as its sixteen bytes in the order in which
/// they are written.
#[derive(Clone, Copy, Debug, PartialEq, Eq, Hash)]
pub struct Uuid {
    pub bytes: [u8; 16],
}

impl View for Uuid {
    type V = Seq<u8>;

    open spec fn view(&self) -> Seq<u8> {
        self.bytes@
    }
}

/// The lower-case hexadecimal digits of a run of bytes, two for each.
pub open spec fn hex_run(bytes: Seq<u8>) -> Seq<char>
    decreases bytes.len(),
{
    if bytes.len() == 0 {
        Seq::<char>::empty()
    } else {
        hex_run(bytes.drop_last()) + hex_pair(bytes.last())
    }
}

/// The canonical form of an identifier: its bytes in hexadecimal, in groups
/// of four, two, two, two and six bytes with a hyphen between the groups.
pub open spec fn hyphenated_spec(bytes: Seq<u8>) -> Seq<char>
    recommends
        bytes.len() == 16,
{
    hex_run(bytes.subrange(0, 4)) + seq!['-'] + hex_run(bytes.subrange(4, 6)) + seq!['-']
        + hex_run(bytes.subrange(6, 8)) + seq!['-'] + hex_run(bytes.subrange(8, 10)) + seq!['-']
        + hex_run(bytes.subrange(10, 16))
}

/// A run of bytes takes two characters for each byte.
pub proof fn lemma_hex_run_len(bytes: Seq<u8>)
    ensures
        hex_run(bytes).len() == 2 * bytes.len(),
    decreases bytes.len(),
{
    if bytes.len() > 0 {
        lemma_hex_run_len(bytes.drop_last());
    }
}

/// The canonical form of an identifier is 36 characters long.
pub proof fn lemma_hyphenated_len(bytes: Seq<u8>)
    requires
        bytes.len() == 16,
    ensures
        hyphenated_spec(bytes).len() == 36,
{
    lemma_hex_run_len(bytes.subrange(0, 4));
    lemma_hex_run_len(bytes.subrange(4, 6));
    lemma_hex_run_len(bytes.subrange(6, 8));
    lemma_hex_run_len(bytes.subrange(8, 10));
    lemma_hex_run_len(bytes.subrange(10, 16));
}

/// Sixteen fresh random bytes in the shape of a version 4 identifier.
///
/// Calls `uuid::Uuid::new_v4`, which draws 128 random bits and then fixes
/// the version nibble to 4 and the two variant bits to `10`. Nothing else is
/// claimed of the bytes.
#[verifier::external_body]
fn fresh_v4_bytes() -> (r: [u8; 16])
    ensures
        r@[6] / 16 == 4,
        r@[8] / 64 == 2,
{
    ::uuid::Uuid::new_v4().into_bytes()
}

impl Uuid {
    /// The identifier whose bytes are all zero.
    pub fn nil() -> (r: Uuid)
        ensures
            r@ == Seq::new(16, |i: int| 0u8),
    {
        let r = Uuid { bytes: [0u8; 16] };
        assert(r@ =~= Seq::new(16, |i: int| 0u8));
        r
    }

    /// The identifier with the given bytes.
    pub fn from_bytes(bytes: [u8; 16]) -> (r: Uuid)
        ensures
            r@ == bytes@,
    {
        Uuid { bytes }
    }

    /// A fresh random identifier of version 4.
    pub fn new_v4() -> (r: Uuid)
        ensures
            r.is_v4(),
    {
        Uuid { bytes: fresh_v4_bytes() }
    }

    /// Whether the identifier carries version 4 and the standard variant.
    pub open spec fn is_v4(&self) -> bool {
        self@[6] / 16 == 4 && self@[8] / 64 == 2
    }

    /// Whether two identifiers are the same value.
    pub fn same(&self, other: &Uuid) -> (r: bool)
        ensures
            r == (self@ == other@),
    {
        let mut i: usize = 0;
        while i < 16
            invariant
                i <= 16,
                forall|j: int| 0 <= j < i ==> self@[j] == other@[j],
            decreases 16 - i,
        {
            if self.bytes[i] != other.bytes[i] {
                return false;
            }
            i = i + 1;
        }
        assert(self@ =~= other@);
        true
    }

    /// The hexadecimal digits of the bytes from `from` up to `to`.
    fn hex_group(&self, from: usize, to: usize) -> (r: String)
        requires
            from <= to <= 16,
        ensures
            r@ == hex_run(self@.subrange(from as int, to as int)),
    {
        let mut s = String::new();
        let mut i: usize = from;
        assert(self@.subrange(from as int, from as int) =~= Seq::<u8>::empty());
        while i < to
            invariant
                from <= i <= to <= 16,
                s@ == hex_run(self@.subrange(from as int, i as int)),
            decreases to - i,
        {
            let pair = hex_pair_string(self.bytes[i]);
            s.append(pair.as_str());
            proof {
                let next = self@.subrange(from as int, i + 1);
                assert(next.drop_last() =~= self@.subrange(from as int, i as int));
                assert(next.last() == self@[i as int]);
            }
            i = i + 1;
        }
        s
    }

    /// The identifier in its canonical hyphenated form.
    pub fn hyphenated(&self) -> (r: String)
        ensures
            r@ == hyphenated_spec(self@),
    {
        proof {
            reveal_strlit("-");
        }
        let mut s = self.hex_group(0, 4);
        s.append("-");
        let g = self.hex_group(4, 6);
        s.append(g.as_str());
        s.append("-");
        let g = self.hex_group(6, 8);
        s.append(g.as_str());
        s.append("-");
        let g = self.hex_group(8, 10);
        s.append(g.as_str());
        s.append("-");
        let g = self.hex_group(10, 16);
        s.append(g.as_str());
        assert("-"@ =~= seq!['-']);
        assert(s@ =~= hyphenated_spec(self@));
        s
    }
}

} // verus!
