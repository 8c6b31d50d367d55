//! The counter record and its persisted layout: the count as eight
//! little-endian bytes, then the 32 bytes of the owner.
use vstd::prelude::*;
use crate::identity::Identity;

verus! {

/// The size of a record's own bytes.
pub const RECORD_SPACE: usize = 40;

/// The size of the header that the host keeps before each record.
pub const HEADER_SPACE: usize = 8;

/// The size of the storage allocated for one record, header included.
pub const ACCOUNT_SPACE: usize = 48;

/// The persisted counter: how often it was incremented, and who owns it.
#[derive(Clone, Copy, Debug)]
pub struct Counter {
    pub count: u64,
    pub authority: Identity,
}

impl View for Counter {
    type V = (u64, Seq<u8>);

    open spec fn view(&self) -> (u64, Seq<u8>) {
        (self.count, self.authority@)
    }
}

impl PartialEq for Counter {
    fn eq(&self, other: &Counter) -> (r: bool) {
        self.count == other.count && self.authority == other.authority
    }
}

impl vstd::std_specs::cmp::PartialEqSpecImpl for Counter {
    open spec fn obeys_eq_spec() -> bool {
        true
    }

    open spec fn eq_spec(&self, other: &Counter) -> bool {
        self@ == other@
    }
}

impl Eq for Counter {
}

/// Byte `i` (from the least significant) of `v`.
pub open spec fn byte_of(v: u64, i: nat) -> u8 {
    ((v >> (8 * i) as u64) & 0xff) as u8
}

/// The eight little-endian bytes of `v`.
pub open spec fn le_bytes(v: u64) -> Seq<u8> {
    seq![
        byte_of(v, 0),
        byte_of(v, 1),
        byte_of(v, 2),
        byte_of(v, 3),
        byte_of(v, 4),
        byte_of(v, 5),
        byte_of(v, 6),
        byte_of(v, 7),
    ]
}

/// The number whose little-endian bytes are the first eight of `b`.
pub open spec fn le_value(b: Seq<u8>) -> u64 {
    (b[0] as u64) | ((b[1] as u64) << 8u64) | ((b[2] as u64) << 16u64) | ((b[3] as u64) << 24u64)
        | ((b[4] as u64) << 32u64) | ((b[5] as u64) << 40u64) | ((b[6] as u64) << 48u64) | ((
    b[7] as u64) << 56u64)
}

/// The persisted bytes of a record.
pub open spec fn encoded(v: (u64, Seq<u8>)) -> Seq<u8> {
    le_bytes(v.0) + v.1
}

/// The record that a 40-byte layout holds.
pub open spec fn decoded(b: Seq<u8>) -> (u64, Seq<u8>) {
    (le_value(b), b.subrange(8, 40))
}

proof fn le_round_trip(v: u64)
    ensures
        le_value(le_bytes(v)) == v,
{
    let b = le_bytes(v);
    assert(b[0] == ((v >> 0u64) & 0xff) as u8);
    assert(b[7] == ((v >> 56u64) & 0xff) as u8);
    assert(((((v >> 0u64) & 0xff) as u8) as u64) == (v >> 0u64) & 0xff) by (bit_vector);
    assert(((((v >> 8u64) & 0xff) as u8) as u64) == (v >> 8u64) & 0xff) by (bit_vector);
    assert(((((v >> 16u64) & 0xff) as u8) as u64) == (v >> 16u64) & 0xff) by (bit_vector);
    assert(((((v >> 24u64) & 0xff) as u8) as u64) == (v >> 24u64) & 0xff) by (bit_vector);
    assert(((((v >> 32u64) & 0xff) as u8) as u64) == (v >> 32u64) & 0xff) by (bit_vector);
    assert(((((v >> 40u64) & 0xff) as u8) as u64) == (v >> 40u64) & 0xff) by (bit_vector);
    assert(((((v >> 48u64) & 0xff) as u8) as u64) == (v >> 48u64) & 0xff) by (bit_vector);
    assert(((((v >> 56u64) & 0xff) as u8) as u64) == (v >> 56u64) & 0xff) by (bit_vector);
    assert(((v >> 0u64) & 0xff) | (((v >> 8u64) & 0xff) << 8u64) | (((v >> 16u64) & 0xff)
        << 16u64) | (((v >> 24u64) & 0xff) << 24u64) | (((v >> 32u64) & 0xff) << 32u64) | (((v
        >> 40u64) & 0xff) << 40u64) | (((v >> 48u64) & 0xff) << 48u64) | (((v >> 56u64) & 0xff)
        << 56u64) == v) by (bit_vector);
}

proof fn le_value_round_trip(b: Seq<u8>)
    requires
        b.len() >= 8,
    ensures
        le_bytes(le_value(b)) == b.subrange(0, 8),
{
    let (b0, b1, b2, b3, b4, b5, b6, b7) = (b[0], b[1], b[2], b[3], b[4], b[5], b[6], b[7]);
    let v = le_value(b);
    assert(v == (b0 as u64) | ((b1 as u64) << 8u64) | ((b2 as u64) << 16u64) | ((b3 as u64)
        << 24u64) | ((b4 as u64) << 32u64) | ((b5 as u64) << 40u64) | ((b6 as u64) << 48u64) | ((
    b7 as u64) << 56u64));
    assert(((v >> 0u64) & 0xff) as u8 == b0 && ((v >> 8u64) & 0xff) as u8 == b1 && ((v >> 16u64)
        & 0xff) as u8 == b2 && ((v >> 24u64) & 0xff) as u8 == b3 && ((v >> 32u64) & 0xff) as u8
        == b4 && ((v >> 40u64) & 0xff) as u8 == b5 && ((v >> 48u64) & 0xff) as u8 == b6 && ((v
        >> 56u64) & 0xff) as u8 == b7) by (bit_vector)
        requires
            v == (b0 as u64) | ((b1 as u64) << 8u64) | ((b2 as u64) << 16u64) | ((b3 as u64)
                << 24u64) | ((b4 as u64) << 32u64) | ((b5 as u64) << 40u64) | ((b6 as u64)
                << 48u64) | ((b7 as u64) << 56u64),
    ;
    assert(le_bytes(v) =~= b.subrange(0, 8));
}

/// Decoding the bytes of a record gives the record back.
pub proof fn decode_after_encode(v: (u64, Seq<u8>))
    requires
        v.1.len() == 32,
    ensures
        encoded(v).len() == RECORD_SPACE,
        decoded(encoded(v)) == v,
{
    le_round_trip(v.0);
    let e = encoded(v);
    assert(e.subrange(0, 8) =~= le_bytes(v.0));
    assert(e.subrange(8, 40) =~= v.1);
    assert(le_value(e) == le_value(le_bytes(v.0)));
}

/// Encoding what 40 bytes decode to gives the same bytes back.
pub proof fn encode_after_decode(b: Seq<u8>)
    requires
        b.len() == RECORD_SPACE,
    ensures
        encoded(decoded(b)) == b,
{
    le_value_round_trip(b);
    assert(encoded(decoded(b)) =~= b);
}

impl Counter {
    /// The space a record takes, without the host's header.
    pub const INIT_SPACE: usize = 40;

    pub fn new(count: u64, authority: Identity) -> (r: Counter)
        ensures
            r@ == (count, authority@),
    {
        Counter { count, authority }
    }

    /// The persisted bytes of this record.
    pub fn to_bytes(&self) -> (r: Vec<u8>)
        ensures
            r@ == encoded(self@),
    {
        let mut r: Vec<u8> = Vec::with_capacity(RECORD_SPACE);
        let v = self.count;
        let mut i: u64 = 0;
        while i < 8
            invariant
                i <= 8,
                v == self.count,
                r@ =~= le_bytes(v).subrange(0, i as int),
            decreases 8 - i,
        {
            let byte = ((v >> (8 * i)) & 0xff) as u8;
            proof {
                assert(byte == byte_of(v, i as nat));
            }
            r.push(byte);
            i = i + 1;
        }
        let mut j: usize = 0;
        while j < 32
            invariant
                j <= 32,
                r@ =~= le_bytes(v) + self.authority@.subrange(0, j as int),
            decreases 32 - j,
        {
            r.push(self.authority.bytes[j]);
            j = j + 1;
        }
        r
    }

    /// Reads a record from its persisted bytes; `None` unless there are exactly 40.
    pub fn from_bytes(b: &[u8]) -> (r: Option<Counter>)
        ensures
            r is Some <==> b@.len() == RECORD_SPACE,
            r is Some ==> r.unwrap()@ == decoded(b@),
    {
        if b.len() != RECORD_SPACE {
            return None;
        }
        let count: u64 = (b[0] as u64) | ((b[1] as u64) << 8u64) | ((b[2] as u64) << 16u64) | ((
        b[3] as u64) << 24u64) | ((b[4] as u64) << 32u64) | ((b[5] as u64) << 40u64) | ((
        b[6] as u64) << 48u64) | ((b[7] as u64) << 56u64);
        let mut owner: [u8; 32] = [0u8; 32];
        let mut j: usize = 0;
        while j < 32
            invariant
                j <= 32,
                b@.len() == RECORD_SPACE,
                forall|k: int| 0 <= k < j ==> owner@[k] == b@[8 + k],
            decreases 32 - j,
        {
            owner[j] = b[8 + j];
            j = j + 1;
        }
        assert(owner@ =~= b@.subrange(8, 40));
        Some(Counter { count, authority: Identity { bytes: owner } })
    }
}

} // verus!
