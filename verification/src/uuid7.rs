//! The identifier type and its 128-bit layout: a 48-bit big-endian millisecond
//! timestamp, then 74 random bits, with the version nibble fixed to 7 and the
//! variant bits fixed to `10`.
use vstd::prelude::*;

verus! {

/// A version-7 UUID, held as the single 128-bit value that its 16-byte
/// big-endian representation denotes.
#[derive(Clone, Copy, PartialEq, Eq, Structural, Hash, Debug, PartialOrd, Ord)]
pub struct UuidV7 {
    pub value: u128,
}

/// The millisecond timestamp an identifier carries: its top 48 bits.
pub open spec fn spec_timestamp_of(v: u128) -> u64 {
    (v >> 80) as u64
}

/// The version field: the four bits just below the timestamp.
pub open spec fn spec_version_of(v: u128) -> u128 {
    (v >> 76) & 0xf
}

/// The variant field: the top two bits of the ninth byte.
pub open spec fn spec_variant_of(v: u128) -> u128 {
    (v >> 62) & 0x3
}

/// An identifier is a well-formed version-7 UUID when its version field is 7
/// and its variant field is the two bits `10`.
pub open spec fn is_uuid_v7(v: u128) -> bool {
    spec_version_of(v) == 7 && spec_variant_of(v) == 2
}

/// The 128-bit value assembled from a timestamp and ten random bytes: the low
/// 48 bits of the timestamp on top, then the random bytes, with the version
/// nibble overwritten by 7 and the top two bits of the third random byte
/// overwritten by `10`.
pub open spec fn pack_bits(
    ts: u64,
    b0: u8,
    b1: u8,
    b2: u8,
    b3: u8,
    b4: u8,
    b5: u8,
    b6: u8,
    b7: u8,
    b8: u8,
    b9: u8,
) -> u128 {
    (((ts & 0xffff_ffff_ffff) as u128) << 80) | ((((b0 & 0x0f) | 0x70) as u128) << 72) | ((
    b1 as u128) << 64) | ((((b2 & 0x3f) | 0x80) as u128) << 56) | ((b3 as u128) << 48) | ((
    b4 as u128) << 40) | ((b5 as u128) << 32) | ((b6 as u128) << 24) | ((b7 as u128) << 16) | ((
    b8 as u128) << 8) | (b9 as u128)
}

/// `pack_bits` applied to a sequence of ten random bytes.
pub open spec fn spec_pack(ts: u64, rnd: Seq<u8>) -> u128 {
    pack_bits(
        ts,
        rnd[0],
        rnd[1],
        rnd[2],
        rnd[3],
        rnd[4],
        rnd[5],
        rnd[6],
        rnd[7],
        rnd[8],
        rnd[9],
    )
}

/// Whatever the timestamp and random bytes, the assembled value carries the
/// fixed version and variant fields and the low 48 bits of the timestamp.
pub proof fn lemma_pack_bits_fields(
    ts: u64,
    b0: u8,
    b1: u8,
    b2: u8,
    b3: u8,
    b4: u8,
    b5: u8,
    b6: u8,
    b7: u8,
    b8: u8,
    b9: u8,
)
    by (bit_vector)
    ensures
        spec_version_of(pack_bits(ts, b0, b1, b2, b3, b4, b5, b6, b7, b8, b9)) == 7,
        spec_variant_of(pack_bits(ts, b0, b1, b2, b3, b4, b5, b6, b7, b8, b9)) == 2,
        spec_timestamp_of(pack_bits(ts, b0, b1, b2, b3, b4, b5, b6, b7, b8, b9)) == (ts
            & 0xffff_ffff_ffff),
        pack_bits(ts, b0, b1, b2, b3, b4, b5, b6, b7, b8, b9) >> 80 == ((ts
            & 0xffff_ffff_ffff) as u128),
{
}

/// As `lemma_pack_bits_fields`, stated of a byte sequence.
pub proof fn lemma_pack_fields(ts: u64, rnd: Seq<u8>)
    requires
        rnd.len() == 10,
    ensures
        spec_version_of(spec_pack(ts, rnd)) == 7,
        spec_variant_of(spec_pack(ts, rnd)) == 2,
        spec_timestamp_of(spec_pack(ts, rnd)) == (ts & 0xffff_ffff_ffff),
        spec_pack(ts, rnd) >> 80 == ((ts & 0xffff_ffff_ffff) as u128),
{
    lemma_pack_bits_fields(
        ts,
        rnd[0],
        rnd[1],
        rnd[2],
        rnd[3],
        rnd[4],
        rnd[5],
        rnd[6],
        rnd[7],
        rnd[8],
        rnd[9],
    );
}

/// Identifiers order by timestamp first: whatever the random bytes, a strictly
/// larger timestamp below 2^48 gives a strictly larger 128-bit value.
pub proof fn lemma_pack_strictly_increasing(ts1: u64, r1: Seq<u8>, ts2: u64, r2: Seq<u8>)
    requires
        r1.len() == 10,
        r2.len() == 10,
        ts1 < ts2,
        ts2 < 0x1_0000_0000_0000,
    ensures
        spec_pack(ts1, r1) < spec_pack(ts2, r2),
{
    lemma_pack_fields(ts1, r1);
    lemma_pack_fields(ts2, r2);
    assert(ts1 & 0xffff_ffff_ffff == ts1 && ts2 & 0xffff_ffff_ffff == ts2) by (bit_vector)
        requires
            ts1 < ts2,
            ts2 < 0x1_0000_0000_0000,
    ;
    let x = spec_pack(ts1, r1);
    let y = spec_pack(ts2, r2);
    assert(spec_timestamp_of(x) < spec_timestamp_of(y));
    assert(x < y) by (bit_vector)
        requires
            (x >> 80) < (y >> 80),
    ;
}

/// A run of identifiers is strictly increasing as raw 128-bit values
/// whenever each one packs a strictly larger timestamp than the one before,
/// all below 2^48 — as the sequencing rule arranges for identifiers
/// generated in turn by one process.
pub proof fn lemma_sequence_strictly_increasing(ids: Seq<u128>, ts: Seq<u64>, rnds: Seq<Seq<u8>>)
    requires
        ids.len() == ts.len(),
        ids.len() == rnds.len(),
        forall|i: int|
            0 <= i < ids.len() ==> #[trigger] ids[i] == spec_pack(ts[i], rnds[i]) && rnds[i].len()
                == 10 && ts[i] < 0x1_0000_0000_0000,
        forall|i: int| 0 <= i < ids.len() - 1 ==> #[trigger] ts[i] < ts[i + 1],
    ensures
        forall|i: int| 0 <= i < ids.len() - 1 ==> #[trigger] ids[i] < ids[i + 1],
{
    assert forall|i: int| 0 <= i < ids.len() - 1 implies #[trigger] ids[i] < ids[i + 1] by {
        assert(ids[i] == spec_pack(ts[i], rnds[i]));
        assert(ids[i + 1] == spec_pack(ts[i + 1], rnds[i + 1]));
        lemma_pack_strictly_increasing(ts[i], rnds[i], ts[i + 1], rnds[i + 1]);
    }
}

/// The 16-byte big-endian representation of an identifier value.
pub open spec fn spec_bytes_of(v: u128) -> Seq<u8> {
    seq![
        (v >> 120) as u8,
        (v >> 112) as u8,
        (v >> 104) as u8,
        (v >> 96) as u8,
        (v >> 88) as u8,
        (v >> 80) as u8,
        (v >> 72) as u8,
        (v >> 64) as u8,
        (v >> 56) as u8,
        (v >> 48) as u8,
        (v >> 40) as u8,
        (v >> 32) as u8,
        (v >> 24) as u8,
        (v >> 16) as u8,
        (v >> 8) as u8,
        v as u8,
    ]
}

/// The identifier value that 16 big-endian bytes denote.
pub open spec fn spec_value_of_bytes(s: Seq<u8>) -> u128 {
    ((s[0] as u128) << 120) | ((s[1] as u128) << 112) | ((s[2] as u128) << 104) | ((
    s[3] as u128) << 96) | ((s[4] as u128) << 88) | ((s[5] as u128) << 80) | ((s[6] as u128)
        << 72) | ((s[7] as u128) << 64) | ((s[8] as u128) << 56) | ((s[9] as u128) << 48) | ((
    s[10] as u128) << 40) | ((s[11] as u128) << 32) | ((s[12] as u128) << 24) | ((s[13] as u128)
        << 16) | ((s[14] as u128) << 8) | (s[15] as u128)
}

/// Reading back the 16 bytes of a value gives the value: the binary round
/// trip is the identity on every identifier.
pub proof fn lemma_bytes_round_trip(v: u128)
    ensures
        spec_value_of_bytes(spec_bytes_of(v)) == v,
{
    let b0 = (v >> 120) as u8;
    let b1 = (v >> 112) as u8;
    let b2 = (v >> 104) as u8;
    let b3 = (v >> 96) as u8;
    let b4 = (v >> 88) as u8;
    let b5 = (v >> 80) as u8;
    let b6 = (v >> 72) as u8;
    let b7 = (v >> 64) as u8;
    let b8 = (v >> 56) as u8;
    let b9 = (v >> 48) as u8;
    let b10 = (v >> 40) as u8;
    let b11 = (v >> 32) as u8;
    let b12 = (v >> 24) as u8;
    let b13 = (v >> 16) as u8;
    let b14 = (v >> 8) as u8;
    let b15 = v as u8;
    assert(((b0 as u128) << 120) | ((b1 as u128) << 112) | ((b2 as u128) << 104) | ((
    b3 as u128) << 96) | ((b4 as u128) << 88) | ((b5 as u128) << 80) | ((b6 as u128) << 72) | ((
    b7 as u128) << 64) | ((b8 as u128) << 56) | ((b9 as u128) << 48) | ((b10 as u128) << 40) | ((
    b11 as u128) << 32) | ((b12 as u128) << 24) | ((b13 as u128) << 16) | ((b14 as u128) << 8) | (
    b15 as u128) == v) by (bit_vector)
        requires
            b0 == (v >> 120) as u8,
            b1 == (v >> 112) as u8,
            b2 == (v >> 104) as u8,
            b3 == (v >> 96) as u8,
            b4 == (v >> 88) as u8,
            b5 == (v >> 80) as u8,
            b6 == (v >> 72) as u8,
            b7 == (v >> 64) as u8,
            b8 == (v >> 56) as u8,
            b9 == (v >> 48) as u8,
            b10 == (v >> 40) as u8,
            b11 == (v >> 32) as u8,
            b12 == (v >> 24) as u8,
            b13 == (v >> 16) as u8,
            b14 == (v >> 8) as u8,
            b15 == v as u8,
    ;
}

impl UuidV7 {
    /// The identifier with the given 128-bit value.
    pub fn from_u128(value: u128) -> (r: UuidV7)
        ensures
            r.value == value,
    {
        UuidV7 { value }
    }

    /// The 128-bit value of this identifier.
    pub fn as_u128(&self) -> (r: u128)
        ensures
            r == self.value,
    {
        self.value
    }

    /// Assembles an identifier from an effective timestamp and ten random
    /// bytes, exactly as `spec_pack` lays them out.
    pub fn from_parts(timestamp: u64, random: &[u8; 10]) -> (r: UuidV7)
        ensures
            r.value == spec_pack(timestamp, random@),
            is_uuid_v7(r.value),
            spec_timestamp_of(r.value) == (timestamp & 0xffff_ffff_ffff),
    {
        let value: u128 = (((timestamp & 0xffff_ffff_ffff) as u128) << 80) | ((((random[0] & 0x0f)
            | 0x70) as u128) << 72) | ((random[1] as u128) << 64) | ((((random[2] & 0x3f)
            | 0x80) as u128) << 56) | ((random[3] as u128) << 48) | ((random[4] as u128) << 40) | ((
        random[5] as u128) << 32) | ((random[6] as u128) << 24) | ((random[7] as u128) << 16) | ((
        random[8] as u128) << 8) | (random[9] as u128);
        proof {
            lemma_pack_fields(timestamp, random@);
        }
        UuidV7 { value }
    }

    /// The version field of this identifier, 7 for every assembled one.
    pub fn get_version_num(&self) -> (n: usize)
        ensures
            n as u128 == spec_version_of(self.value),
    {
        let n: usize = ((self.value >> 76) & 0xf) as usize;
        proof {
            let v = self.value;
            assert(((v >> 76) & 0xf) as usize as u128 == (v >> 76) & 0xf) by (bit_vector);
        }
        n
    }

    /// The two variant bits of this identifier, `10` for every assembled one.
    pub fn get_variant_bits(&self) -> (b: u8)
        ensures
            b as u128 == spec_variant_of(self.value),
    {
        let b: u8 = ((self.value >> 62) & 0x3) as u8;
        proof {
            let v = self.value;
            assert(((v >> 62) & 0x3) as u8 as u128 == (v >> 62) & 0x3) by (bit_vector);
        }
        b
    }

    /// The millisecond timestamp this identifier carries in its top 48 bits.
    pub fn timestamp_ms(&self) -> (t: u64)
        ensures
            t == spec_timestamp_of(self.value),
    {
        (self.value >> 80) as u64
    }

    /// The 16-byte big-endian representation of this identifier.
    pub fn to_bytes(&self) -> (r: Vec<u8>)
        ensures
            r@ == spec_bytes_of(self.value),
    {
        let v = self.value;
        let mut out: Vec<u8> = Vec::new();
        out.push((v >> 120) as u8);
        out.push((v >> 112) as u8);
        out.push((v >> 104) as u8);
        out.push((v >> 96) as u8);
        out.push((v >> 88) as u8);
        out.push((v >> 80) as u8);
        out.push((v >> 72) as u8);
        out.push((v >> 64) as u8);
        out.push((v >> 56) as u8);
        out.push((v >> 48) as u8);
        out.push((v >> 40) as u8);
        out.push((v >> 32) as u8);
        out.push((v >> 24) as u8);
        out.push((v >> 16) as u8);
        out.push((v >> 8) as u8);
        out.push(v as u8);
        proof {
            assert(out@ =~= spec_bytes_of(v));
        }
        out
    }

    /// The identifier the given 16 big-endian bytes denote.
    pub fn from_bytes(bytes: &[u8; 16]) -> (r: UuidV7)
        ensures
            r.value == spec_value_of_bytes(bytes@),
    {
        let value: u128 = ((bytes[0] as u128) << 120) | ((bytes[1] as u128) << 112) | ((
        bytes[2] as u128) << 104) | ((bytes[3] as u128) << 96) | ((bytes[4] as u128) << 88) | ((
        bytes[5] as u128) << 80) | ((bytes[6] as u128) << 72) | ((bytes[7] as u128) << 64) | ((
        bytes[8] as u128) << 56) | ((bytes[9] as u128) << 48) | ((bytes[10] as u128) << 40) | ((
        bytes[11] as u128) << 32) | ((bytes[12] as u128) << 24) | ((bytes[13] as u128) << 16) | ((
        bytes[14] as u128) << 8) | (bytes[15] as u128);
        UuidV7 { value }
    }
}

} // verus!
