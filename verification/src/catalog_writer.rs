//! Writing a star catalog: which stars it lists, in which order, and the
//! stream that holds them.
use vstd::prelude::*;
use crate::catalog::{catalog_rejection, encoded_star_count, encoded_stars, Star};
use crate::ieee::Binary32;
use crate::stable_order::{is_stable_sort, stable_sort_by_keys};
use crate::wire::{le_u32, lemma_appended_u32, write_u32};

verus! {

/// A star as a catalog stream holds it: the angles in radians and the
/// photometric data as binary32 data, and the catalog id.
#[derive(Debug, Clone, Copy)]
pub struct StarRecord {
    /// HR number (BSC) or HIP number (Hipparcos)
    pub id: u32,
    pub ra_rad: Binary32,
    pub dec_rad: Binary32,
    pub vmag: Binary32,
    pub bv: Binary32,
}

/// The `k`-th record of a stream, as it stands there.
pub open spec fn encoded_record(data: Seq<u8>, k: int) -> StarRecord {
    let at = 4 + 20 * k;
    StarRecord {
        id: le_u32(data, at + 16) as u32,
        ra_rad: Binary32 { bits: le_u32(data, at) as u32 },
        dec_rad: Binary32 { bits: le_u32(data, at + 4) as u32 },
        vmag: Binary32 { bits: le_u32(data, at + 8) as u32 },
        bv: Binary32 { bits: le_u32(data, at + 12) as u32 },
    }
}

/// The records of a stream, in the order in which it holds them.
pub open spec fn encoded_records(data: Seq<u8>) -> Seq<StarRecord> {
    Seq::new(encoded_star_count(data) as nat, |k: int| encoded_record(data, k))
}

/// Reading a stream gives the stars of its records.
pub proof fn lemma_stars_of_encoded_records(data: Seq<u8>)
    ensures
        encoded_stars(data) == stars_of(encoded_records(data)),
{
}

/// The star that is read back from a record.
pub open spec fn star_of(record: StarRecord) -> Star {
    Star {
        ra: record.ra_rad.spec_widen(),
        dec: record.dec_rad.spec_widen(),
        vmag: record.vmag,
        bv_color: record.bv,
        id: record.id,
    }
}

/// The stars that are read back from records.
pub open spec fn stars_of(records: Seq<StarRecord>) -> Seq<Star> {
    Seq::new(records.len(), |i: int| star_of(records[i]))
}

/// The binary32 datum of value 15: a catalog lists the stars brighter than
/// this magnitude.
pub open spec fn faintest_magnitude() -> Binary32 {
    Binary32 { bits: 0x4170_0000 }
}

/// Whether a catalog lists a star of the given magnitude.
pub fn is_listed_magnitude(vmag: Binary32) -> (r: bool)
    ensures
        r == vmag.spec_lt(faintest_magnitude()),
{
    vmag.lt(Binary32 { bits: 0x4170_0000 })
}

/// The keys of the records' magnitudes.
pub open spec fn magnitudes(records: Seq<StarRecord>) -> Seq<int> {
    Seq::new(records.len(), |i: int| records[i].vmag.key())
}

/// Every record's magnitude is a number.
pub open spec fn magnitudes_are_numbers(records: Seq<StarRecord>) -> bool {
    forall|i: int| 0 <= i < records.len() ==> !(#[trigger] records[i]).vmag.is_nan()
}

/// Sort by magnitude (brightest first), stably.  Several records cannot be
/// sorted if a magnitude among them is not a number.
pub fn sort_by_magnitude(records: Vec<StarRecord>) -> (sorted: Vec<StarRecord>)
    requires
        records@.len() >= 2 ==> magnitudes_are_numbers(records@),
    ensures
        is_stable_sort(records@, magnitudes(records@), sorted@),
{
    let n = records.len();
    let mut keys: Vec<i64> = Vec::with_capacity(n);
    let mut i: usize = 0;
    while i < n
        invariant
            n == records@.len(),
            0 <= i <= n,
            keys@.len() == i,
            forall|a: int| 0 <= a < i ==> #[trigger] keys@[a] == records@[a].vmag.key(),
        decreases n - i,
    {
        keys.push(records[i].vmag.ordinal() as i64);
        i = i + 1;
    }
    stable_sort_by_keys(&records, &keys)
}

/// Appends the five fields of a record to a stream.
fn append_record(data: &mut Vec<u8>, record: StarRecord)
    ensures
        final(data)@.len() == old(data)@.len() + 20,
        forall|i: int| 0 <= i < old(data)@.len() ==> final(data)@[i] == old(data)@[i],
        le_u32(final(data)@, old(data)@.len() as int) == record.ra_rad.bits,
        le_u32(final(data)@, (old(data)@.len() + 4) as int) == record.dec_rad.bits,
        le_u32(final(data)@, (old(data)@.len() + 8) as int) == record.vmag.bits,
        le_u32(final(data)@, (old(data)@.len() + 12) as int) == record.bv.bits,
        le_u32(final(data)@, (old(data)@.len() + 16) as int) == record.id,
{
    write_u32(data, record.ra_rad.to_bits());
    proof {
        lemma_appended_u32(old(data)@, record.ra_rad.bits);
    }
    let ghost with_ra = data@;
    write_u32(data, record.dec_rad.to_bits());
    proof {
        lemma_appended_u32(with_ra, record.dec_rad.bits);
    }
    let ghost with_dec = data@;
    write_u32(data, record.vmag.to_bits());
    proof {
        lemma_appended_u32(with_dec, record.vmag.bits);
    }
    let ghost with_vmag = data@;
    write_u32(data, record.bv.to_bits());
    proof {
        lemma_appended_u32(with_vmag, record.bv.bits);
    }
    let ghost with_bv = data@;
    write_u32(data, record.id);
    proof {
        lemma_appended_u32(with_bv, record.id);
    }
}

/// The stream that holds the records: their number, then for each its right
/// ascension, declination, magnitude, color and id, four bytes each, all
/// little-endian.  The stream holds the records and nothing else, and
/// reading it gives the records' stars back.  No stream holds more records
/// than 32 bits count.
pub fn encode_catalog(records: &Vec<StarRecord>) -> (r: Option<Vec<u8>>)
    ensures
        records@.len() > u32::MAX ==> r is None,
        records@.len() <= u32::MAX ==> (r matches Some(data) && data@.len() == 4 + 20
            * records@.len() && encoded_records(data@) == records@ && catalog_rejection(data@)
            is None && encoded_stars(data@) == stars_of(records@)),
{
    let n = records.len();
    if n > u32::MAX as usize {
        return None;
    }
    let mut data: Vec<u8> = Vec::new();
    write_u32(&mut data, n as u32);
    proof {
        lemma_appended_u32(Seq::<u8>::empty(), n as u32);
    }
    let mut k: usize = 0;
    while k < n
        invariant
            n == records@.len(),
            n <= u32::MAX,
            0 <= k <= n,
            data@.len() == 4 + 20 * k,
            encoded_star_count(data@) == n,
            forall|i: int| 0 <= i < k ==> #[trigger] encoded_record(data@, i) == records@[i],
        decreases n - k,
    {
        let ghost before = data@;
        append_record(&mut data, records[k]);
        proof {
            assert forall|i: int| 0 <= i < k implies #[trigger] encoded_record(data@, i)
                == records@[i] by {
                assert(encoded_record(before, i) == records@[i]);
            }
        }
        k = k + 1;
    }
    Some(data)
}

} // verus!
