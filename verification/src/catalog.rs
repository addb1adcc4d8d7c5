//! The star catalog: an ordered list of stars, read from a stream of
//! fixed-size records.
use vstd::prelude::*;
use std::collections::HashSet;
use crate::ieee::{Binary32, Binary64};
use crate::wire::{le_u32, read_u32};

verus! {

broadcast use vstd::std_specs::hash::group_hash_axioms;

/// A star from the catalog with position and photometric data.
#[derive(Debug, Clone, Copy)]
pub struct Star {
    /// Right Ascension in radians (J2000)
    pub ra: Binary64,
    /// Declination in radians (J2000)
    pub dec: Binary64,
    /// Visual magnitude
    pub vmag: Binary32,
    /// B-V color index
    pub bv_color: Binary32,
    /// Catalog ID (e.g., HR number for BSC)
    pub id: u32,
}

/// The number of stars that the stream's header announces.
pub open spec fn encoded_star_count(data: Seq<u8>) -> int {
    le_u32(data, 0)
}

/// The `k`-th star of the stream: right ascension, declination, magnitude
/// and color as binary32 data and the id, four bytes each, after a header of
/// four bytes.  The two angles are widened.
pub open spec fn encoded_star(data: Seq<u8>, k: int) -> Star {
    let at = 4 + 20 * k;
    Star {
        ra: Binary32 { bits: le_u32(data, at) as u32 }.spec_widen(),
        dec: Binary32 { bits: le_u32(data, at + 4) as u32 }.spec_widen(),
        vmag: Binary32 { bits: le_u32(data, at + 8) as u32 },
        bv_color: Binary32 { bits: le_u32(data, at + 12) as u32 },
        id: le_u32(data, at + 16) as u32,
    }
}

/// The stars of the stream, in the order in which it holds them.
pub open spec fn encoded_stars(data: Seq<u8>) -> Seq<Star> {
    Seq::new(encoded_star_count(data) as nat, |k: int| encoded_star(data, k))
}

/// What is said of a stream too short to hold a header.
pub open spec fn no_header_message() -> Seq<char> {
    "Data too short for header"@
}

/// What is said of a stream that ends before the last star it announces.
pub open spec fn missing_stars_message() -> Seq<char> {
    "Data too short for star count"@
}

/// Why a stream is rejected, if it is.
pub open spec fn catalog_rejection(data: Seq<u8>) -> Option<Seq<char>> {
    if data.len() < 4 {
        Some(no_header_message())
    } else if data.len() < 4 + 20 * encoded_star_count(data) {
        Some(missing_stars_message())
    } else {
        None
    }
}

/// The stars that are no fainter than the limit: a lower magnitude is a
/// brighter star.  A magnitude that is not a number is below no limit.
pub open spec fn no_fainter_than(mag_limit: Binary32) -> spec_fn(Star) -> bool {
    |s: Star| s.vmag.spec_le(mag_limit)
}

/// Whether one of the stars has the id.
pub open spec fn has_id(stars: Seq<Star>, id: u32) -> bool {
    exists|i: int| 0 <= i < stars.len() && (#[trigger] stars[i]).id == id
}

/// The stars whose id none of the known stars has.
pub open spec fn is_new_to(known: Seq<Star>) -> spec_fn(Star) -> bool {
    |s: Star| !has_id(known, s.id)
}

/// Reads the stars of a stream, or says why it is rejected.
fn decode_stars(data: &[u8]) -> (r: Result<Vec<Star>, &'static str>)
    ensures
        match r {
            Ok(stars) => catalog_rejection(data@) is None && stars@ == encoded_stars(data@),
            Err(m) => catalog_rejection(data@) == Some(m@),
        },
{
    if data.len() < 4 {
        return Err("Data too short for header");
    }
    let star_count = read_u32(data, 0);
    let expected_len: u64 = 4 + 20 * (star_count as u64);
    if (data.len() as u64) < expected_len {
        return Err("Data too short for star count");
    }
    let mut stars: Vec<Star> = Vec::with_capacity(star_count as usize);
    let mut k: usize = 0;
    while k < star_count as usize
        invariant
            0 <= k <= star_count,
            star_count == encoded_star_count(data@),
            4 + 20 * star_count <= data.len(),
            stars@.len() == k,
            forall|i: int| 0 <= i < k ==> #[trigger] stars@[i] == encoded_star(data@, i),
        decreases star_count - k,
    {
        let offset: usize = 4 + 20 * k;
        let ra = Binary32::from_bits(read_u32(data, offset)).widen();
        let dec = Binary32::from_bits(read_u32(data, offset + 4)).widen();
        let vmag = Binary32::from_bits(read_u32(data, offset + 8));
        let bv_color = Binary32::from_bits(read_u32(data, offset + 12));
        let id = read_u32(data, offset + 16);
        stars.push(Star { ra, dec, vmag, bv_color, id });
        k = k + 1;
    }
    Ok(stars)
}

/// Star catalog holding all loaded stars.
#[derive(Debug)]
pub struct StarCatalog {
    stars: Vec<Star>,
}

impl View for StarCatalog {
    type V = Seq<Star>;

    closed spec fn view(&self) -> Seq<Star> {
        self.stars@
    }
}

impl StarCatalog {
    /// Create an empty catalog.
    pub fn new() -> (r: Self)
        ensures
            r@ == Seq::<Star>::empty(),
    {
        Self { stars: Vec::new() }
    }

    /// Create a catalog of the given stars, in their order.
    pub fn from_stars(stars: Vec<Star>) -> (r: Self)
        ensures
            r@ == stars@,
    {
        Self { stars }
    }

    /// Load catalog from binary format.
    ///
    /// Binary format:
    /// - Header: u32 star_count (little-endian)
    /// - Per star (20 bytes): ra_rad, dec_rad, vmag, bv_color as binary32
    ///   data, then the id as u32
    pub fn from_binary(data: &[u8]) -> (r: Result<Self, &'static str>)
        ensures
            match r {
                Ok(catalog) => catalog_rejection(data@) is None && catalog@ == encoded_stars(
                    data@,
                ),
                Err(m) => catalog_rejection(data@) == Some(m@),
            },
    {
        match decode_stars(data) {
            Ok(stars) => Ok(Self { stars }),
            Err(m) => Err(m),
        }
    }

    /// Get all stars.
    pub fn stars(&self) -> (r: &[Star])
        ensures
            r@ == self@,
    {
        self.stars.as_slice()
    }

    /// Get stars filtered by magnitude limit, in catalog order.
    pub fn stars_brighter_than(&self, mag_limit: Binary32) -> (r: Vec<Star>)
        ensures
            r@ == self@.filter(no_fainter_than(mag_limit)),
    {
        let ghost keep = no_fainter_than(mag_limit);
        let mut bright: Vec<Star> = Vec::new();
        let mut k: usize = 0;
        while k < self.stars.len()
            invariant
                0 <= k <= self.stars@.len(),
                keep == no_fainter_than(mag_limit),
                bright@ == self.stars@.take(k as int).filter(keep),
            decreases self.stars@.len() - k,
        {
            let star = self.stars[k];
            proof {
                reveal(Seq::filter);
                let next = self.stars@.take(k + 1);
                assert(next.drop_last() =~= self.stars@.take(k as int));
            }
            if star.vmag.le(mag_limit) {
                bright.push(star);
            }
            k = k + 1;
        }
        assert(self.stars@.take(k as int) =~= self.stars@);
        bright
    }

    /// Get star count.
    pub fn len(&self) -> (n: usize)
        ensures
            n == self@.len(),
    {
        self.stars.len()
    }

    /// Check if catalog is empty.
    pub fn is_empty(&self) -> (r: bool)
        ensures
            r == (self@.len() == 0),
    {
        self.stars.len() == 0
    }

    /// Extend catalog with additional stars from binary data.
    /// Skips stars whose id the catalog had before, to avoid duplicates.
    /// Returns the number of new stars added.  A stream that is rejected
    /// leaves the catalog as it was.
    pub fn extend(&mut self, data: &[u8]) -> (r: Result<usize, &'static str>)
        ensures
            match r {
                Ok(added) => {
                    let fresh = encoded_stars(data@).filter(is_new_to(old(self)@));
                    &&& catalog_rejection(data@) is None
                    &&& final(self)@ == old(self)@ + fresh
                    &&& added == fresh.len()
                },
                Err(m) => catalog_rejection(data@) == Some(m@) && final(self)@ == old(self)@,
            },
    {
        let additional = match decode_stars(data) {
            Ok(stars) => stars,
            Err(m) => {
                return Err(m);
            },
        };
        let ghost known = self.stars@;
        let ghost fresh = is_new_to(known);

        // Build set of existing IDs for deduplication
        let mut existing_ids: HashSet<u32> = HashSet::new();
        let mut i: usize = 0;
        while i < self.stars.len()
            invariant
                0 <= i <= self.stars@.len(),
                self.stars@ == known,
                forall|id: u32|
                    existing_ids@.contains(id) <==> has_id(known.take(i as int), id),
            decreases self.stars@.len() - i,
        {
            let id = self.stars[i].id;
            existing_ids.insert(id);
            proof {
                let before = known.take(i as int);
                let after = known.take(i + 1);
                assert forall|other: u32| has_id(after, other) <==> (has_id(before, other)
                    || other == id) by {
                    if has_id(after, other) {
                        let w = choose|w: int| 0 <= w < after.len() && (#[trigger] after[w]).id
                            == other;
                        if w < i {
                            assert(before[w].id == other);
                        }
                    }
                    if has_id(before, other) {
                        let w = choose|w: int| 0 <= w < before.len() && (#[trigger] before[w]).id
                            == other;
                        assert(after[w].id == other);
                    }
                    if other == id {
                        assert(after[i as int].id == other);
                    }
                }
            }
            i = i + 1;
        }
        assert(known.take(i as int) =~= known);

        let mut added: usize = 0;
        let mut k: usize = 0;
        while k < additional.len()
            invariant
                0 <= k <= additional@.len(),
                fresh == is_new_to(known),
                forall|id: u32| existing_ids@.contains(id) <==> has_id(known, id),
                self.stars@ == known + additional@.take(k as int).filter(fresh),
                added == additional@.take(k as int).filter(fresh).len(),
                added <= k,
            decreases additional@.len() - k,
        {
            let star = additional[k];
            proof {
                reveal(Seq::filter);
                let next = additional@.take(k + 1);
                assert(next.drop_last() =~= additional@.take(k as int));
            }
            if !existing_ids.contains(&star.id) {
                self.stars.push(star);
                added = added + 1;
            }
            k = k + 1;
        }
        assert(additional@.take(k as int) =~= additional@);
        Ok(added)
    }
}

impl Default for StarCatalog {
    fn default() -> (r: Self)
        ensures
            r@ == Seq::<Star>::empty(),
    {
        Self::new()
    }
}

/// What an extension adds is new: none of the stars added has an id that a
/// star of the catalog had before.
pub proof fn lemma_extension_is_new(known: Seq<Star>, stars: Seq<Star>)
    ensures
        forall|i: int|
            0 <= i < stars.filter(is_new_to(known)).len() ==> !has_id(
                known,
                (#[trigger] stars.filter(is_new_to(known))[i]).id,
            ),
{
    let fresh = stars.filter(is_new_to(known));
    assert forall|i: int| 0 <= i < fresh.len() implies !has_id(known, (#[trigger] fresh[i]).id) by {
        stars.lemma_filter_pred(is_new_to(known), i);
    }
}

/// An extension with the same stars a second time adds nothing: after the
/// first, the catalog has every id among them.
pub proof fn lemma_second_extension_adds_nothing(known: Seq<Star>, stars: Seq<Star>)
    ensures
        stars.filter(is_new_to(known + stars.filter(is_new_to(known)))).len() == 0,
{
    let fresh = stars.filter(is_new_to(known));
    let extended = known + fresh;
    let again = stars.filter(is_new_to(extended));
    if again.len() > 0 {
        let star = again[0];
        stars.lemma_filter_pred(is_new_to(extended), 0);
        assert(!has_id(extended, star.id));
        assert(again.contains(star));
        stars.lemma_filter_contains_rev(is_new_to(extended), star);
        let at = choose|at: int| 0 <= at < stars.len() && stars[at] == star;
        if has_id(known, star.id) {
            let k = choose|k: int| 0 <= k < known.len() && (#[trigger] known[k]).id == star.id;
            assert(extended[k].id == star.id);
        } else {
            stars.lemma_filter_contains(is_new_to(known), at);
            let k = choose|k: int| 0 <= k < fresh.len() && fresh[k] == star;
            assert(extended[known.len() + k].id == star.id);
        }
        assert(false);
    }
}

} // verus!
