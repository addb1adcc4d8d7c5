//! Sampled satellite trajectories: ingestion, time order, coverage, and the
//! choice of the samples between which a position is interpolated.
use vstd::prelude::*;
use crate::ieee::Binary64;
use crate::time_order::{
    all_times_are_numbers, is_time_sort_of, sort_by_time, time_ordered, times_are_numbers,
};
use crate::wire::{le_u32, le_u64, read_u32, read_u64};

verus! {

/// Identifier for supported satellites.
#[derive(Debug, Clone, Copy, PartialEq, Eq, Hash, Structural)]
pub enum SatelliteId {
    /// International Space Station (NORAD ID: 25544)
    ISS,
    /// Hubble Space Telescope (NORAD ID: 20580)
    Hubble,
}

impl SatelliteId {
    /// All supported satellites, in buffer order.
    pub const ALL: [SatelliteId; 2] = [SatelliteId::ISS, SatelliteId::Hubble];

    pub open spec fn spec_name(self) -> Seq<char> {
        match self {
            SatelliteId::ISS => "ISS"@,
            SatelliteId::Hubble => "Hubble"@,
        }
    }

    pub open spec fn spec_full_name(self) -> Seq<char> {
        match self {
            SatelliteId::ISS => "International Space Station"@,
            SatelliteId::Hubble => "Hubble Space Telescope"@,
        }
    }

    pub open spec fn spec_horizons_id(self) -> int {
        match self {
            SatelliteId::ISS => -125544,
            SatelliteId::Hubble => -48,
        }
    }

    pub open spec fn spec_index(self) -> int {
        match self {
            SatelliteId::ISS => 0,
            SatelliteId::Hubble => 1,
        }
    }

    /// Get the human-readable name for this satellite.
    pub fn name(&self) -> (s: &'static str)
        ensures
            s@ == self.spec_name(),
    {
        match self {
            SatelliteId::ISS => "ISS",
            SatelliteId::Hubble => "Hubble",
        }
    }

    /// Get the full name for this satellite.
    pub fn full_name(&self) -> (s: &'static str)
        ensures
            s@ == self.spec_full_name(),
    {
        match self {
            SatelliteId::ISS => "International Space Station",
            SatelliteId::Hubble => "Hubble Space Telescope",
        }
    }

    /// Get the JPL Horizons ID for this satellite.
    pub fn horizons_id(&self) -> (id: i32)
        ensures
            id == self.spec_horizons_id(),
    {
        match self {
            SatelliteId::ISS => -125544,
            SatelliteId::Hubble => -48,
        }
    }

    /// Get the index in the satellite array (for buffer access).
    pub fn index(&self) -> (i: usize)
        ensures
            i == self.spec_index(),
            i < 2,
            SatelliteId::ALL[i as int] == *self,
    {
        match self {
            SatelliteId::ISS => 0,
            SatelliteId::Hubble => 1,
        }
    }

    /// Get a satellite by its index: the inverse of `index`.
    pub fn from_index(index: usize) -> (r: Option<SatelliteId>)
        ensures
            index < 2 ==> r == Some(SatelliteId::ALL[index as int]),
            index >= 2 ==> r is None,
            forall|s: SatelliteId| r == Some(s) <==> s.spec_index() == index,
    {
        if index == 0 {
            Some(SatelliteId::ISS)
        } else if index == 1 {
            Some(SatelliteId::Hubble)
        } else {
            None
        }
    }
}

/// A single ephemeris point for a satellite: a Julian Date (TDB) and a
/// position in km in the Earth-centered inertial J2000 frame.
#[derive(Debug, Clone, Copy)]
pub struct SatelliteEphemerisPoint {
    /// Julian Date (TDB)
    pub jd: Binary64,
    /// X position in km (ECI J2000)
    pub x_km: Binary64,
    /// Y position in km (ECI J2000)
    pub y_km: Binary64,
    /// Z position in km (ECI J2000)
    pub z_km: Binary64,
}

/// The number of samples that the stream's header announces.
pub open spec fn encoded_count(data: Seq<u8>) -> int {
    le_u32(data, 0)
}

/// The `k`-th sample of the stream: four binary64 data of eight bytes each,
/// after a header of four bytes.
pub open spec fn encoded_point(data: Seq<u8>, k: int) -> SatelliteEphemerisPoint {
    let at = 4 + 32 * k;
    SatelliteEphemerisPoint {
        jd: Binary64 { bits: le_u64(data, at) as u64 },
        x_km: Binary64 { bits: le_u64(data, at + 8) as u64 },
        y_km: Binary64 { bits: le_u64(data, at + 16) as u64 },
        z_km: Binary64 { bits: le_u64(data, at + 24) as u64 },
    }
}

/// The samples of the stream, in the order in which it holds them.
pub open spec fn encoded_points(data: Seq<u8>) -> Seq<SatelliteEphemerisPoint> {
    Seq::new(encoded_count(data) as nat, |k: int| encoded_point(data, k))
}

/// What is said of a stream too short to hold a header.
pub open spec fn too_short_message() -> Seq<char> {
    "Satellite ephemeris data too short"@
}

/// What is said of a stream that ends before the last sample it announces.
pub open spec fn truncated_message() -> Seq<char> {
    "Satellite ephemeris data truncated"@
}

/// What is said of a stream whose samples cannot be put in time order.
pub open spec fn unordered_message() -> Seq<char> {
    "Satellite ephemeris time is not a number"@
}

/// Why a stream is rejected, if it is.  Samples can be put in order unless
/// there are several of them and one has a time that is not a number.
pub open spec fn rejection(data: Seq<u8>) -> Option<Seq<char>> {
    if data.len() < 4 {
        Some(too_short_message())
    } else if data.len() < 4 + 32 * encoded_count(data) {
        Some(truncated_message())
    } else if encoded_count(data) >= 2 && !times_are_numbers(encoded_points(data)) {
        Some(unordered_message())
    } else {
        None
    }
}

/// The samples from which the position at a time is to be computed.
#[derive(Debug, Clone, Copy)]
pub enum Interpolant {
    /// A sample taken at that very time.
    Exact { sample: SatelliteEphemerisPoint },
    /// The two samples around the time, where fewer than two samples lie on
    /// one of its sides: the position is taken on the line between them.
    Linear { before: SatelliteEphemerisPoint, after: SatelliteEphemerisPoint },
    /// The two samples before the time and the two after it, in time order:
    /// the position is taken on the Catmull-Rom spline through them, between
    /// `before` and `after`.
    Cubic {
        earlier: SatelliteEphemerisPoint,
        before: SatelliteEphemerisPoint,
        after: SatelliteEphemerisPoint,
        later: SatelliteEphemerisPoint,
    },
}

/// Sample `i` is the first one taken at time `jd`.
pub open spec fn first_at(s: Seq<SatelliteEphemerisPoint>, jd: Binary64, i: int) -> bool {
    &&& 0 <= i < s.len()
    &&& s[i].jd.key() == jd.key()
    &&& forall|k: int| 0 <= k < i ==> s[k].jd.key() < jd.key()
}

/// Time `jd` lies strictly between the samples `i - 1` and `i`.
pub open spec fn brackets(s: Seq<SatelliteEphemerisPoint>, jd: Binary64, i: int) -> bool {
    0 < i < s.len() && s[i - 1].jd.key() < jd.key() < s[i].jd.key()
}

/// The time range of the samples contains `jd`.
pub open spec fn covered(s: Seq<SatelliteEphemerisPoint>, jd: Binary64) -> bool {
    s.len() > 0 && s[0].jd.spec_le(jd) && jd.spec_le(s[s.len() - 1].jd)
}

/// `r` is what the samples `s`, in time order, give for time `jd`: nothing
/// outside their range or with fewer than two of them; else the first sample
/// of that time, if there is one; else the samples around `jd`, four where
/// two lie on each side and two otherwise.
pub open spec fn is_interpolant_of(
    s: Seq<SatelliteEphemerisPoint>,
    jd: Binary64,
    r: Option<Interpolant>,
) -> bool {
    match r {
        None => s.len() < 2 || !covered(s, jd),
        Some(Interpolant::Exact { sample }) => s.len() >= 2 && exists|i: int|
            first_at(s, jd, i) && sample == #[trigger] s[i],
        Some(Interpolant::Linear { before, after }) => s.len() >= 2 && exists|i: int|
            brackets(s, jd, i) && (i < 2 || i >= s.len() - 1) && before == s[i - 1] && after
                == #[trigger] s[i],
        Some(Interpolant::Cubic { earlier, before, after, later }) => s.len() >= 2 && exists|
            i: int,
        |
            brackets(s, jd, i) && 2 <= i < s.len() - 1 && earlier == s[i - 2] && before == s[i
                - 1] && after == #[trigger] s[i] && later == s[i + 1],
    }
}

/// Samples in time order, with times that are numbers, give one thing for a
/// time: the choice is settled by the samples and the time alone.
pub proof fn lemma_interpolant_is_determined(
    s: Seq<SatelliteEphemerisPoint>,
    jd: Binary64,
    first: Option<Interpolant>,
    second: Option<Interpolant>,
)
    requires
        time_ordered(s),
        times_are_numbers(s),
        is_interpolant_of(s, jd, first),
        is_interpolant_of(s, jd, second),
    ensures
        first == second,
{
}

/// Satellite ephemeris container: the samples of one satellite in time
/// order.  Where it holds more than one sample, every time is a number.
#[derive(Debug)]
pub struct SatelliteEphemeris {
    /// Which satellite this ephemeris is for
    id: SatelliteId,
    /// Sorted ephemeris points (by Julian Date)
    points: Vec<SatelliteEphemerisPoint>,
}

impl View for SatelliteEphemeris {
    type V = Seq<SatelliteEphemerisPoint>;

    closed spec fn view(&self) -> Seq<SatelliteEphemerisPoint> {
        self.points@
    }
}

impl Clone for SatelliteEphemeris {
    fn clone(&self) -> (r: Self)
        ensures
            r@ == self@,
            r.spec_id() == self.spec_id(),
    {
        proof {
            use_type_invariant(self);
        }
        let mut points: Vec<SatelliteEphemerisPoint> = Vec::with_capacity(self.points.len());
        let mut k: usize = 0;
        while k < self.points.len()
            invariant
                0 <= k <= self.points@.len(),
                points@ == self.points@.take(k as int),
            decreases self.points@.len() - k,
        {
            points.push(self.points[k]);
            assert(self.points@.take(k + 1) =~= self.points@.take(k as int).push(
                self.points@[k as int],
            ));
            k = k + 1;
        }
        Self { id: self.id, points }
    }
}

impl SatelliteEphemeris {
    #[verifier::type_invariant]
    spec fn in_order(self) -> bool {
        time_ordered(self.points@) && (self.points@.len() >= 2 ==> times_are_numbers(
            self.points@,
        ))
    }

    pub closed spec fn spec_id(&self) -> SatelliteId {
        self.id
    }

    /// Create a new ephemeris from a list of points, which are sorted by
    /// Julian Date.  Several points cannot be sorted if a time among them is
    /// not a number.
    pub fn new(id: SatelliteId, points: Vec<SatelliteEphemerisPoint>) -> (r: Self)
        requires
            points@.len() >= 2 ==> times_are_numbers(points@),
        ensures
            r.spec_id() == id,
            is_time_sort_of(points@, r@),
            time_ordered(r@),
            r@.len() >= 2 ==> times_are_numbers(r@),
    {
        Self { id, points: sort_by_time(points) }
    }

    /// Create from binary data.
    /// Format: a count of four bytes, then for each point its Julian Date and
    /// its x, y and z in km, eight bytes each, all little-endian.  Nothing is
    /// read from a stream that is shorter than its header announces.
    pub fn from_binary(id: SatelliteId, data: &[u8]) -> (r: Result<Self, &'static str>)
        ensures
            match r {
                Ok(e) => rejection(data@) is None && e.spec_id() == id && is_time_sort_of(
                    encoded_points(data@),
                    e@,
                ) && time_ordered(e@),
                Err(m) => rejection(data@) == Some(m@),
            },
    {
        if data.len() < 4 {
            return Err("Satellite ephemeris data too short");
        }
        let count = read_u32(data, 0);
        let expected_len: u64 = 4 + 32 * (count as u64);
        if (data.len() as u64) < expected_len {
            return Err("Satellite ephemeris data truncated");
        }
        let mut points: Vec<SatelliteEphemerisPoint> = Vec::with_capacity(count as usize);
        let mut k: usize = 0;
        while k < count as usize
            invariant
                0 <= k <= count,
                count == encoded_count(data@),
                4 + 32 * count <= data.len(),
                points@.len() == k,
                forall|i: int| 0 <= i < k ==> #[trigger] points@[i] == encoded_point(data@, i),
            decreases count - k,
        {
            let offset: usize = 4 + 32 * k;
            let jd = Binary64::from_bits(read_u64(data, offset));
            let x_km = Binary64::from_bits(read_u64(data, offset + 8));
            let y_km = Binary64::from_bits(read_u64(data, offset + 16));
            let z_km = Binary64::from_bits(read_u64(data, offset + 24));
            points.push(SatelliteEphemerisPoint { jd, x_km, y_km, z_km });
            k = k + 1;
        }
        assert(points@ =~= encoded_points(data@));
        if count >= 2 && !all_times_are_numbers(&points) {
            return Err("Satellite ephemeris time is not a number");
        }
        Ok(Self::new(id, points))
    }

    /// Get the satellite ID for this ephemeris.
    #[verifier::when_used_as_spec(spec_id)]
    pub fn id(&self) -> (id: SatelliteId)
        ensures
            id == self.spec_id(),
    {
        self.id
    }

    /// Check if a given Julian Date is within the ephemeris coverage.
    pub fn covers(&self, jd: Binary64) -> (r: bool)
        ensures
            r == covered(self@, jd),
    {
        if self.points.len() == 0 {
            return false;
        }
        self.points[0].jd.le(jd) && jd.le(self.points[self.points.len() - 1].jd)
    }

    /// Get the time range covered by this ephemeris.
    pub fn time_range(&self) -> (r: Option<(Binary64, Binary64)>)
        ensures
            self@.len() == 0 ==> r is None,
            self@.len() > 0 ==> r == Some((self@[0].jd, self@[self@.len() - 1].jd)),
    {
        if self.points.len() == 0 {
            None
        } else {
            Some((self.points[0].jd, self.points[self.points.len() - 1].jd))
        }
    }

    /// Choose the samples from which the position at a given Julian Date is
    /// interpolated.  Returns None if the date is outside the ephemeris range:
    /// nothing is extrapolated.
    pub fn interpolate(&self, jd: Binary64) -> (r: Option<Interpolant>)
        ensures
            is_interpolant_of(self@, jd, r),
            r is Some <==> self@.len() >= 2 && covered(self@, jd),
            time_ordered(self@),
    {
        proof {
            use_type_invariant(self);
        }
        let n = self.points.len();
        if n < 2 || jd.is_nan() {
            return None;
        }
        let t = jd.ordinal();
        let mut lo: usize = 0;
        let mut hi: usize = n;
        while lo < hi
            invariant
                n == self.points@.len(),
                0 <= lo <= hi <= n,
                t == jd.key(),
                time_ordered(self.points@),
                forall|k: int| 0 <= k < lo ==> self.points@[k].jd.key() < t,
                forall|k: int| hi <= k < n ==> self.points@[k].jd.key() >= t,
            decreases hi - lo,
        {
            let mid = lo + (hi - lo) / 2;
            if self.points[mid].jd.ordinal() < t {
                lo = mid + 1;
            } else {
                hi = mid;
            }
        }
        let idx = lo;
        if idx < n && self.points[idx].jd.ordinal() == t {
            let sample = self.points[idx];
            return Some(Interpolant::Exact { sample });
        }
        if idx == 0 || idx >= n {
            return None;
        }
        if idx < 2 || idx >= n - 1 {
            let before = self.points[idx - 1];
            let after = self.points[idx];
            return Some(Interpolant::Linear { before, after });
        }
        let earlier = self.points[idx - 2];
        let before = self.points[idx - 1];
        let after = self.points[idx];
        let later = self.points[idx + 1];
        assert(earlier == self@[idx - 2] && before == self@[idx - 1] && after == self@[idx as int]
            && later == self@[idx + 1]);
        Some(Interpolant::Cubic { earlier, before, after, later })
    }

    /// Get the number of ephemeris points.
    pub fn len(&self) -> (n: usize)
        ensures
            n == self@.len(),
    {
        self.points.len()
    }

    /// Check if the ephemeris is empty.
    pub fn is_empty(&self) -> (r: bool)
        ensures
            r == (self@.len() == 0),
    {
        self.points.len() == 0
    }
}

/// The name of a sample in the ISS-only interface.
pub type IssEphemerisPoint = SatelliteEphemerisPoint;

/// ISS ephemeris container: a satellite ephemeris whose satellite is the
/// ISS.
#[derive(Debug)]
pub struct IssEphemeris(SatelliteEphemeris);

impl View for IssEphemeris {
    type V = Seq<SatelliteEphemerisPoint>;

    closed spec fn view(&self) -> Seq<SatelliteEphemerisPoint> {
        self.0@
    }
}

impl Clone for IssEphemeris {
    fn clone(&self) -> (r: Self)
        ensures
            r@ == self@,
    {
        proof {
            use_type_invariant(self);
        }
        Self(self.0.clone())
    }
}

impl IssEphemeris {
    #[verifier::type_invariant]
    spec fn is_iss(self) -> bool {
        self.0.spec_id() == SatelliteId::ISS
    }

    pub closed spec fn spec_inner(&self) -> SatelliteEphemeris {
        self.0
    }

    /// Create a new ISS ephemeris from a list of points.
    pub fn new(points: Vec<SatelliteEphemerisPoint>) -> (r: Self)
        requires
            points@.len() >= 2 ==> times_are_numbers(points@),
        ensures
            is_time_sort_of(points@, r@),
            time_ordered(r@),
            r@.len() >= 2 ==> times_are_numbers(r@),
    {
        Self(SatelliteEphemeris::new(SatelliteId::ISS, points))
    }

    /// Create from binary data, in the format of every satellite ephemeris.
    pub fn from_binary(data: &[u8]) -> (r: Result<Self, &'static str>)
        ensures
            match r {
                Ok(e) => rejection(data@) is None && is_time_sort_of(encoded_points(data@), e@)
                    && time_ordered(e@),
                Err(m) => rejection(data@) == Some(m@),
            },
    {
        match SatelliteEphemeris::from_binary(SatelliteId::ISS, data) {
            Ok(inner) => Ok(Self(inner)),
            Err(m) => Err(m),
        }
    }

    /// Check if a given Julian Date is within the ephemeris coverage.
    pub fn covers(&self, jd: Binary64) -> (r: bool)
        ensures
            r == covered(self@, jd),
    {
        self.0.covers(jd)
    }

    /// Get the time range covered by this ephemeris.
    pub fn time_range(&self) -> (r: Option<(Binary64, Binary64)>)
        ensures
            self@.len() == 0 ==> r is None,
            self@.len() > 0 ==> r == Some((self@[0].jd, self@[self@.len() - 1].jd)),
    {
        self.0.time_range()
    }

    /// Choose the samples from which the position at a given Julian Date is
    /// interpolated.
    pub fn interpolate(&self, jd: Binary64) -> (r: Option<Interpolant>)
        ensures
            is_interpolant_of(self@, jd, r),
            r is Some <==> self@.len() >= 2 && covered(self@, jd),
            time_ordered(self@),
    {
        self.0.interpolate(jd)
    }

    /// Get the number of ephemeris points.
    pub fn len(&self) -> (n: usize)
        ensures
            n == self@.len(),
    {
        self.0.len()
    }

    /// Check if the ephemeris is empty.
    pub fn is_empty(&self) -> (r: bool)
        ensures
            r == (self@.len() == 0),
    {
        self.0.is_empty()
    }

    /// Get the inner SatelliteEphemeris.
    pub fn inner(&self) -> (r: &SatelliteEphemeris)
        ensures
            *r == self.spec_inner(),
            r@ == self@,
            r.spec_id() == SatelliteId::ISS,
    {
        proof {
            use_type_invariant(self);
        }
        &self.0
    }
}

} // verus!
