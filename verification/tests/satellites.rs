use sky_engine_core::iss::IssEphemerisPoint;
use sky_engine_core::{
    Binary64, Interpolant, IssEphemeris, SatelliteEphemeris, SatelliteEphemerisPoint, SatelliteId,
};

fn datum(x: f64) -> Binary64 {
    Binary64::from_bits(x.to_bits())
}

fn number(x: Binary64) -> f64 {
    f64::from_bits(x.to_bits())
}

fn point(jd: f64, x_km: f64, y_km: f64, z_km: f64) -> SatelliteEphemerisPoint {
    SatelliteEphemerisPoint { jd: datum(jd), x_km: datum(x_km), y_km: datum(y_km), z_km: datum(z_km) }
}

fn xyz(p: &SatelliteEphemerisPoint) -> (f64, f64, f64) {
    (number(p.x_km), number(p.y_km), number(p.z_km))
}

/// The position that the chosen samples give: the sample itself, the point
/// on the line, or the point on the Catmull-Rom spline.
fn position(chosen: Interpolant, jd: f64) -> (f64, f64, f64) {
    match chosen {
        Interpolant::Exact { sample } => xyz(&sample),
        Interpolant::Linear { before, after } => {
            let t = (jd - number(before.jd)) / (number(after.jd) - number(before.jd));
            let (x0, y0, z0) = xyz(&before);
            let (x1, y1, z1) = xyz(&after);
            (x0 + t * (x1 - x0), y0 + t * (y1 - y0), z0 + t * (z1 - z0))
        }
        Interpolant::Cubic { earlier, before, after, later } => {
            let t = (jd - number(before.jd)) / (number(after.jd) - number(before.jd));
            let t2 = t * t;
            let t3 = t2 * t;
            let interp = |v0: f64, v1: f64, v2: f64, v3: f64| -> f64 {
                0.5 * ((2.0 * v1)
                    + (-v0 + v2) * t
                    + (2.0 * v0 - 5.0 * v1 + 4.0 * v2 - v3) * t2
                    + (-v0 + 3.0 * v1 - 3.0 * v2 + v3) * t3)
            };
            let (x0, y0, z0) = xyz(&earlier);
            let (x1, y1, z1) = xyz(&before);
            let (x2, y2, z2) = xyz(&after);
            let (x3, y3, z3) = xyz(&later);
            (interp(x0, x1, x2, x3), interp(y0, y1, y2, y3), interp(z0, z1, z2, z3))
        }
    }
}

fn stream(points: &[(f64, f64, f64, f64)]) -> Vec<u8> {
    let mut data = Vec::new();
    data.extend_from_slice(&(points.len() as u32).to_le_bytes());
    for (jd, x, y, z) in points {
        data.extend_from_slice(&jd.to_le_bytes());
        data.extend_from_slice(&x.to_le_bytes());
        data.extend_from_slice(&y.to_le_bytes());
        data.extend_from_slice(&z.to_le_bytes());
    }
    data
}

fn two_point_stream() -> Vec<u8> {
    // Create a simple 2-point ephemeris
    let mut data = Vec::new();

    // Header: count = 2
    data.extend_from_slice(&2u32.to_le_bytes());

    // Point 1: JD 2460000.0, position (6800, 0, 0) km
    data.extend_from_slice(&2460000.0f64.to_le_bytes());
    data.extend_from_slice(&6800.0f64.to_le_bytes());
    data.extend_from_slice(&0.0f64.to_le_bytes());
    data.extend_from_slice(&0.0f64.to_le_bytes());

    // Point 2: JD 2460001.0, position (0, 6800, 0) km
    data.extend_from_slice(&2460001.0f64.to_le_bytes());
    data.extend_from_slice(&0.0f64.to_le_bytes());
    data.extend_from_slice(&6800.0f64.to_le_bytes());
    data.extend_from_slice(&0.0f64.to_le_bytes());
    data
}

#[test]
fn satellites_test_ephemeris_binary_format() {
    let data = two_point_stream();

    let eph = SatelliteEphemeris::from_binary(SatelliteId::ISS, &data).unwrap();
    assert_eq!(eph.len(), 2);
    assert_eq!(eph.id(), SatelliteId::ISS);

    // Test interpolation at midpoint
    let pos = position(eph.interpolate(datum(2460000.5)).unwrap(), 2460000.5);
    // Linear interpolation: (3400, 3400, 0)
    assert!((pos.0 - 3400.0).abs() < 1.0);
    assert!((pos.1 - 3400.0).abs() < 1.0);
    assert!(pos.2.abs() < 1.0);
}

#[test]
fn iss_test_ephemeris_binary_format() {
    let data = two_point_stream();

    let eph = IssEphemeris::from_binary(&data).unwrap();
    assert_eq!(eph.len(), 2);

    // Test interpolation at midpoint
    let pos = position(eph.interpolate(datum(2460000.5)).unwrap(), 2460000.5);
    // Linear interpolation: (3400, 3400, 0)
    assert!((pos.0 - 3400.0).abs() < 1.0);
    assert!((pos.1 - 3400.0).abs() < 1.0);
    assert!(pos.2.abs() < 1.0);
}

#[test]
fn satellites_test_ephemeris_coverage() {
    let points = vec![
        point(2460000.0, 6800.0, 0.0, 0.0),
        point(2460001.0, 0.0, 6800.0, 0.0),
    ];
    let eph = SatelliteEphemeris::new(SatelliteId::Hubble, points);

    assert!(eph.covers(datum(2460000.0)));
    assert!(eph.covers(datum(2460000.5)));
    assert!(eph.covers(datum(2460001.0)));
    assert!(!eph.covers(datum(2459999.0)));
    assert!(!eph.covers(datum(2460002.0)));
    assert_eq!(eph.id(), SatelliteId::Hubble);
}

#[test]
fn iss_test_ephemeris_coverage() {
    let points = vec![
        IssEphemerisPoint { jd: datum(2460000.0), x_km: datum(6800.0), y_km: datum(0.0), z_km: datum(0.0) },
        IssEphemerisPoint { jd: datum(2460001.0), x_km: datum(0.0), y_km: datum(6800.0), z_km: datum(0.0) },
    ];
    let eph = IssEphemeris::new(points);

    assert!(eph.covers(datum(2460000.0)));
    assert!(eph.covers(datum(2460000.5)));
    assert!(eph.covers(datum(2460001.0)));
    assert!(!eph.covers(datum(2459999.0)));
    assert!(!eph.covers(datum(2460002.0)));
}

#[test]
fn test_satellite_id() {
    assert_eq!(SatelliteId::ISS.name(), "ISS");
    assert_eq!(SatelliteId::Hubble.name(), "Hubble");
    assert_eq!(SatelliteId::ISS.full_name(), "International Space Station");
    assert_eq!(SatelliteId::Hubble.full_name(), "Hubble Space Telescope");
    assert_eq!(SatelliteId::ISS.index(), 0);
    assert_eq!(SatelliteId::Hubble.index(), 1);
    assert_eq!(SatelliteId::from_index(0), Some(SatelliteId::ISS));
    assert_eq!(SatelliteId::from_index(1), Some(SatelliteId::Hubble));
    assert_eq!(SatelliteId::from_index(2), None);
}

#[test]
fn test_legacy_iss_ephemeris() {
    // Create a simple 2-point ephemeris using the ISS-only API
    let data = two_point_stream();

    let eph = IssEphemeris::from_binary(&data).unwrap();
    assert_eq!(eph.len(), 2);
    assert!(eph.covers(datum(2460000.5)));

    // Test interpolation
    let pos = position(eph.interpolate(datum(2460000.5)).unwrap(), 2460000.5);
    assert!((pos.0 - 3400.0).abs() < 1.0);
}

#[test]
fn satellite_ids_in_buffer_order() {
    assert_eq!(SatelliteId::ALL.len(), 2);
    for (i, id) in SatelliteId::ALL.iter().enumerate() {
        assert_eq!(id.index(), i);
        assert_eq!(SatelliteId::from_index(i), Some(*id));
    }
    assert_eq!(SatelliteId::from_index(usize::MAX), None);
    assert_eq!(SatelliteId::ISS.horizons_id(), -125544);
    assert_eq!(SatelliteId::Hubble.horizons_id(), -48);
}

#[test]
fn midpoint_of_two_samples_is_exact() {
    let eph = SatelliteEphemeris::from_binary(SatelliteId::ISS, &two_point_stream()).unwrap();
    let chosen = eph.interpolate(datum(2460000.5)).unwrap();
    assert!(matches!(chosen, Interpolant::Linear { .. }));
    assert_eq!(position(chosen, 2460000.5), (3400.0, 3400.0, 0.0));
}

#[test]
fn short_stream_is_rejected() {
    for len in 0..4 {
        let data = vec![0u8; len];
        assert_eq!(
            SatelliteEphemeris::from_binary(SatelliteId::ISS, &data).err(),
            Some("Satellite ephemeris data too short")
        );
        assert_eq!(
            IssEphemeris::from_binary(&data).err(),
            Some("Satellite ephemeris data too short")
        );
    }
}

#[test]
fn truncated_stream_is_rejected() {
    let data = two_point_stream();
    for len in 4..data.len() {
        assert_eq!(
            SatelliteEphemeris::from_binary(SatelliteId::Hubble, &data[..len]).err(),
            Some("Satellite ephemeris data truncated")
        );
    }
    // A count that no stream in memory could honour.
    let mut huge = vec![0xffu8, 0xff, 0xff, 0xff];
    huge.extend_from_slice(&[0u8; 64]);
    assert_eq!(
        SatelliteEphemeris::from_binary(SatelliteId::Hubble, &huge).err(),
        Some("Satellite ephemeris data truncated")
    );
}

#[test]
fn empty_stream_gives_empty_ephemeris() {
    let eph = SatelliteEphemeris::from_binary(SatelliteId::ISS, &0u32.to_le_bytes()).unwrap();
    assert_eq!(eph.len(), 0);
    assert!(eph.is_empty());
    assert!(eph.time_range().is_none());
    assert!(!eph.covers(datum(2460000.0)));
    assert!(eph.interpolate(datum(2460000.0)).is_none());
}

#[test]
fn bytes_after_the_last_sample_are_ignored() {
    let mut data = two_point_stream();
    data.extend_from_slice(&[1, 2, 3]);
    let eph = SatelliteEphemeris::from_binary(SatelliteId::ISS, &data).unwrap();
    assert_eq!(eph.len(), 2);
}

#[test]
fn time_that_is_not_a_number_is_rejected() {
    let data = stream(&[(2460000.0, 1.0, 2.0, 3.0), (f64::NAN, 4.0, 5.0, 6.0)]);
    assert_eq!(
        SatelliteEphemeris::from_binary(SatelliteId::ISS, &data).err(),
        Some("Satellite ephemeris time is not a number")
    );
    // A single sample is in order whatever its time.
    let single = stream(&[(f64::NAN, 4.0, 5.0, 6.0)]);
    let eph = SatelliteEphemeris::from_binary(SatelliteId::ISS, &single).unwrap();
    assert_eq!(eph.len(), 1);
    assert!(!eph.covers(datum(2460000.0)));
    assert!(eph.interpolate(datum(2460000.0)).is_none());
    // A position that is not a number is carried through.
    let odd = stream(&[(2460000.0, f64::NAN, 2.0, 3.0), (2460001.0, 4.0, 5.0, 6.0)]);
    let eph = SatelliteEphemeris::from_binary(SatelliteId::ISS, &odd).unwrap();
    assert_eq!(eph.len(), 2);
}

#[test]
fn samples_are_sorted_by_time_and_stably() {
    let data = stream(&[
        (2460003.0, 3.0, 0.0, 0.0),
        (2460001.0, 1.0, 0.0, 0.0),
        (2460002.0, 2.0, 0.0, 0.0),
        (2460001.0, 1.5, 0.0, 0.0),
        (-5.0, -5.0, 0.0, 0.0),
        (2460000.0, 0.0, 0.0, 0.0),
        (2460002.0, 2.5, 0.0, 0.0),
    ]);
    let eph = SatelliteEphemeris::from_binary(SatelliteId::ISS, &data).unwrap();
    assert_eq!(eph.len(), 7);
    let (first, last) = eph.time_range().unwrap();
    assert_eq!(number(first), -5.0);
    assert_eq!(number(last), 2460003.0);
    // The first of two samples of one time is the one that came first.
    let at_one = eph.interpolate(datum(2460001.0)).unwrap();
    assert!(matches!(at_one, Interpolant::Exact { sample } if number(sample.x_km) == 1.0));
    let at_two = eph.interpolate(datum(2460002.0)).unwrap();
    assert!(matches!(at_two, Interpolant::Exact { sample } if number(sample.x_km) == 2.0));
    // Between the two samples of time 2460001 and the two of time 2460002.
    match eph.interpolate(datum(2460001.5)).unwrap() {
        Interpolant::Cubic { earlier, before, after, later } => {
            assert_eq!(number(earlier.x_km), 1.0);
            assert_eq!(number(before.x_km), 1.5);
            assert_eq!(number(after.x_km), 2.0);
            assert_eq!(number(later.x_km), 2.5);
        }
        other => panic!("four samples expected, got {:?}", other),
    }
}

#[test]
fn sorting_agrees_with_the_order_of_the_numbers() {
    let mut times: Vec<f64> = Vec::new();
    let mut seed: u64 = 0x9e3779b97f4a7c15;
    for _ in 0..300 {
        seed = seed.wrapping_mul(6364136223846793005).wrapping_add(1442695040888963407);
        let t = ((seed >> 11) as f64 / (1u64 << 53) as f64 - 0.5) * 1.0e7;
        times.push(t);
    }
    times.extend_from_slice(&[0.0, -0.0, f64::INFINITY, f64::NEG_INFINITY, f64::MIN_POSITIVE, -1.0e-320]);
    let points: Vec<SatelliteEphemerisPoint> =
        times.iter().enumerate().map(|(i, t)| point(*t, i as f64, 0.0, 0.0)).collect();
    let eph = SatelliteEphemeris::new(SatelliteId::ISS, points);
    let mut expected: Vec<(f64, f64)> = times.iter().enumerate().map(|(i, t)| (*t, i as f64)).collect();
    expected.sort_by(|a, b| a.0.partial_cmp(&b.0).unwrap());
    assert_eq!(eph.len(), expected.len());
    let (first, last) = eph.time_range().unwrap();
    assert_eq!(number(first), f64::NEG_INFINITY);
    assert_eq!(number(last), f64::INFINITY);
    // Every sample is found again, and the first of those of its time.
    for (t, _) in &expected {
        let first_of_time = expected.iter().find(|e| e.0 == *t).unwrap();
        match eph.interpolate(datum(*t)).unwrap() {
            Interpolant::Exact { sample } => {
                assert!(number(sample.jd) == *t);
                assert_eq!(number(sample.x_km), first_of_time.1);
            }
            other => panic!("a sample expected, got {:?}", other),
        }
    }
}

fn ramp(n: usize) -> SatelliteEphemeris {
    let points: Vec<SatelliteEphemerisPoint> = (0..n)
        .map(|i| point(100.0 + i as f64, (i * i) as f64, 10.0 * i as f64, -(i as f64)))
        .collect();
    SatelliteEphemeris::new(SatelliteId::Hubble, points)
}

#[test]
fn four_samples_where_two_lie_on_each_side() {
    let eph = ramp(6);
    // Between the first two and between the last two samples: a line.
    assert!(matches!(eph.interpolate(datum(100.5)).unwrap(), Interpolant::Linear { .. }));
    assert!(matches!(eph.interpolate(datum(104.5)).unwrap(), Interpolant::Linear { .. }));
    // Elsewhere: the spline, through the two samples on each side.
    for k in 1..4 {
        let jd = 100.5 + k as f64;
        match eph.interpolate(datum(jd)).unwrap() {
            Interpolant::Cubic { earlier, before, after, later } => {
                assert_eq!(number(earlier.jd), 99.0 + k as f64);
                assert_eq!(number(before.jd), 100.0 + k as f64);
                assert_eq!(number(after.jd), 101.0 + k as f64);
                assert_eq!(number(later.jd), 102.0 + k as f64);
            }
            other => panic!("four samples expected, got {:?}", other),
        }
    }
    // Catmull-Rom through samples of x = i^2, at t = 1/2 between i = 2 and 3.
    let pos = position(eph.interpolate(datum(102.5)).unwrap(), 102.5);
    assert_eq!(pos, (6.25, 25.0, -2.5));
    // A line between i = 0 and i = 1, a quarter of the way.
    let pos = position(eph.interpolate(datum(100.25)).unwrap(), 100.25);
    assert_eq!(pos, (0.25, 2.5, -0.25));
}

#[test]
fn three_samples_give_lines_only() {
    let eph = ramp(3);
    assert!(matches!(eph.interpolate(datum(100.5)).unwrap(), Interpolant::Linear { .. }));
    assert!(matches!(eph.interpolate(datum(101.5)).unwrap(), Interpolant::Linear { .. }));
    assert!(matches!(eph.interpolate(datum(101.0)).unwrap(), Interpolant::Exact { .. }));
}

#[test]
fn nothing_is_extrapolated() {
    let eph = ramp(6);
    assert!(eph.interpolate(datum(99.999)).is_none());
    assert!(eph.interpolate(datum(105.001)).is_none());
    assert!(eph.interpolate(datum(f64::NAN)).is_none());
    assert!(eph.interpolate(datum(f64::INFINITY)).is_none());
    assert!(eph.interpolate(datum(-100.5)).is_none());
    assert!(eph.interpolate(datum(100.0)).is_some());
    assert!(eph.interpolate(datum(105.0)).is_some());
    // One sample covers its own time, and still gives no position.
    let single = ramp(1);
    assert!(single.covers(datum(100.0)));
    assert!(single.interpolate(datum(100.0)).is_none());
}

#[test]
fn a_position_is_given_exactly_where_the_samples_cover() {
    let eph = ramp(5);
    let mut jd = 99.0;
    while jd < 106.0 {
        assert_eq!(eph.interpolate(datum(jd)).is_some(), eph.covers(datum(jd)));
        assert_eq!(eph.covers(datum(jd)), jd >= 100.0 && jd <= 104.0);
        jd += 0.125;
    }
    assert!(!eph.covers(datum(f64::NAN)));
}

#[test]
fn iss_container_holds_the_iss() {
    let eph = IssEphemeris::from_binary(&two_point_stream()).unwrap();
    assert_eq!(eph.inner().id(), SatelliteId::ISS);
    assert_eq!(eph.inner().len(), 2);
    assert!(!eph.is_empty());
    let (first, last) = eph.time_range().unwrap();
    assert_eq!((number(first), number(last)), (2460000.0, 2460001.0));
    let copy = eph.clone();
    assert_eq!(copy.len(), 2);
    assert!(copy.covers(datum(2460000.5)));
}

#[test]
fn a_copy_holds_the_same_samples() {
    let eph = ramp(6);
    let copy = eph.clone();
    assert_eq!(copy.id(), SatelliteId::Hubble);
    assert_eq!(copy.len(), 6);
    let (first, last) = copy.time_range().unwrap();
    assert_eq!((number(first), number(last)), (100.0, 105.0));
    let here = position(eph.interpolate(datum(102.5)).unwrap(), 102.5);
    let there = position(copy.interpolate(datum(102.5)).unwrap(), 102.5);
    assert_eq!(here, there);
}

#[test]
fn samples_in_order_stay_as_they_are() {
    let points: Vec<SatelliteEphemerisPoint> =
        (0..50).map(|i| point((i / 2) as f64, i as f64, 0.0, 0.0)).collect();
    let eph = IssEphemeris::new(points);
    assert_eq!(eph.len(), 50);
    for i in 0..25 {
        match eph.interpolate(datum(i as f64)).unwrap() {
            Interpolant::Exact { sample } => assert_eq!(number(sample.x_km), (2 * i) as f64),
            other => panic!("a sample expected, got {:?}", other),
        }
    }
}
