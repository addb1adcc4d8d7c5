use sky_engine_core::{Binary32, Binary64, Star, StarCatalog};

fn wide(x: f64) -> Binary64 {
    Binary64::from_bits(x.to_bits())
}

fn narrow(x: f32) -> Binary32 {
    Binary32::from_bits(x.to_bits())
}

fn vmag(star: &Star) -> f32 {
    f32::from_bits(star.vmag.to_bits())
}

fn ra(star: &Star) -> f64 {
    f64::from_bits(star.ra.to_bits())
}

fn dec(star: &Star) -> f64 {
    f64::from_bits(star.dec.to_bits())
}

/// The 50 brightest stars: name, RA hours, Dec degrees, Vmag, B-V, HR number.
const BRIGHT_STARS: &[(&str, f64, f64, f32, f32, u32)] = &[
    ("Sirius",      6.752,  -16.716, -1.46, 0.00, 2491),
    ("Canopus",     6.399,  -52.696, -0.72, 0.15, 2326),
    ("Arcturus",   14.261,   19.182, -0.05, 1.23, 5340),
    ("Vega",       18.616,   38.784,  0.03, 0.00, 7001),
    ("Capella",     5.278,   45.998,  0.08, 0.80, 1708),
    ("Rigel",       5.242,   -8.202,  0.13, -0.03, 1713),
    ("Procyon",     7.655,    5.225,  0.34, 0.42, 2943),
    ("Betelgeuse",  5.919,    7.407,  0.42, 1.85, 2061),
    ("Achernar",    1.629,  -57.237,  0.46, -0.16, 472),
    ("Hadar",      14.064,  -60.373,  0.61, -0.23, 5267),
    ("Altair",     19.846,    8.868,  0.77, 0.22, 7557),
    ("Acrux",      12.443,  -63.099,  0.77, -0.24, 4730),
    ("Aldebaran",   4.599,   16.509,  0.85, 1.54, 1457),
    ("Antares",    16.490,  -26.432,  0.96, 1.83, 6134),
    ("Spica",      13.420,  -11.161,  0.97, -0.23, 5056),
    ("Pollux",      7.755,   28.026,  1.14, 1.00, 2990),
    ("Fomalhaut",  22.961,  -29.622,  1.16, 0.09, 8728),
    ("Deneb",      20.690,   45.280,  1.25, 0.09, 7924),
    ("Mimosa",     12.795,  -59.689,  1.25, -0.23, 4853),
    ("Regulus",    10.140,   11.967,  1.35, -0.11, 3982),
    ("Adhara",      6.977,  -28.972,  1.50, -0.21, 2618),
    ("Castor",      7.577,   31.888,  1.58, 0.03, 2891),
    ("Gacrux",     12.519,  -57.113,  1.63, 1.59, 4763),
    ("Shaula",     17.560,  -37.104,  1.62, -0.22, 6527),
    ("Bellatrix",   5.419,    6.350,  1.64, -0.22, 1790),
    ("Elnath",      5.438,   28.608,  1.65, -0.13, 1791),
    ("Miaplacidus", 9.220,  -69.717,  1.68, 0.00, 3685),
    ("Alnilam",     5.603,   -1.202,  1.69, -0.18, 1903),
    ("Alnair",     22.137,  -46.961,  1.74, -0.13, 8425),
    ("Alnitak",     5.679,   -1.943,  1.77, -0.21, 1948),
    ("Alioth",     12.900,   55.960,  1.77, -0.02, 4905),
    ("Dubhe",      11.062,   61.751,  1.79, 1.07, 4301),
    ("Mirfak",      3.405,   49.861,  1.80, 0.48, 1017),
    ("Wezen",       7.140,  -26.393,  1.84, 0.67, 2693),
    ("Sargas",     17.622,  -42.998,  1.87, 0.40, 6553),
    ("Kaus Australis", 18.403, -34.385, 1.85, -0.03, 6879),
    ("Avior",       8.375,  -59.510,  1.86, 1.28, 3307),
    ("Alkaid",     13.792,   49.313,  1.86, -0.10, 5191),
    ("Menkalinan",  5.992,   44.948,  1.90, 0.08, 2088),
    ("Atria",      16.811,  -69.028,  1.92, 1.44, 6217),
    ("Alhena",      6.629,   16.399,  1.93, 0.00, 2421),
    ("Peacock",    20.427,  -56.735,  1.94, -0.20, 7790),
    ("Alsephina",   8.745,  -54.709,  1.96, -0.11, 3485),
    ("Mirzam",      6.378,  -17.956,  1.98, -0.24, 2294),
    ("Polaris",     2.530,   89.264,  2.02, 0.60, 424),
    ("Alphard",     9.460,   -8.659,  2.00, 1.44, 3748),
    ("Hamal",       2.120,   23.463,  2.00, 1.15, 617),
    ("Diphda",      0.727,  -17.987,  2.02, 1.02, 188),
    ("Nunki",      18.921,  -26.297,  2.02, -0.13, 7121),
    ("Menkent",    14.111,  -36.370,  2.06, 1.01, 5288),
];

fn with_bright_stars() -> StarCatalog {
    let stars = BRIGHT_STARS
        .iter()
        .map(|(_, ra_h, dec_deg, vmag, bv, id)| Star {
            ra: wide(ra_h * std::f64::consts::PI / 12.0),
            dec: wide(dec_deg * std::f64::consts::PI / 180.0),
            vmag: narrow(*vmag),
            bv_color: narrow(*bv),
            id: *id,
        })
        .collect();
    StarCatalog::from_stars(stars)
}

fn image(stars: &[(f32, f32, f32, f32, u32)]) -> Vec<u8> {
    let mut data = Vec::new();
    data.extend_from_slice(&(stars.len() as u32).to_le_bytes());
    for (ra, dec, vmag, bv, id) in stars {
        data.extend_from_slice(&ra.to_le_bytes());
        data.extend_from_slice(&dec.to_le_bytes());
        data.extend_from_slice(&vmag.to_le_bytes());
        data.extend_from_slice(&bv.to_le_bytes());
        data.extend_from_slice(&id.to_le_bytes());
    }
    data
}

#[test]
fn test_magnitude_filter() {
    let catalog = with_bright_stars();
    let bright = catalog.stars_brighter_than(narrow(1.0));
    // Should have fewer stars than total
    assert!(bright.len() < catalog.len());
    // All should be brighter than 1.0
    assert!(bright.iter().all(|s| vmag(s) <= 1.0));
}

#[test]
fn test_binary_roundtrip() {
    let catalog = with_bright_stars();

    // Serialize to binary
    let mut data = Vec::new();
    data.extend_from_slice(&(catalog.len() as u32).to_le_bytes());
    for star in catalog.stars() {
        data.extend_from_slice(&(ra(star) as f32).to_le_bytes());
        data.extend_from_slice(&(dec(star) as f32).to_le_bytes());
        data.extend_from_slice(&star.vmag.to_bits().to_le_bytes());
        data.extend_from_slice(&star.bv_color.to_bits().to_le_bytes());
        data.extend_from_slice(&star.id.to_le_bytes());
    }

    // Deserialize
    let loaded = StarCatalog::from_binary(&data).unwrap();
    assert_eq!(loaded.len(), catalog.len());
}

#[test]
fn roundtrip_keeps_every_field() {
    let catalog = with_bright_stars();
    let records: Vec<(f32, f32, f32, f32, u32)> = catalog
        .stars()
        .iter()
        .map(|s| (ra(s) as f32, dec(s) as f32, vmag(s), f32::from_bits(s.bv_color.to_bits()), s.id))
        .collect();
    let loaded = StarCatalog::from_binary(&image(&records)).unwrap();
    assert_eq!(loaded.len(), 50);
    for (star, record) in loaded.stars().iter().zip(records.iter()) {
        assert_eq!(ra(star), record.0 as f64);
        assert_eq!(dec(star), record.1 as f64);
        assert_eq!(vmag(star), record.2);
        assert_eq!(star.bv_color.to_bits(), record.3.to_bits());
        assert_eq!(star.id, record.4);
    }
    // Sirius is the first and brightest.
    let sirius = &loaded.stars()[0];
    assert!(vmag(sirius) < -1.0);
    assert_eq!(sirius.id, 2491);
}

#[test]
fn magnitude_filter_keeps_the_order_and_the_limit() {
    let catalog = with_bright_stars();
    let bright = catalog.stars_brighter_than(narrow(1.0));
    let expected: Vec<u32> =
        BRIGHT_STARS.iter().filter(|s| s.3 <= 1.0).map(|s| s.5).collect();
    let got: Vec<u32> = bright.iter().map(|s| s.id).collect();
    assert_eq!(got, expected);
    assert_eq!(got.len(), 15);
    // The limit itself is kept.
    let at_limit = catalog.stars_brighter_than(narrow(0.77));
    assert_eq!(at_limit.len(), 12);
    assert_eq!(catalog.stars_brighter_than(narrow(-2.0)).len(), 0);
    assert_eq!(catalog.stars_brighter_than(narrow(f32::INFINITY)).len(), 50);
    assert_eq!(catalog.stars_brighter_than(narrow(f32::NAN)).len(), 0);
}

#[test]
fn magnitude_that_is_not_a_number_is_never_bright() {
    let data = image(&[(0.1, 0.2, f32::NAN, 0.0, 1), (0.3, 0.4, -0.0, 0.0, 2), (0.5, 0.6, 0.0, 0.0, 3)]);
    let catalog = StarCatalog::from_binary(&data).unwrap();
    let bright = catalog.stars_brighter_than(narrow(0.0));
    let ids: Vec<u32> = bright.iter().map(|s| s.id).collect();
    assert_eq!(ids, vec![2, 3]);
}

#[test]
fn empty_catalogs() {
    assert_eq!(StarCatalog::new().len(), 0);
    assert!(StarCatalog::new().is_empty());
    assert!(StarCatalog::default().is_empty());
    assert!(StarCatalog::new().stars().is_empty());
    let loaded = StarCatalog::from_binary(&0u32.to_le_bytes()).unwrap();
    assert!(loaded.is_empty());
    assert!(!with_bright_stars().is_empty());
}

#[test]
fn short_catalog_is_rejected() {
    for len in 0..4 {
        assert_eq!(
            StarCatalog::from_binary(&vec![0u8; len]).err(),
            Some("Data too short for header")
        );
    }
    let data = image(&[(0.1, 0.2, 1.0, 0.0, 1), (0.3, 0.4, 2.0, 0.0, 2)]);
    assert_eq!(data.len(), 44);
    for len in 4..data.len() {
        assert_eq!(
            StarCatalog::from_binary(&data[..len]).err(),
            Some("Data too short for star count")
        );
    }
    assert_eq!(StarCatalog::from_binary(&data).unwrap().len(), 2);
    let mut huge = vec![0xffu8; 4];
    huge.extend_from_slice(&[0u8; 100]);
    assert_eq!(StarCatalog::from_binary(&huge).err(), Some("Data too short for star count"));
}

#[test]
fn extend_skips_known_ids() {
    let mut catalog = with_bright_stars();
    let more = image(&[
        (0.1, 0.2, 3.0, 0.5, 9001),
        (0.3, 0.4, 3.5, 0.5, 2491), // Sirius again
        (0.5, 0.6, 4.0, 0.5, 9002),
        (0.7, 0.8, 4.5, 0.5, 9001), // twice in the new data: both are new to the catalog
        (0.9, 1.0, 5.0, 0.5, 424),  // Polaris again
    ]);
    assert_eq!(catalog.extend(&more), Ok(3));
    assert_eq!(catalog.len(), 53);
    let tail: Vec<u32> = catalog.stars()[50..].iter().map(|s| s.id).collect();
    assert_eq!(tail, vec![9001, 9002, 9001]);
    assert_eq!(vmag(&catalog.stars()[52]), 4.5);
    // The same data again adds nothing.
    assert_eq!(catalog.extend(&more), Ok(0));
    assert_eq!(catalog.len(), 53);
}

#[test]
fn rejected_extension_leaves_the_catalog() {
    let mut catalog = with_bright_stars();
    let more = image(&[(0.1, 0.2, 3.0, 0.5, 9001)]);
    assert_eq!(catalog.extend(&more[..23]), Err("Data too short for star count"));
    assert_eq!(catalog.extend(&more[..2]), Err("Data too short for header"));
    assert_eq!(catalog.len(), 50);
    let mut empty = StarCatalog::new();
    assert_eq!(empty.extend(&more), Ok(1));
    assert_eq!(empty.stars()[0].id, 9001);
    assert_eq!(ra(&empty.stars()[0]), 0.1f32 as f64);
}
