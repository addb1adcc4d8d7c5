//! The discrete core of a sky ephemeris engine, verified with Verus.
//!
//! - the identifiers of the bodies: [`planets`], [`comets`],
//!   [`minor_bodies`], [`planetary_moons`], and the satellites of
//!   [`satellites`];
//! - sampled satellite trajectories: their ingestion from a byte stream,
//!   their order in time ([`time_order`], [`stable_order`]), their coverage,
//!   and the choice of the samples between which a position is interpolated
//!   ([`satellites`]);
//! - the regime of a conic orbit, by its eccentricity ([`orbits`]);
//! - star catalogs: reading them from a byte stream ([`catalog`]), writing
//!   that stream ([`catalog_writer`]), and the text of the catalogs they are
//!   made from ([`catalog_text`]).
//!
//! Times, coordinates and magnitudes are carried as IEEE 754 bit patterns
//! (see [`ieee`]); all arithmetic on them is left to the caller.
pub mod catalog;
pub mod catalog_text;
pub mod catalog_writer;
pub mod comets;
pub mod ieee;
pub mod iss;
pub mod minor_bodies;
pub mod orbits;
pub mod planetary_moons;
pub mod planets;
pub mod satellites;
pub mod stable_order;
pub mod time_order;
pub mod wire;

pub use catalog::{Star, StarCatalog};
pub use comets::Comet;
pub use ieee::{Binary32, Binary64};
pub use minor_bodies::MinorBody;
pub use orbits::{orbit_regime, OrbitRegime};
pub use planetary_moons::PlanetaryMoon;
pub use planets::{CelestialBody, Planet};
pub use satellites::{
    Interpolant, IssEphemeris, IssEphemerisPoint, SatelliteEphemeris, SatelliteEphemerisPoint,
    SatelliteId,
};
