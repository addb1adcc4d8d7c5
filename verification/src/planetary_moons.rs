//! The planetary moons that the engine follows: the Galilean moons of
//! Jupiter and the major moons of Saturn.
use vstd::prelude::*;
use crate::planets::Planet;

verus! {

/// Planetary moon identifier
#[derive(Debug, Clone, Copy, PartialEq, Eq, Structural)]
pub enum PlanetaryMoon {
    Io,
    Europa,
    Ganymede,
    Callisto,
    Mimas,
    Enceladus,
    Tethys,
    Dione,
    Rhea,
    Titan,
}

impl PlanetaryMoon {
    /// All planetary moons in order (Jupiter's moons first, then Saturn's)
    pub const ALL: [PlanetaryMoon; 10] = [
        PlanetaryMoon::Io,
        PlanetaryMoon::Europa,
        PlanetaryMoon::Ganymede,
        PlanetaryMoon::Callisto,
        PlanetaryMoon::Mimas,
        PlanetaryMoon::Enceladus,
        PlanetaryMoon::Tethys,
        PlanetaryMoon::Dione,
        PlanetaryMoon::Rhea,
        PlanetaryMoon::Titan,
    ];

    /// Jupiter's Galilean moons only
    pub const JUPITER_MOONS: [PlanetaryMoon; 4] = [
        PlanetaryMoon::Io,
        PlanetaryMoon::Europa,
        PlanetaryMoon::Ganymede,
        PlanetaryMoon::Callisto,
    ];

    /// Saturn's major moons only
    pub const SATURN_MOONS: [PlanetaryMoon; 6] = [
        PlanetaryMoon::Mimas,
        PlanetaryMoon::Enceladus,
        PlanetaryMoon::Tethys,
        PlanetaryMoon::Dione,
        PlanetaryMoon::Rhea,
        PlanetaryMoon::Titan,
    ];

    pub open spec fn spec_name(self) -> Seq<char> {
        match self {
            PlanetaryMoon::Io => "Io"@,
            PlanetaryMoon::Europa => "Europa"@,
            PlanetaryMoon::Ganymede => "Ganymede"@,
            PlanetaryMoon::Callisto => "Callisto"@,
            PlanetaryMoon::Mimas => "Mimas"@,
            PlanetaryMoon::Enceladus => "Enceladus"@,
            PlanetaryMoon::Tethys => "Tethys"@,
            PlanetaryMoon::Dione => "Dione"@,
            PlanetaryMoon::Rhea => "Rhea"@,
            PlanetaryMoon::Titan => "Titan"@,
        }
    }

    /// The planet that the moon orbits.
    pub open spec fn spec_parent(&self) -> Planet {
        match self {
            PlanetaryMoon::Io => Planet::Jupiter,
            PlanetaryMoon::Europa => Planet::Jupiter,
            PlanetaryMoon::Ganymede => Planet::Jupiter,
            PlanetaryMoon::Callisto => Planet::Jupiter,
            PlanetaryMoon::Mimas => Planet::Saturn,
            PlanetaryMoon::Enceladus => Planet::Saturn,
            PlanetaryMoon::Tethys => Planet::Saturn,
            PlanetaryMoon::Dione => Planet::Saturn,
            PlanetaryMoon::Rhea => Planet::Saturn,
            PlanetaryMoon::Titan => Planet::Saturn,
        }
    }

    /// Get the moon's name.
    pub fn name(&self) -> (s: &'static str)
        ensures
            s@ == self.spec_name(),
    {
        match self {
            PlanetaryMoon::Io => "Io",
            PlanetaryMoon::Europa => "Europa",
            PlanetaryMoon::Ganymede => "Ganymede",
            PlanetaryMoon::Callisto => "Callisto",
            PlanetaryMoon::Mimas => "Mimas",
            PlanetaryMoon::Enceladus => "Enceladus",
            PlanetaryMoon::Tethys => "Tethys",
            PlanetaryMoon::Dione => "Dione",
            PlanetaryMoon::Rhea => "Rhea",
            PlanetaryMoon::Titan => "Titan",
        }
    }

    /// The planet that the moon orbits.
    #[verifier::when_used_as_spec(spec_parent)]
    pub fn parent(&self) -> (p: Planet)
        ensures
            p == self.spec_parent(),
    {
        match self {
            PlanetaryMoon::Io => Planet::Jupiter,
            PlanetaryMoon::Europa => Planet::Jupiter,
            PlanetaryMoon::Ganymede => Planet::Jupiter,
            PlanetaryMoon::Callisto => Planet::Jupiter,
            PlanetaryMoon::Mimas => Planet::Saturn,
            PlanetaryMoon::Enceladus => Planet::Saturn,
            PlanetaryMoon::Tethys => Planet::Saturn,
            PlanetaryMoon::Dione => Planet::Saturn,
            PlanetaryMoon::Rhea => Planet::Saturn,
            PlanetaryMoon::Titan => Planet::Saturn,
        }
    }
}

/// The moons are listed by planet: `ALL` is the moons of Jupiter followed by
/// those of Saturn, and each list holds the moons of its planet only.
pub proof fn lemma_moons_listed_by_planet(i: int)
    requires
        0 <= i < 10,
    ensures
        i < 4 ==> PlanetaryMoon::ALL[i] == PlanetaryMoon::JUPITER_MOONS[i],
        i < 4 ==> PlanetaryMoon::ALL[i].spec_parent() == Planet::Jupiter,
        i >= 4 ==> PlanetaryMoon::ALL[i] == PlanetaryMoon::SATURN_MOONS[i - 4],
        i >= 4 ==> PlanetaryMoon::ALL[i].spec_parent() == Planet::Saturn,
{
}

} // verus!
