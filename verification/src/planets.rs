//! The planets and the bodies that the engine shows.
use vstd::prelude::*;

verus! {

/// Planets supported by the engine.
#[derive(Debug, Clone, Copy, PartialEq, Eq, Structural)]
pub enum Planet {
    Mercury,
    Venus,
    Earth,
    Mars,
    Jupiter,
    Saturn,
    Uranus,
    Neptune,
}

impl Planet {
    /// All planets in order from the Sun.
    pub const ALL: [Planet; 8] = [
        Planet::Mercury,
        Planet::Venus,
        Planet::Earth,
        Planet::Mars,
        Planet::Jupiter,
        Planet::Saturn,
        Planet::Uranus,
        Planet::Neptune,
    ];

    /// All planets visible to naked eye (excluding Earth).
    pub const VISIBLE: [Planet; 5] = [
        Planet::Mercury,
        Planet::Venus,
        Planet::Mars,
        Planet::Jupiter,
        Planet::Saturn,
    ];

    pub open spec fn spec_name(self) -> Seq<char> {
        match self {
            Planet::Mercury => "Mercury"@,
            Planet::Venus => "Venus"@,
            Planet::Earth => "Earth"@,
            Planet::Mars => "Mars"@,
            Planet::Jupiter => "Jupiter"@,
            Planet::Saturn => "Saturn"@,
            Planet::Uranus => "Uranus"@,
            Planet::Neptune => "Neptune"@,
        }
    }

    /// Get planet name.
    pub fn name(&self) -> (s: &'static str)
        ensures
            s@ == self.spec_name(),
    {
        match self {
            Planet::Mercury => "Mercury",
            Planet::Venus => "Venus",
            Planet::Earth => "Earth",
            Planet::Mars => "Mars",
            Planet::Jupiter => "Jupiter",
            Planet::Saturn => "Saturn",
            Planet::Uranus => "Uranus",
            Planet::Neptune => "Neptune",
        }
    }
}

/// Celestial bodies visible in the sky (planets + Sun + Moon).
#[derive(Debug, Clone, Copy, PartialEq, Eq, Structural)]
pub enum CelestialBody {
    Sun,
    Moon,
    Mercury,
    Venus,
    Mars,
    Jupiter,
    Saturn,
    Uranus,
    Neptune,
}

impl CelestialBody {
    /// All visible celestial bodies in display order.
    pub const ALL: [CelestialBody; 9] = [
        CelestialBody::Sun,
        CelestialBody::Moon,
        CelestialBody::Mercury,
        CelestialBody::Venus,
        CelestialBody::Mars,
        CelestialBody::Jupiter,
        CelestialBody::Saturn,
        CelestialBody::Uranus,
        CelestialBody::Neptune,
    ];

    pub open spec fn spec_name(self) -> Seq<char> {
        match self {
            CelestialBody::Sun => "Sun"@,
            CelestialBody::Moon => "Moon"@,
            CelestialBody::Mercury => "Mercury"@,
            CelestialBody::Venus => "Venus"@,
            CelestialBody::Mars => "Mars"@,
            CelestialBody::Jupiter => "Jupiter"@,
            CelestialBody::Saturn => "Saturn"@,
            CelestialBody::Uranus => "Uranus"@,
            CelestialBody::Neptune => "Neptune"@,
        }
    }

    /// The planet that the body is, if it is one.  The Sun and the Moon have
    /// positions of their own kind; every other body is placed as its planet
    /// is.
    pub open spec fn spec_planet(self) -> Option<Planet> {
        match self {
            CelestialBody::Sun => None,
            CelestialBody::Moon => None,
            CelestialBody::Mercury => Some(Planet::Mercury),
            CelestialBody::Venus => Some(Planet::Venus),
            CelestialBody::Mars => Some(Planet::Mars),
            CelestialBody::Jupiter => Some(Planet::Jupiter),
            CelestialBody::Saturn => Some(Planet::Saturn),
            CelestialBody::Uranus => Some(Planet::Uranus),
            CelestialBody::Neptune => Some(Planet::Neptune),
        }
    }

    /// Get body name.
    pub fn name(&self) -> (s: &'static str)
        ensures
            s@ == self.spec_name(),
    {
        match self {
            CelestialBody::Sun => "Sun",
            CelestialBody::Moon => "Moon",
            CelestialBody::Mercury => "Mercury",
            CelestialBody::Venus => "Venus",
            CelestialBody::Mars => "Mars",
            CelestialBody::Jupiter => "Jupiter",
            CelestialBody::Saturn => "Saturn",
            CelestialBody::Uranus => "Uranus",
            CelestialBody::Neptune => "Neptune",
        }
    }

    /// The planet that the body is, if it is one.
    #[verifier::when_used_as_spec(spec_planet)]
    pub fn planet(self) -> (r: Option<Planet>)
        ensures
            r == self.spec_planet(),
    {
        match self {
            CelestialBody::Sun => None,
            CelestialBody::Moon => None,
            CelestialBody::Mercury => Some(Planet::Mercury),
            CelestialBody::Venus => Some(Planet::Venus),
            CelestialBody::Mars => Some(Planet::Mars),
            CelestialBody::Jupiter => Some(Planet::Jupiter),
            CelestialBody::Saturn => Some(Planet::Saturn),
            CelestialBody::Uranus => Some(Planet::Uranus),
            CelestialBody::Neptune => Some(Planet::Neptune),
        }
    }
}

/// A body that is a planet has that planet's name, no body is the Earth, and
/// no two bodies are the same planet.
pub proof fn lemma_bodies_are_planets(a: CelestialBody, b: CelestialBody)
    ensures
        a.spec_planet() matches Some(p) ==> p.spec_name() == a.spec_name() && p != Planet::Earth,
        a.spec_planet() is Some && a.spec_planet() == b.spec_planet() ==> a == b,
{
}

} // verus!
