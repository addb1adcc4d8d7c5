//! The minor bodies that the engine follows: dwarf planets, trans-Neptunian
//! objects, major asteroids and near-Earth objects.
use vstd::prelude::*;

verus! {

/// Minor body identifier
#[derive(Debug, Clone, Copy, PartialEq, Eq, Structural)]
pub enum MinorBody {
    Pluto,
    Ceres,
    Eris,
    Makemake,
    Haumea,
    Sedna,
    Quaoar,
    Gonggong,
    Orcus,
    Varuna,
    Vesta,
    Pallas,
    Hygiea,
    Apophis,
    Bennu,
}

impl MinorBody {
    /// All minor bodies: dwarf planets, trans-Neptunian objects, asteroids, near-Earth objects.
    pub const ALL: [MinorBody; 15] = [
        MinorBody::Pluto,
        MinorBody::Ceres,
        MinorBody::Eris,
        MinorBody::Makemake,
        MinorBody::Haumea,
        MinorBody::Sedna,
        MinorBody::Quaoar,
        MinorBody::Gonggong,
        MinorBody::Orcus,
        MinorBody::Varuna,
        MinorBody::Vesta,
        MinorBody::Pallas,
        MinorBody::Hygiea,
        MinorBody::Apophis,
        MinorBody::Bennu,
    ];

    pub open spec fn spec_name(self) -> Seq<char> {
        match self {
            MinorBody::Pluto => "Pluto"@,
            MinorBody::Ceres => "Ceres"@,
            MinorBody::Eris => "Eris"@,
            MinorBody::Makemake => "Makemake"@,
            MinorBody::Haumea => "Haumea"@,
            MinorBody::Sedna => "Sedna"@,
            MinorBody::Quaoar => "Quaoar"@,
            MinorBody::Gonggong => "Gonggong"@,
            MinorBody::Orcus => "Orcus"@,
            MinorBody::Varuna => "Varuna"@,
            MinorBody::Vesta => "Vesta"@,
            MinorBody::Pallas => "Pallas"@,
            MinorBody::Hygiea => "Hygiea"@,
            MinorBody::Apophis => "Apophis"@,
            MinorBody::Bennu => "Bennu"@,
        }
    }

    /// Get the body's name.
    pub fn name(&self) -> (s: &'static str)
        ensures
            s@ == self.spec_name(),
    {
        match self {
            MinorBody::Pluto => "Pluto",
            MinorBody::Ceres => "Ceres",
            MinorBody::Eris => "Eris",
            MinorBody::Makemake => "Makemake",
            MinorBody::Haumea => "Haumea",
            MinorBody::Sedna => "Sedna",
            MinorBody::Quaoar => "Quaoar",
            MinorBody::Gonggong => "Gonggong",
            MinorBody::Orcus => "Orcus",
            MinorBody::Varuna => "Varuna",
            MinorBody::Vesta => "Vesta",
            MinorBody::Pallas => "Pallas",
            MinorBody::Hygiea => "Hygiea",
            MinorBody::Apophis => "Apophis",
            MinorBody::Bennu => "Bennu",
        }
    }
}

} // verus!
