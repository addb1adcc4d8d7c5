//! The comets that the engine follows.
use vstd::prelude::*;

verus! {

/// Comet identifier
#[derive(Debug, Clone, Copy, PartialEq, Eq, Structural)]
pub enum Comet {
    /// 1P/Halley, the most famous periodic comet
    Halley,
    /// 2P/Encke, the comet of the shortest period
    Encke,
    /// 67P/Churyumov-Gerasimenko
    ChuryumovGerasimenko,
    /// 46P/Wirtanen
    Wirtanen,
    /// C/2020 F3 (NEOWISE), the great comet of 2020
    Neowise,
    /// C/2023 A3 (Tsuchinshan-ATLAS), the great comet of 2024
    TsuchinshanAtlas,
    /// C/1995 O1 (Hale-Bopp), the great comet of 1997
    HaleBopp,
}

impl Comet {
    /// All comets, the periodic ones first.
    pub const ALL: [Comet; 7] = [
        Comet::Halley,
        Comet::Encke,
        Comet::ChuryumovGerasimenko,
        Comet::Wirtanen,
        Comet::Neowise,
        Comet::TsuchinshanAtlas,
        Comet::HaleBopp,
    ];

    pub open spec fn spec_name(self) -> Seq<char> {
        match self {
            Comet::Halley => "1P/Halley"@,
            Comet::Encke => "2P/Encke"@,
            Comet::ChuryumovGerasimenko => "67P/C-G"@,
            Comet::Wirtanen => "46P/Wirtanen"@,
            Comet::Neowise => "C/2020 F3 NEOWISE"@,
            Comet::TsuchinshanAtlas => "C/2023 A3 T-ATLAS"@,
            Comet::HaleBopp => "C/1995 O1 Hale-Bopp"@,
        }
    }

    /// Get the comet's name or designation.
    pub fn name(&self) -> (s: &'static str)
        ensures
            s@ == self.spec_name(),
    {
        match self {
            Comet::Halley => "1P/Halley",
            Comet::Encke => "2P/Encke",
            Comet::ChuryumovGerasimenko => "67P/C-G",
            Comet::Wirtanen => "46P/Wirtanen",
            Comet::Neowise => "C/2020 F3 NEOWISE",
            Comet::TsuchinshanAtlas => "C/2023 A3 T-ATLAS",
            Comet::HaleBopp => "C/1995 O1 Hale-Bopp",
        }
    }
}

} // verus!
