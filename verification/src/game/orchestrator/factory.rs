//! The planet implementations that make up the galaxy.

use vstd::prelude::*;

verus! {

/// The planet implementations available in the galaxy.
#[derive(Clone, Copy, Debug, PartialEq, Eq, Structural)]
pub enum PlanetKind {
    AstroParrot,
    RustEze,
    OneMillionCrabs,
    Luna4,
    Trip,
    Skycartel,
    TheCompilerStrikesBack,
    ImmutableCosmicBorrow,
}

/// The fixed roster of planets that make up the galaxy: one AstroParrot
/// planet alongside seven planets from other groups.
pub open spec fn planet_order_spec() -> Seq<PlanetKind> {
    seq![
        PlanetKind::AstroParrot,
        PlanetKind::RustEze,
        PlanetKind::OneMillionCrabs,
        PlanetKind::Luna4,
        PlanetKind::Trip,
        PlanetKind::Skycartel,
        PlanetKind::TheCompilerStrikesBack,
        PlanetKind::ImmutableCosmicBorrow,
    ]
}

/// The fixed roster of planets that make up the galaxy, in order.
pub fn planet_order() -> (r: [PlanetKind; 8])
    ensures
        r@ == planet_order_spec(),
{
    let r = [
        PlanetKind::AstroParrot,
        PlanetKind::RustEze,
        PlanetKind::OneMillionCrabs,
        PlanetKind::Luna4,
        PlanetKind::Trip,
        PlanetKind::Skycartel,
        PlanetKind::TheCompilerStrikesBack,
        PlanetKind::ImmutableCosmicBorrow,
    ];
    proof {
        assert(r@ =~= planet_order_spec());
    }
    r
}

impl PlanetKind {
    /// A human-readable name for the planet's group.
    pub open spec fn name_spec(self) -> Seq<char> {
        match self {
            PlanetKind::AstroParrot => "AstroParrot"@,
            PlanetKind::RustEze => "Rust-eze"@,
            PlanetKind::OneMillionCrabs => "One Million Crabs"@,
            PlanetKind::Luna4 => "Luna4"@,
            PlanetKind::Trip => "TRIP"@,
            PlanetKind::Skycartel => "Skycartel"@,
            PlanetKind::TheCompilerStrikesBack => "The Compiler Strikes Back"@,
            PlanetKind::ImmutableCosmicBorrow => "Immutable Cosmic Borrow"@,
        }
    }

    /// A human-readable name for the planet's group.
    pub fn name(self) -> (r: &'static str)
        ensures
            r@ == self.name_spec(),
    {
        match self {
            PlanetKind::AstroParrot => "AstroParrot",
            PlanetKind::RustEze => "Rust-eze",
            PlanetKind::OneMillionCrabs => "One Million Crabs",
            PlanetKind::Luna4 => "Luna4",
            PlanetKind::Trip => "TRIP",
            PlanetKind::Skycartel => "Skycartel",
            PlanetKind::TheCompilerStrikesBack => "The Compiler Strikes Back",
            PlanetKind::ImmutableCosmicBorrow => "Immutable Cosmic Borrow",
        }
    }
}

} // verus!
