//! The material catalog: the kinds of matter a cell can hold.

use vstd::prelude::*;

verus! {

/// State of matter, with the parameter that belongs to that state.
#[derive(Clone, Copy, Debug, PartialEq, Eq)]
pub enum Phase {
    Void,
    Solid { hardness: u8 },
    Powder { coarseness: u32 },
    Liquid { viscosity: u32 },
    Gas { viscosity: u32 },
    Plasma { viscosity: u32 },
}

/// How a material is shown. The engine never reads it.
#[derive(Clone, Copy, Debug, PartialEq, Eq)]
pub enum Tint {
    Empty,
    Blue,
    Sand,
    Black,
    Red,
    Gray,
    Pink,
}

/// A kind of matter. Values are plain data and are copied freely.
///
/// `mass`, `coarseness`, `viscosity` and `flammability` count thousandths.
/// Only `mass` and `phase` take part in motion.
#[derive(Clone, Copy, Debug, PartialEq, Eq)]
pub struct Material {
    pub mass: u32,
    pub coarseness: u32,
    pub hardness: u8,
    pub viscosity: u32,
    pub phase: Phase,
    pub flammability: u32,
    pub tint: Tint,
}

impl Phase {
    /// The phases that gravity moves.
    pub open spec fn falls(self) -> bool {
        self is Powder || self is Liquid
    }

    /// Whether a cell in this phase is moved by gravity during a tick.
    pub fn is_falling(&self) -> (b: bool)
        ensures
            b == self.falls(),
    {
        match self {
            Phase::Powder { .. } => true,
            Phase::Liquid { .. } => true,
            _ => false,
        }
    }
}

impl Material {
    /// An empty cell is weightless.
    pub open spec fn wf(self) -> bool {
        self.phase is Void ==> self.mass == 0
    }

    pub open spec fn spec_void() -> Material {
        Material {
            mass: 0,
            coarseness: 0,
            hardness: 5,
            viscosity: 0,
            phase: Phase::Void,
            flammability: 0,
            tint: Tint::Empty,
        }
    }

    pub open spec fn spec_water() -> Material {
        Material {
            mass: 1000,
            coarseness: 0,
            hardness: 5,
            viscosity: 1000,
            phase: Phase::Liquid { viscosity: 1000 },
            flammability: 1000,
            tint: Tint::Blue,
        }
    }

    pub open spec fn spec_sand() -> Material {
        Material {
            mass: 1682,
            coarseness: 1000,
            hardness: 5,
            viscosity: 0,
            phase: Phase::Powder { coarseness: 1000 },
            flammability: 0,
            tint: Tint::Sand,
        }
    }

    pub open spec fn spec_solid() -> Material {
        Material {
            mass: 1682,
            coarseness: 0,
            hardness: 5,
            viscosity: 0,
            phase: Phase::Solid { hardness: 5 },
            flammability: 0,
            tint: Tint::Black,
        }
    }

    pub open spec fn spec_powder() -> Material {
        Material {
            mass: 1682,
            coarseness: 1000,
            hardness: 5,
            viscosity: 0,
            phase: Phase::Powder { coarseness: 1000 },
            flammability: 0,
            tint: Tint::Red,
        }
    }

    pub open spec fn spec_liquid() -> Material {
        Material {
            mass: 1682,
            coarseness: 0,
            hardness: 5,
            viscosity: 1000,
            phase: Phase::Liquid { viscosity: 1000 },
            flammability: 0,
            tint: Tint::Blue,
        }
    }

    pub open spec fn spec_gas() -> Material {
        Material {
            mass: 1682,
            coarseness: 0,
            hardness: 5,
            viscosity: 1000,
            phase: Phase::Gas { viscosity: 1000 },
            flammability: 0,
            tint: Tint::Gray,
        }
    }

    pub open spec fn spec_plasma() -> Material {
        Material {
            mass: 1682,
            coarseness: 0,
            hardness: 5,
            viscosity: 1000,
            phase: Phase::Plasma { viscosity: 1000 },
            flammability: 0,
            tint: Tint::Pink,
        }
    }

    /// The members of the catalog.
    pub open spec fn in_catalog(self) -> bool {
        self == Self::spec_void() || self == Self::spec_water() || self == Self::spec_sand()
            || self == Self::spec_solid() || self == Self::spec_powder() || self
            == Self::spec_liquid() || self == Self::spec_gas() || self == Self::spec_plasma()
    }

    /// The material of an empty cell.
    pub fn void() -> (m: Material)
        ensures
            m == Self::spec_void(),
    {
        Material {
            mass: 0,
            coarseness: 0,
            hardness: 5,
            viscosity: 0,
            phase: Phase::Void,
            flammability: 0,
            tint: Tint::Empty,
        }
    }

    pub fn water() -> (m: Material)
        ensures
            m == Self::spec_water(),
    {
        Material {
            mass: 1000,
            coarseness: 0,
            hardness: 5,
            viscosity: 1000,
            phase: Phase::Liquid { viscosity: 1000 },
            flammability: 1000,
            tint: Tint::Blue,
        }
    }

    pub fn sand() -> (m: Material)
        ensures
            m == Self::spec_sand(),
    {
        Material {
            mass: 1682,
            coarseness: 1000,
            hardness: 5,
            viscosity: 0,
            phase: Phase::Powder { coarseness: 1000 },
            flammability: 0,
            tint: Tint::Sand,
        }
    }

    pub fn solid() -> (m: Material)
        ensures
            m == Self::spec_solid(),
    {
        Material {
            mass: 1682,
            coarseness: 0,
            hardness: 5,
            viscosity: 0,
            phase: Phase::Solid { hardness: 5 },
            flammability: 0,
            tint: Tint::Black,
        }
    }

    pub fn powder() -> (m: Material)
        ensures
            m == Self::spec_powder(),
    {
        Material {
            mass: 1682,
            coarseness: 1000,
            hardness: 5,
            viscosity: 0,
            phase: Phase::Powder { coarseness: 1000 },
            flammability: 0,
            tint: Tint::Red,
        }
    }

    pub fn liquid() -> (m: Material)
        ensures
            m == Self::spec_liquid(),
    {
        Material {
            mass: 1682,
            coarseness: 0,
            hardness: 5,
            viscosity: 1000,
            phase: Phase::Liquid { viscosity: 1000 },
            flammability: 0,
            tint: Tint::Blue,
        }
    }

    pub fn gas() -> (m: Material)
        ensures
            m == Self::spec_gas(),
    {
        Material {
            mass: 1682,
            coarseness: 0,
            hardness: 5,
            viscosity: 1000,
            phase: Phase::Gas { viscosity: 1000 },
            flammability: 0,
            tint: Tint::Gray,
        }
    }

    pub fn plasma() -> (m: Material)
        ensures
            m == Self::spec_plasma(),
    {
        Material {
            mass: 1682,
            coarseness: 0,
            hardness: 5,
            viscosity: 1000,
            phase: Phase::Plasma { viscosity: 1000 },
            flammability: 0,
            tint: Tint::Pink,
        }
    }

    /// Whether this is the material of an empty cell.
    pub fn is_void(&self) -> (b: bool)
        ensures
            b == (self.phase is Void),
    {
        match self.phase {
            Phase::Void => true,
            _ => false,
        }
    }
}

/// Every catalog material is well formed, and none is heavier than the
/// catalog's solid.
pub proof fn lemma_catalog(m: Material)
    requires
        m.in_catalog(),
    ensures
        m.wf(),
        m.mass <= Material::spec_solid().mass,
        m.phase is Void <==> m.mass == 0,
{
}

} // verus!
