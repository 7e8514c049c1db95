//! Los dos repartos de la escena: grupos espaciales y grupos de revelación.

use vstd::prelude::*;

verus! {

/// Región de pintura. Un escalar de progreso por grupo.
#[derive(Debug, Clone, Copy, PartialEq, Eq, Hash, Structural)]
pub enum RevealGroup {
    Meadows,
    Breakwater,
    FlyingWaters,
    Finale,
}

impl RevealGroup {
    pub const COUNT: usize = 4;

    /// Los cuatro grupos: las tres regiones y el finale.
    pub const ALL: [RevealGroup; 4] = [
        RevealGroup::Meadows,
        RevealGroup::Breakwater,
        RevealGroup::FlyingWaters,
        RevealGroup::Finale,
    ];

    /// Posición del grupo en `ALL`.
    pub open spec fn posicion(self) -> nat {
        match self {
            RevealGroup::Meadows => 0,
            RevealGroup::Breakwater => 1,
            RevealGroup::FlyingWaters => 2,
            RevealGroup::Finale => 3,
        }
    }

    pub fn index(self) -> (i: usize)
        ensures
            i == self.posicion(),
    {
        match self {
            RevealGroup::Meadows => 0,
            RevealGroup::Breakwater => 1,
            RevealGroup::FlyingWaters => 2,
            RevealGroup::Finale => 3,
        }
    }
}

/// Región espacial de la escena. La jerarquía de aceleración y el
/// *light linking* se organizan por estos siete grupos.
#[derive(Debug, Clone, Copy, PartialEq, Eq, Hash, Structural)]
pub enum SpatialGroupId {
    Global,
    Continent,
    Meadows,
    Breakwater,
    FlyingWaters,
    Monolith,
    Props,
}

impl SpatialGroupId {
    pub const COUNT: usize = 7;

    /// Los siete grupos, en el orden fijo en que se recorren.
    pub const ALL: [SpatialGroupId; 7] = [
        SpatialGroupId::Global,
        SpatialGroupId::Continent,
        SpatialGroupId::Meadows,
        SpatialGroupId::Breakwater,
        SpatialGroupId::FlyingWaters,
        SpatialGroupId::Monolith,
        SpatialGroupId::Props,
    ];

    /// Posición del grupo en `ALL`.
    pub open spec fn posicion(self) -> nat {
        match self {
            SpatialGroupId::Global => 0,
            SpatialGroupId::Continent => 1,
            SpatialGroupId::Meadows => 2,
            SpatialGroupId::Breakwater => 3,
            SpatialGroupId::FlyingWaters => 4,
            SpatialGroupId::Monolith => 5,
            SpatialGroupId::Props => 6,
        }
    }

    pub fn index(self) -> (i: usize)
        ensures
            i == self.posicion(),
    {
        match self {
            SpatialGroupId::Global => 0,
            SpatialGroupId::Continent => 1,
            SpatialGroupId::Meadows => 2,
            SpatialGroupId::Breakwater => 3,
            SpatialGroupId::FlyingWaters => 4,
            SpatialGroupId::Monolith => 5,
            SpatialGroupId::Props => 6,
        }
    }
}

/// `ALL` enumera cada grupo de revelación exactamente en su posición.
pub proof fn ley_grupos_de_revelacion_en_orden(g: RevealGroup)
    ensures
        g.posicion() < RevealGroup::COUNT,
        RevealGroup::ALL[g.posicion() as int] == g,
{
}

/// `ALL` enumera cada grupo espacial exactamente en su posición.
pub proof fn ley_grupos_espaciales_en_orden(g: SpatialGroupId)
    ensures
        g.posicion() < SpatialGroupId::COUNT,
        SpatialGroupId::ALL[g.posicion() as int] == g,
{
}

} // verus!
