//! Identidad de las parametrizaciones `uv` de una superficie.

use vstd::prelude::*;

verus! {

/// Qué parametrización produjo la `uv` de un impacto.
///
/// Una `uv` sola no identifica un punto de una superficie: las seis caras de
/// un cuboide recorren las mismas `0..1`. La carta es lo que las separa: dos
/// impactos pertenecen al mismo trozo pintable si coinciden el objeto y la
/// carta. El número solo tiene sentido junto al objeto del impacto.
#[derive(Debug, Clone, Copy, PartialEq, Eq, Hash, Structural)]
pub struct UvChart(u8);

impl UvChart {
    /// La superficie tiene una sola parametrización: la carta `0`. Es el
    /// valor por defecto.
    pub fn whole() -> (c: Self)
        ensures
            c.numero() == 0,
    {
        UvChart(0)
    }

    /// El número de la carta.
    pub closed spec fn numero(self) -> u8 {
        self.0
    }

    /// Carta `id` de la primitiva que la escribe.
    pub fn new(id: u8) -> (c: Self)
        ensures
            c.numero() == id,
    {
        UvChart(id)
    }

    /// El número, para quien necesite indexar por carta.
    pub fn id(self) -> (r: u8)
        ensures
            r == self.numero(),
    {
        self.0
    }
}

impl Default for UvChart {
    /// La carta única, `whole`.
    fn default() -> (c: Self)
        ensures
            c.numero() == 0,
    {
        UvChart(0)
    }
}

/// Dos cartas son la misma si y solo si tienen el mismo número.
pub proof fn ley_cartas_por_identidad(a: UvChart, b: UvChart)
    ensures
        a == b <==> a.numero() == b.numero(),
{
}

} // verus!
