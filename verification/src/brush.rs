//! Qué superficie se pinta.

use vstd::prelude::*;
use crate::hit::UvChart;

verus! {

/// Qué superficie se pinta: un objeto de la escena y una de sus cartas `uv`.
///
/// Las dos mitades son necesarias y ninguna sobra: sin el objeto, piezas que
/// comparten carta compartirían máscara; sin la carta, las caras de un
/// cuboide que recorren idénticas `uv` compartirían máscara.
#[derive(Debug, Clone, Copy, PartialEq, Eq, Hash, Structural)]
pub struct SurfaceKey {
    pub object_index: usize,
    pub uv_chart: UvChart,
}

impl SurfaceKey {
    pub fn new(object_index: usize, uv_chart: UvChart) -> (k: Self)
        ensures
            k.object_index == object_index,
            k.uv_chart == uv_chart,
    {
        SurfaceKey { object_index, uv_chart }
    }
}

/// Dos claves son la misma superficie si y solo si coinciden el objeto y la
/// carta.
pub proof fn ley_clave_es_objeto_y_carta(a: SurfaceKey, b: SurfaceKey)
    ensures
        a == b <==> (a.object_index == b.object_index && a.uv_chart == b.uv_chart),
{
}

} // verus!
