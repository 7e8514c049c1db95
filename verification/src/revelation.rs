//! Lo que decide la revelación: qué grupos avanzan, cuándo arranca el
//! finale y qué hace un clic, a partir de la fase de cada grupo; y la
//! consulta de sombras, que no pasa por la interpolación de materiales.
//!
//! El progreso de cada grupo es un escalar real y queda fuera de esta
//! librería; quien lo lleva deriva de él la fase: lienzo en `0`, pintado en
//! `1` y revelándose entre medias.

use vstd::prelude::*;
use crate::scene::RevealGroup;

verus! {

/// Fase de un grupo, derivada de su escalar de progreso: nada la guarda ni
/// la escribe, es una vista de solo lectura sobre el progreso.
#[derive(Debug, Clone, Copy, PartialEq, Eq, Structural)]
pub enum RevealPhase {
    Unpainted,
    Revealing,
    Painted,
}

/// Cómo participa un material en las sombras.
#[derive(Debug, Clone, Copy, PartialEq, Eq, Structural)]
pub enum ShadowMode {
    /// Bloquea la luz.
    Opaque,
    /// La deja pasar: el agua no sombrea al barco que flota en ella.
    Ignore,
}

/// Modo de sombra efectivo de un objeto: el de su material final.
///
/// `modos_de_material[m]` es el modo del material `m` de la escena, y
/// `material_final` el material al que llega el objeto. Es una función
/// aparte para dejar constancia de que la consulta de sombras **no pasa
/// por la interpolación**: el recorrido de sombras no necesita resolver
/// texturas ni escalares, solo saber si el objeto bloquea.
pub fn shadow_mode_of(modos_de_material: &[ShadowMode], material_final: usize) -> (r: ShadowMode)
    requires
        material_final < modos_de_material@.len(),
    ensures
        r == modos_de_material@[material_final as int],
{
    modos_de_material[material_final]
}

/// Las fases de los cuatro grupos, en el orden de `RevealGroup::ALL`.
pub open spec fn fase_de(fases: [RevealPhase; 4], g: RevealGroup) -> RevealPhase {
    fases[g.posicion() as int]
}

/// Las tres regiones están pintadas. El finale queda fuera a propósito, o
/// la condición se cumpliría a sí misma.
pub open spec fn regiones_pintadas(fases: [RevealPhase; 4]) -> bool {
    &&& fase_de(fases, RevealGroup::Meadows) == RevealPhase::Painted
    &&& fase_de(fases, RevealGroup::Breakwater) == RevealPhase::Painted
    &&& fase_de(fases, RevealGroup::FlyingWaters) == RevealPhase::Painted
}

/// ¿Un clic arranca la revelación de un grupo en esta fase? Solo si sigue
/// en lienzo: un segundo clic sobre una región en curso o ya pintada no la
/// reinicia ni la acelera.
pub fn se_activa(fase: RevealPhase) -> (r: bool)
    ensures
        r == (fase == RevealPhase::Unpainted),
{
    fase == RevealPhase::Unpainted
}

/// ¿Están pintadas las tres regiones? Es la condición que habilita el
/// finale.
pub fn all_regions_painted(fases: &[RevealPhase; 4]) -> (r: bool)
    ensures
        r == regiones_pintadas(*fases),
{
    fases[RevealGroup::Meadows.index()] == RevealPhase::Painted
        && fases[RevealGroup::Breakwater.index()] == RevealPhase::Painted
        && fases[RevealGroup::FlyingWaters.index()] == RevealPhase::Painted
}

/// Qué grupos avanzan en un tick: los que se están revelando, y solo
/// ellos. Lo que nadie activó y lo que ya terminó no se toca.
pub fn avanzan(fases: &[RevealPhase; 4]) -> (r: [bool; 4])
    ensures
        forall|i: int| 0 <= i < 4 ==> r[i] == (fases[i] == RevealPhase::Revealing),
{
    let mut r = [false; 4];
    let mut i: usize = 0;
    while i < 4
        invariant
            0 <= i <= 4,
            forall|j: int| 0 <= j < i ==> r[j] == (fases[j] == RevealPhase::Revealing),
        decreases 4 - i,
    {
        r.set(i, fases[i] == RevealPhase::Revealing);
        i = i + 1;
    }
    r
}

/// ¿Arranca el finale al terminar el tick? Con las fases ya avanzadas: las
/// tres regiones pintadas y el finale todavía en lienzo. El Monolito no se
/// elige, se revela cuando el Continente está pintado; y arranca en el
/// tick siguiente, sin recibir un paso parcial del mismo en que las
/// regiones terminaron.
pub fn arranca_el_finale(fases: &[RevealPhase; 4]) -> (r: bool)
    ensures
        r == (regiones_pintadas(*fases) && fase_de(*fases, RevealGroup::Finale)
            == RevealPhase::Unpainted),
{
    all_regions_painted(fases) && se_activa(fases[RevealGroup::Finale.index()])
}

} // verus!
