//! Política de cuadros del trazado: qué se dibuja, a qué resolución y
//! cuándo se duerme.

use vstd::prelude::*;

verus! {

/// Profundidad de rebote con la que entra cada rayo primario.
pub const MAX_DEPTH: u32 = 3;

/// Resolución a la que se dibujan los cuadros mientras algo se mueve.
///
/// Mientras la cámara o la revelación cambian se dibuja a menor resolución
/// y se escala; al quedar todo quieto se produce un cuadro final a
/// resolución completa.
#[derive(Debug, Clone, Copy, PartialEq, Eq, Structural)]
pub struct InteractiveProfile {
    pub width: usize,
    pub height: usize,
}

impl InteractiveProfile {
    /// Media resolución: `400 × 300`. Es la opción de calidad.
    pub fn media() -> (p: InteractiveProfile)
        ensures
            p.width == 400,
            p.height == 300,
    {
        InteractiveProfile { width: 400, height: 300 }
    }

    /// `320 × 240`: el perfil de serie.
    pub fn baja() -> (p: InteractiveProfile)
        ensures
            p.width == 320,
            p.height == 240,
    {
        InteractiveProfile { width: 320, height: 240 }
    }

    /// Cuántos píxeles se trazan por cuadro con este perfil.
    pub fn pixels(&self) -> (n: usize)
        requires
            self.width * self.height <= usize::MAX,
        ensures
            n == self.width * self.height,
    {
        self.width * self.height
    }
}

impl Default for InteractiveProfile {
    /// `baja`: lo que se paga es resolución mientras algo se mueve, y solo
    /// entonces.
    fn default() -> (p: Self)
        ensures
            p.width == 320,
            p.height == 240,
    {
        InteractiveProfile::baja()
    }
}

/// Qué hacer con el cuadro que toca presentar.
#[derive(Debug, Clone, Copy, PartialEq, Eq, Structural)]
pub enum FramePlan {
    /// Nada cambió y el cuadro definitivo ya está dibujado: se vuelve a
    /// presentar el mismo framebuffer.
    Reuse,
    /// Algo se está moviendo. Se traza al perfil interactivo y se escala.
    Interactive,
    /// Se detuvo el movimiento y falta el cuadro a resolución completa.
    Final,
}

/// La tabla de tres filas del plan de cuadro.
pub open spec fn plan_de(changing: bool, final_pending: bool) -> FramePlan {
    if changing {
        FramePlan::Interactive
    } else if final_pending {
        FramePlan::Final
    } else {
        FramePlan::Reuse
    }
}

/// Decide el plan del cuadro.
///
/// `changing` es cierto mientras haya un cambio sostenido —órbita, zoom o
/// una región revelándose—. Un cambio instantáneo no entra aquí: deja
/// `final_pending` en cierto.
pub fn plan_frame(changing: bool, final_pending: bool) -> (plan: FramePlan)
    ensures
        plan == plan_de(changing, final_pending),
{
    match (changing, final_pending) {
        (true, _) => FramePlan::Interactive,
        (false, true) => FramePlan::Final,
        (false, false) => FramePlan::Reuse,
    }
}

impl FramePlan {
    /// ¿Hay que trazar la escena en este cuadro?
    pub fn draws(self) -> (r: bool)
        ensures
            r == (self != FramePlan::Reuse),
    {
        self != FramePlan::Reuse
    }

    /// ¿Conviene dormir después de presentar? Solo en reposo: dormir
    /// mientras algo se mueve le quita cuadros a la animación.
    pub fn should_sleep(self) -> (r: bool)
        ensures
            r == (self == FramePlan::Reuse),
    {
        self == FramePlan::Reuse
    }
}

/// Se traza si y solo si algo cambia o queda pendiente el cuadro final, y
/// se duerme exactamente cuando no se traza.
pub proof fn ley_se_traza_solo_si_hace_falta(changing: bool, final_pending: bool)
    ensures
        (plan_de(changing, final_pending) != FramePlan::Reuse) <==> (changing || final_pending),
        (plan_de(changing, final_pending) == FramePlan::Reuse) <==> !(changing || final_pending),
{
}

/// Lo que queda pendiente después de presentar un plan: un cuadro
/// interactivo deja pendiente el final, el final lo salda y reutilizar no
/// cambia nada.
pub open spec fn pendiente_tras(plan: FramePlan, pendiente: bool) -> bool {
    match plan {
        FramePlan::Interactive => true,
        FramePlan::Final => false,
        FramePlan::Reuse => pendiente,
    }
}

/// El cuadro final se traza una sola vez: tras un cuadro interactivo, el
/// primer cuadro quieto es `Final`, y desde ahí, mientras nada cambie, se
/// reutiliza.
pub proof fn ley_el_cuadro_final_se_traza_una_vez(pendiente: bool)
    ensures
        plan_de(false, pendiente_tras(plan_de(true, pendiente), pendiente)) == FramePlan::Final,
        plan_de(false, pendiente_tras(FramePlan::Final, true)) == FramePlan::Reuse,
        pendiente_tras(FramePlan::Reuse, false) == false,
{
}

/// Cómo se resuelve el color de un impacto.
#[derive(Debug, Clone, Copy, PartialEq, Eq, Structural)]
pub enum Shading {
    /// Iluminación completa: ambiente, difusa y especular directa.
    Material,
    /// Albedo plano, sin luces.
    Albedo,
    /// Vista de depuración: cada eje de la normal se ve de un color.
    Normals,
}

impl Default for Shading {
    /// Iluminación completa.
    fn default() -> (s: Self)
        ensures
            s == Shading::Material,
    {
        Shading::Material
    }
}

} // verus!
