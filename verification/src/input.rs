//! Entrada del usuario: teclado de la demo, el reductor de cada cuadro y el
//! mapeo de un píxel de ventana al píxel fuente que muestra.
//!
//! Este módulo trabaja con valores crudos, no con tipos de la librería de
//! ventana: lo que decide tiene que poder probarse sin abrir una ventana.

use vstd::prelude::*;
use crate::brush_palette::{mayuscula, minuscula};
use crate::framebuffer::{pixel_fuente, source_pixel};
use crate::scene::RevealGroup;

verus! {

/// Las tres regiones del fallback de teclado, en el orden del plan.
///
/// `Finale` queda fuera a propósito: el Monolito no es una región que se
/// elija, es la consecuencia de haber pintado las tres.
pub const DEMO_REGIONS: [RevealGroup; 3] = [
    RevealGroup::Meadows,
    RevealGroup::Breakwater,
    RevealGroup::FlyingWaters,
];

/// Región asociada a un dígito: `1`, `2` y `3` nombran las tres regiones.
pub open spec fn region_de_digito(digit: u8) -> Option<RevealGroup> {
    if 1 <= digit <= 3 {
        Some(DEMO_REGIONS[digit - 1])
    } else {
        None
    }
}

/// Región del fallback asociada a un dígito, o `None` si ese dígito no
/// corresponde a ninguna.
pub fn demo_region(digit: u8) -> (r: Option<RevealGroup>)
    ensures
        r == region_de_digito(digit),
{
    let indice = match digit.checked_sub(1) {
        Some(i) => i,
        None => return None,
    };
    if (indice as usize) < DEMO_REGIONS.len() {
        Some(DEMO_REGIONS[indice as usize])
    } else {
        None
    }
}

/// Lo que el teclado de presentación puede pedir.
///
/// `ResetCamera` no lleva el encuadre: se limita a decir «restaurá», y el
/// encuadre lo aporta la escena.
#[derive(Debug, Clone, Copy, PartialEq, Eq, Structural)]
pub enum DemoAction {
    /// Empezar a pintar una región.
    Paint(RevealGroup),
    /// Volver al lienzo para repetir la demostración.
    ResetCanvas,
    /// Recuperar el encuadre hero de la escena.
    ResetCamera,
}

/// Acción de cada tecla de la demo: los tres dígitos pintan su región, `L`
/// vuelve al lienzo y `R` restaura la cámara, en mayúscula o minúscula.
pub open spec fn accion_de_tecla(key: char) -> Option<DemoAction> {
    if key == '1' {
        Some(DemoAction::Paint(RevealGroup::Meadows))
    } else if key == '2' {
        Some(DemoAction::Paint(RevealGroup::Breakwater))
    } else if key == '3' {
        Some(DemoAction::Paint(RevealGroup::FlyingWaters))
    } else if key == 'l' || key == 'L' {
        Some(DemoAction::ResetCanvas)
    } else if key == 'r' || key == 'R' {
        Some(DemoAction::ResetCamera)
    } else {
        None
    }
}

/// Acción asociada a una tecla de la demo, o `None` si esa tecla no hace
/// nada.
pub fn demo_action(key: char) -> (r: Option<DemoAction>)
    ensures
        r == accion_de_tecla(key),
{
    if key == '1' || key == '2' || key == '3' {
        let digito = key as u8 - 48;
        match demo_region(digito) {
            Some(grupo) => Some(DemoAction::Paint(grupo)),
            None => None,
        }
    } else if key == 'l' || key == 'L' {
        Some(DemoAction::ResetCanvas)
    } else if key == 'r' || key == 'R' {
        Some(DemoAction::ResetCamera)
    } else {
        None
    }
}

/// Los grupos que piden las acciones, cada uno una vez, en el orden en que
/// se pidieron por primera vez.
pub open spec fn grupos_pedidos(acciones: Seq<DemoAction>) -> Seq<RevealGroup>
    decreases acciones.len(),
{
    if acciones.len() == 0 {
        Seq::empty()
    } else {
        let previos = grupos_pedidos(acciones.drop_last());
        match acciones.last() {
            DemoAction::Paint(g) => if previos.contains(g) {
                previos
            } else {
                previos.push(g)
            },
            _ => previos,
        }
    }
}

/// Alguna de las acciones es `accion`.
pub open spec fn pide(acciones: Seq<DemoAction>, accion: DemoAction) -> bool {
    exists|i: int| 0 <= i < acciones.len() && acciones[i] == accion
}

/// Las teclas de la demo no distinguen mayúsculas: una tecla hace lo mismo
/// que su minúscula y que su mayúscula.
pub proof fn ley_las_teclas_no_distinguen_mayusculas(c: char)
    ensures
        accion_de_tecla(c) == accion_de_tecla(minuscula(c)),
        accion_de_tecla(c) == accion_de_tecla(mayuscula(c)),
{
    if 'A' <= c <= 'Z' {
        assert(minuscula(c) as u32 == c as u32 + 32);
    }
    if 'a' <= c <= 'z' {
        assert(mayuscula(c) as u32 == c as u32 - 32);
    }
}

/// El teclado llega a la demo completa y a nada más: toda región se pinta
/// con alguna tecla, y ninguna tecla pinta el finale, que no se elige.
pub proof fn ley_el_teclado_pinta_las_tres_regiones_y_no_el_finale(g: RevealGroup, c: char)
    ensures
        g != RevealGroup::Finale ==> exists|t: char|
            #[trigger] accion_de_tecla(t) == Some(DemoAction::Paint(g)),
        accion_de_tecla(c) != Some(DemoAction::Paint(RevealGroup::Finale)),
{
    match g {
        RevealGroup::Meadows => assert(accion_de_tecla('1') == Some(DemoAction::Paint(g))),
        RevealGroup::Breakwater => assert(accion_de_tecla('2') == Some(DemoAction::Paint(g))),
        RevealGroup::FlyingWaters => assert(accion_de_tecla('3') == Some(DemoAction::Paint(g))),
        RevealGroup::Finale => {},
    }
}

/// Reducir un cuadro no pierde ni repite pedidos: cada grupo pedido está
/// una sola vez, y solo están los pedidos. Como hay cuatro grupos, nunca
/// son más de cuatro, por muchas acciones que lleguen.
pub proof fn ley_ningun_pedido_se_pierde_ni_se_repite(acciones: Seq<DemoAction>)
    ensures
        sin_repetidos(grupos_pedidos(acciones)),
        forall|g: RevealGroup|
            grupos_pedidos(acciones).contains(g) <==> pide(acciones, DemoAction::Paint(g)),
        grupos_pedidos(acciones).len() <= RevealGroup::COUNT,
    decreases acciones.len(),
{
    if acciones.len() > 0 {
        let previas = acciones.drop_last();
        ley_ningun_pedido_se_pierde_ni_se_repite(previas);
        let antes = grupos_pedidos(previas);
        assert forall|a: DemoAction| pide(acciones, a) <==> (pide(previas, a) || acciones.last() == a) by {
            if pide(acciones, a) && acciones.last() != a {
                let k = choose|k: int| 0 <= k < acciones.len() && acciones[k] == a;
                assert(previas[k] == a);
            }
            if pide(previas, a) {
                let k = choose|k: int| 0 <= k < previas.len() && previas[k] == a;
                assert(acciones[k] == a);
            }
            if acciones.last() == a {
                assert(acciones[acciones.len() - 1] == a);
            }
        }
        if let DemoAction::Paint(g) = acciones.last() {
            if !antes.contains(g) {
                let despues = antes.push(g);
                assert forall|i: int, j: int| 0 <= i < j < despues.len() implies despues[i]
                    != despues[j] by {
                    if j == despues.len() - 1 {
                        assert(despues[i] == antes[i]);
                    }
                }
                assert forall|h: RevealGroup| despues.contains(h) <==> (antes.contains(h) || h == g) by {
                    if despues.contains(h) && h != g {
                        let k = choose|k: int| 0 <= k < despues.len() && despues[k] == h;
                        assert(antes[k] == h);
                    }
                    if antes.contains(h) {
                        let k = choose|k: int| 0 <= k < antes.len() && antes[k] == h;
                        assert(despues[k] == h);
                    }
                    if h == g {
                        assert(despues[despues.len() - 1] == h);
                    }
                }
                lema_cabe_uno_mas(antes, g);
            }
        }
    }
    let s = grupos_pedidos(acciones);
    if s.len() > RevealGroup::COUNT {
        let t = s.subrange(0, 4);
        assert(sin_repetidos(t));
        assert(!t.contains(s[4])) by {
            if t.contains(s[4]) {
                let k = choose|k: int| 0 <= k < t.len() && t[k] == s[4];
                assert(s[k] == s[4]);
            }
        }
        lema_cabe_uno_mas(t, s[4]);
    }
}

/// Lo que un cuadro de entrada le pide al estado, ya resuelto.
///
/// El ciclo de la ventana puede recibir varias acciones en el mismo cuadro.
/// Reducir primero y aplicar después hace que no se pierda ninguna y que un
/// reinicio del lienzo no quede pisado por una selección del mismo cuadro.
#[derive(Debug, Clone, Copy, PartialEq, Eq)]
pub struct FrameIntent {
    /// Grupos a activar, sin repetir, al principio del arreglo. Cuatro caben
    /// siempre: son todos los que existen.
    paint: [Option<RevealGroup>; 4],
    /// Volver al lienzo. Domina sobre `paint` del mismo cuadro.
    pub reset_canvas: bool,
    /// Restaurar el encuadre hero. Convive con todo lo demás.
    pub reset_camera: bool,
}

/// Una secuencia de grupos sin repetidos.
pub open spec fn sin_repetidos(s: Seq<RevealGroup>) -> bool {
    forall|i: int, j: int| 0 <= i < j < s.len() ==> s[i] != s[j]
}

/// Una secuencia sin repetidos que no contiene `g` tiene a lo sumo tres
/// grupos: solo hay cuatro.
proof fn lema_cabe_uno_mas(s: Seq<RevealGroup>, g: RevealGroup)
    requires
        sin_repetidos(s),
        !s.contains(g),
    ensures
        s.len() < RevealGroup::COUNT,
{
    if s.len() >= 4 {
        assert(s[0] != s[1] && s[0] != s[2] && s[0] != s[3] && s[1] != s[2] && s[1] != s[3] && s[2]
            != s[3]);
        assert(s[0] != g);
        assert(s[1] != g);
        assert(s[2] != g);
        assert(s[3] != g);
    }
}

impl FrameIntent {
    /// ¿Pide volver al lienzo?
    pub closed spec fn reinicia_lienzo(self) -> bool {
        self.reset_canvas
    }

    /// ¿Pide restaurar la cámara?
    pub closed spec fn reinicia_camara(self) -> bool {
        self.reset_camera
    }

    /// Cuántas casillas ocupadas hay al principio del arreglo.
    closed spec fn ocupadas(self) -> nat {
        if self.paint[0] is None {
            0
        } else if self.paint[1] is None {
            1
        } else if self.paint[2] is None {
            2
        } else if self.paint[3] is None {
            3
        } else {
            4
        }
    }

    /// Los grupos a pintar antes de aplicar la precedencia, en orden.
    pub closed spec fn pedidos(self) -> Seq<RevealGroup> {
        Seq::new(self.ocupadas(), |i: int| self.paint[i]->0)
    }

    /// Las casillas ocupadas van primero y no repiten grupo.
    pub closed spec fn wf(self) -> bool {
        &&& forall|i: int| 0 <= i < 4 ==> (self.paint[i] is Some <==> i < self.ocupadas())
        &&& sin_repetidos(self.pedidos())
    }

    /// Un cuadro que no pide nada.
    pub fn vacio() -> (r: Self)
        ensures
            r.wf(),
            r.pedidos() == Seq::<RevealGroup>::empty(),
            !r.reinicia_lienzo(),
            !r.reinicia_camara(),
    {
        let r = FrameIntent { paint: [None, None, None, None], reset_canvas: false, reset_camera: false };
        assert(r.pedidos() =~= Seq::<RevealGroup>::empty());
        r
    }

    /// Reduce las acciones de un cuadro a una intención.
    pub fn from_actions(actions: &[DemoAction]) -> (intent: Self)
        ensures
            intent.wf(),
            intent.pedidos() == grupos_pedidos(actions@),
            intent.reinicia_lienzo() == pide(actions@, DemoAction::ResetCanvas),
            intent.reinicia_camara() == pide(actions@, DemoAction::ResetCamera),
    {
        let mut intent = FrameIntent::vacio();
        let mut i: usize = 0;
        while i < actions.len()
            invariant
                0 <= i <= actions@.len(),
                intent.wf(),
                intent.pedidos() == grupos_pedidos(actions@.subrange(0, i as int)),
                intent.reinicia_lienzo() == pide(actions@.subrange(0, i as int), DemoAction::ResetCanvas),
                intent.reinicia_camara() == pide(actions@.subrange(0, i as int), DemoAction::ResetCamera),
            decreases actions@.len() - i,
        {
            let action = actions[i];
            let ghost previas = actions@.subrange(0, i as int);
            let ghost siguientes = actions@.subrange(0, i + 1);
            proof {
                assert(siguientes.drop_last() == previas);
                assert(siguientes.last() == action);
                assert forall|a: DemoAction| pide(siguientes, a) <==> (pide(previas, a) || action == a) by {
                    if pide(siguientes, a) && action != a {
                        let k = choose|k: int| 0 <= k < siguientes.len() && siguientes[k] == a;
                        assert(previas[k] == a);
                    }
                    if pide(previas, a) {
                        let k = choose|k: int| 0 <= k < previas.len() && previas[k] == a;
                        assert(siguientes[k] == a);
                    }
                    if action == a {
                        assert(siguientes[i as int] == a);
                    }
                }
            }
            match action {
                DemoAction::Paint(grupo) => intent.add_paint(grupo),
                DemoAction::ResetCanvas => intent.reset_canvas = true,
                DemoAction::ResetCamera => intent.reset_camera = true,
            }
            i = i + 1;
        }
        proof {
            assert(actions@.subrange(0, actions@.len() as int) == actions@);
        }
        intent
    }

    /// Añade un grupo a pintar, sin duplicarlo.
    pub fn add_paint(&mut self, group: RevealGroup)
        requires
            old(self).wf(),
        ensures
            final(self).wf(),
            final(self).pedidos() == if old(self).pedidos().contains(group) {
                old(self).pedidos()
            } else {
                old(self).pedidos().push(group)
            },
            final(self).reinicia_lienzo() == old(self).reinicia_lienzo(),
            final(self).reinicia_camara() == old(self).reinicia_camara(),
    {
        let ghost antes = self.pedidos();
        let mut i: usize = 0;
        while i < 4
            invariant
                0 <= i <= 4,
                *self == *old(self),
                self.wf(),
                antes == self.pedidos(),
                forall|j: int| 0 <= j < i ==> self.paint[j] != Some(group),
            decreases 4 - i,
        {
            if self.paint[i] == Some(group) {
                proof {
                    assert(antes[i as int] == group);
                }
                return;
            }
            i = i + 1;
        }
        proof {
            assert(!antes.contains(group)) by {
                if antes.contains(group) {
                    let k = choose|k: int| 0 <= k < antes.len() && antes[k] == group;
                    assert(self.paint[k] == Some(group));
                }
            }
            lema_cabe_uno_mas(antes, group);
        }
        let mut k: usize = 0;
        while k < 4
            invariant
                0 <= k <= 4,
                *self == *old(self),
                self.wf(),
                antes == self.pedidos(),
                !antes.contains(group),
                antes.len() < 4,
                forall|j: int| 0 <= j < k ==> self.paint[j] is Some,
            decreases 4 - k,
        {
            if self.paint[k].is_none() {
                self.paint.set(k, Some(group));
                proof {
                    assert(k as nat == antes.len());
                    assert(self.pedidos() =~= antes.push(group));
                }
                return;
            }
            k = k + 1;
        }
    }

    /// Los grupos a pintar después de aplicar la precedencia.
    ///
    /// Con `reset_canvas` la lista queda vacía: volver al lienzo y pintar en
    /// el mismo cuadro es contradictorio, y de las dos lecturas la que
    /// respeta lo que el usuario acaba de pedir es reiniciar.
    pub fn paints(&self) -> (r: Vec<RevealGroup>)
        requires
            self.wf(),
        ensures
            r@ == if self.reinicia_lienzo() {
                Seq::<RevealGroup>::empty()
            } else {
                self.pedidos()
            },
            r@.no_duplicates(),
            r@.len() <= RevealGroup::COUNT,
    {
        let mut r: Vec<RevealGroup> = Vec::new();
        if self.reset_canvas {
            return r;
        }
        let mut i: usize = 0;
        while i < 4
            invariant
                0 <= i <= 4,
                self.wf(),
                !self.reset_canvas,
                r@ == self.pedidos().subrange(0, if i <= self.pedidos().len() { i as int } else { self.pedidos().len() as int }),
            decreases 4 - i,
        {
            if let Some(grupo) = self.paint[i] {
                proof {
                    assert(i < self.pedidos().len());
                    assert(self.pedidos().subrange(0, i + 1) == self.pedidos().subrange(0, i as int).push(grupo));
                }
                r.push(grupo);
            }
            i = i + 1;
        }
        proof {
            assert(self.pedidos().subrange(0, self.pedidos().len() as int) == self.pedidos());
            assert(sin_repetidos(self.pedidos()));
            assert forall|a: int, b: int| 0 <= a < r@.len() && 0 <= b < r@.len() && a != b implies r@[a]
                != r@[b] by {
                if a < b {
                    assert(self.pedidos()[a] != self.pedidos()[b]);
                } else {
                    assert(self.pedidos()[b] != self.pedidos()[a]);
                }
            }
        }
        r
    }

    /// ¿Este cuadro no pide nada?
    pub fn is_empty(&self) -> (r: bool)
        requires
            self.wf(),
        ensures
            r == (!self.reinicia_lienzo() && !self.reinicia_camara() && self.pedidos().len() == 0),
    {
        !self.reset_canvas && !self.reset_camera && self.paint[0].is_none() && self.paint[1].is_none()
            && self.paint[2].is_none() && self.paint[3].is_none()
    }
}

impl Default for FrameIntent {
    /// Un cuadro que no pide nada.
    fn default() -> (r: Self)
        ensures
            r.wf(),
            r.pedidos() == Seq::<RevealGroup>::empty(),
            !r.reinicia_lienzo(),
            !r.reinicia_camara(),
    {
        FrameIntent::vacio()
    }
}

/// El píxel de ventana `(x, y)` sobre una imagen trazada a `fuente` y
/// presentada en `ventana`: el píxel fuente que muestra, o nada si cae
/// fuera de la ventana. El borde derecho e inferior quedan excluidos.
pub open spec fn pixel_bajo_cursor(
    ventana: (usize, usize),
    fuente: (usize, usize),
    x: int,
    y: int,
) -> Option<(int, int)> {
    if x >= ventana.0 || y >= ventana.1 {
        None
    } else {
        Some(
            (
                pixel_fuente(x, ventana.0 as int, fuente.0 as int),
                pixel_fuente(y, ventana.1 as int, fuente.1 as int),
            ),
        )
    }
}

/// Píxel fuente que se muestra en el píxel de ventana `(x, y)`, o `None` si
/// ese píxel no está en la ventana.
///
/// Pasa por el mismo mapeo que dibuja, `source_pixel`: así un clic elige lo
/// que el usuario ve y no lo que hay un píxel al lado.
pub fn source_pixel_in_window(
    ventana: (usize, usize),
    fuente: (usize, usize),
    x: usize,
    y: usize,
) -> (r: Option<(usize, usize)>)
    requires
        x < ventana.0 ==> x * fuente.0 <= usize::MAX,
        y < ventana.1 ==> y * fuente.1 <= usize::MAX,
    ensures
        match (r, pixel_bajo_cursor(ventana, fuente, x as int, y as int)) {
            (None, None) => true,
            (Some((a, b)), Some((c, d))) => a == c && b == d,
            _ => false,
        },
        r matches Some((a, b)) ==> a < fuente.0 || fuente.0 == 0,
        r matches Some((a, b)) ==> b < fuente.1 || fuente.1 == 0,
{
    let (ancho, alto) = ventana;
    if x >= ancho || y >= alto {
        return None;
    }
    Some((source_pixel(x, ancho, fuente.0), source_pixel(y, alto, fuente.1)))
}

} // verus!
