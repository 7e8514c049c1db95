//! Paleta del pincel: la única fuente de las herramientas y su interfaz.
//!
//! Aquí viven las teclas y los nombres de los pigmentos y de las telas, el
//! estado de la paleta y su disposición en pantalla. El binario convierte sus
//! teclas a las que este módulo nombra, y consulta lo mismo que dibuja la
//! interfaz: con una sola tabla, el botón no puede prometer un color y la
//! tecla dar otro.
//!
//! Los colores de los pigmentos y la escala de las telas son números reales
//! y quedan fuera de esta librería; aquí solo está lo que decide.

use vstd::prelude::*;
use crate::framebuffer::{en_rect, en_marco, Framebuffer};
use crate::input::accion_de_tecla;

verus! {

/// La tecla que pliega y despliega la paleta.
pub const TECLA_DE_LA_PALETA: char = 'p';

/// La tecla que vuelve a la herramienta de revelar.
pub const TECLA_DE_REVELAR: char = 'q';

/// Un pigmento plano de la paleta: cómo se llama y qué tecla lo activa.
#[derive(Debug, Clone, Copy)]
pub struct Pigmento {
    pub nombre: &'static str,
    /// Tecla que lo activa, en minúscula.
    pub tecla: char,
}

/// Una tela de la paleta.
#[derive(Debug, Clone, Copy)]
pub struct Tela {
    pub nombre: &'static str,
    pub tecla: char,
    /// Índice de su textura en la escena.
    pub indice: usize,
}

/// Cuántos pigmentos ofrece la paleta.
pub const NUM_PIGMENTOS: usize = 5;

/// Cuántas telas ofrece la paleta.
pub const NUM_TEXTURAS: usize = 6;

/// Nombres de los cinco pigmentos curados, en el orden de la paleta.
pub const NOMBRES_DE_PIGMENTO: [&'static str; 5] = ["Carmesi", "Oro", "Violeta", "Cian", "Obsidiana"];

/// Teclas de los cinco pigmentos, en el mismo orden.
pub const TECLAS_DE_PIGMENTO: [char; 5] = ['4', '5', '6', '7', '8'];

/// Nombres de las seis telas, en el orden de la paleta.
pub const NOMBRES_DE_TELA: [&'static str; 6] = [
    "Lienzo",
    "Pradera",
    "Basalto",
    "Madera",
    "Cristal",
    "Agua",
];

/// Teclas de las seis telas, en el mismo orden.
pub const TECLAS_DE_TELA: [char; 6] = ['9', '0', 'z', 'x', 'c', 'v'];

/// Índice en la escena de la textura de cada tela, en el mismo orden.
pub const INDICES_DE_TELA: [usize; 6] = [0, 4, 2, 3, 5, 1];

/// El pigmento `i` de la paleta.
pub open spec fn pigmento_en(i: int) -> Pigmento {
    Pigmento { nombre: NOMBRES_DE_PIGMENTO[i], tecla: TECLAS_DE_PIGMENTO[i] }
}

/// La tela `i` de la paleta.
pub open spec fn tela_en(i: int) -> Tela {
    Tela { nombre: NOMBRES_DE_TELA[i], tecla: TECLAS_DE_TELA[i], indice: INDICES_DE_TELA[i] }
}

/// El pigmento `i` de la paleta.
pub fn pigmento(i: usize) -> (p: Pigmento)
    requires
        i < NUM_PIGMENTOS,
    ensures
        p == pigmento_en(i as int),
{
    Pigmento { nombre: NOMBRES_DE_PIGMENTO[i], tecla: TECLAS_DE_PIGMENTO[i] }
}

/// La tela `i` de la paleta.
pub fn tela(i: usize) -> (t: Tela)
    requires
        i < NUM_TEXTURAS,
    ensures
        t == tela_en(i as int),
{
    Tela { nombre: NOMBRES_DE_TELA[i], tecla: TECLAS_DE_TELA[i], indice: INDICES_DE_TELA[i] }
}

/// Qué hace el botón izquierdo.
#[derive(Debug, Clone, Copy, PartialEq, Eq, Structural)]
pub enum Herramienta {
    /// Descubre el material final donde se arrastra.
    Revelar,
    /// Pinta un color plano. El índice es una entrada de la tabla de pigmentos.
    Pigmento(usize),
    /// Estampa una tela. El índice es una entrada de la tabla de telas.
    Textura(usize),
}

impl Herramienta {
    /// El índice apunta a una entrada de su tabla.
    pub open spec fn valida(self) -> bool {
        match self {
            Herramienta::Revelar => true,
            Herramienta::Pigmento(i) => i < NUM_PIGMENTOS,
            Herramienta::Textura(i) => i < NUM_TEXTURAS,
        }
    }

    /// La tecla de la herramienta, leída de la tabla.
    pub open spec fn tecla_de(self) -> char
        recommends
            self.valida(),
    {
        match self {
            Herramienta::Revelar => TECLA_DE_REVELAR,
            Herramienta::Pigmento(i) => TECLAS_DE_PIGMENTO[i as int],
            Herramienta::Textura(i) => TECLAS_DE_TELA[i as int],
        }
    }

    /// Nombre para la consola y para la interfaz.
    pub fn nombre(self) -> (r: &'static str)
        requires
            self.valida(),
        ensures
            r@ == match self {
                Herramienta::Revelar => "revelar"@,
                Herramienta::Pigmento(i) => NOMBRES_DE_PIGMENTO[i as int]@,
                Herramienta::Textura(i) => NOMBRES_DE_TELA[i as int]@,
            },
    {
        match self {
            Herramienta::Revelar => "revelar",
            Herramienta::Pigmento(i) => NOMBRES_DE_PIGMENTO[i],
            Herramienta::Textura(i) => NOMBRES_DE_TELA[i],
        }
    }

    /// La tecla que la activa.
    pub fn tecla(self) -> (r: char)
        requires
            self.valida(),
        ensures
            r == self.tecla_de(),
    {
        match self {
            Herramienta::Revelar => TECLA_DE_REVELAR,
            Herramienta::Pigmento(i) => TECLAS_DE_PIGMENTO[i],
            Herramienta::Textura(i) => TECLAS_DE_TELA[i],
        }
    }
}

/// `c` en minúscula si es una letra ASCII mayúscula; si no, `c` tal cual.
pub open spec fn minuscula(c: char) -> char {
    if 'A' <= c <= 'Z' {
        ((c as u32) + 32) as char
    } else {
        c
    }
}

/// `c` en mayúscula si es una letra ASCII minúscula; si no, `c` tal cual.
pub open spec fn mayuscula(c: char) -> char {
    if 'a' <= c <= 'z' {
        ((c as u32) - 32) as char
    } else {
        c
    }
}

fn a_minuscula(c: char) -> (r: char)
    ensures
        r == minuscula(c),
{
    if 'A' <= c && c <= 'Z' {
        ((c as u8) + 32) as char
    } else {
        c
    }
}

fn a_mayuscula(c: char) -> (r: char)
    ensures
        r == mayuscula(c),
{
    if 'a' <= c && c <= 'z' {
        ((c as u8) - 32) as char
    } else {
        c
    }
}

/// Qué herramienta activa la tecla `t`, según las dos tablas: la de
/// revelar primero, después el primer pigmento y después la primera tela
/// con esa tecla.
pub open spec fn herramienta_para(t: char, r: Option<Herramienta>) -> bool {
    let m = minuscula(t);
    if m == TECLA_DE_REVELAR {
        r == Some(Herramienta::Revelar)
    } else {
        match r {
            Some(Herramienta::Revelar) => false,
            Some(Herramienta::Pigmento(i)) => {
                &&& i < NUM_PIGMENTOS
                &&& TECLAS_DE_PIGMENTO[i as int] == m
                &&& forall|j: int| 0 <= j < i ==> TECLAS_DE_PIGMENTO[j] != m
            },
            Some(Herramienta::Textura(i)) => {
                &&& i < NUM_TEXTURAS
                &&& TECLAS_DE_TELA[i as int] == m
                &&& forall|j: int| 0 <= j < NUM_PIGMENTOS ==> TECLAS_DE_PIGMENTO[j] != m
                &&& forall|j: int| 0 <= j < i ==> TECLAS_DE_TELA[j] != m
            },
            None => {
                &&& forall|j: int| 0 <= j < NUM_PIGMENTOS ==> TECLAS_DE_PIGMENTO[j] != m
                &&& forall|j: int| 0 <= j < NUM_TEXTURAS ==> TECLAS_DE_TELA[j] != m
            },
        }
    }
}

/// Herramienta que activa una tecla, o `None` si esa tecla no es de la
/// paleta. No distingue mayúsculas.
///
/// Es la única correspondencia de tecla a herramienta, y la misma tabla que
/// alimenta la interfaz.
pub fn herramienta_de_tecla(tecla: char) -> (r: Option<Herramienta>)
    ensures
        herramienta_para(tecla, r),
{
    let m = a_minuscula(tecla);

    if m == TECLA_DE_REVELAR {
        return Some(Herramienta::Revelar);
    }
    let mut i: usize = 0;
    while i < NUM_PIGMENTOS
        invariant
            0 <= i <= NUM_PIGMENTOS,
            m == minuscula(tecla),
            m != TECLA_DE_REVELAR,
            forall|j: int| 0 <= j < i ==> TECLAS_DE_PIGMENTO[j] != m,
        decreases NUM_PIGMENTOS - i,
    {
        if TECLAS_DE_PIGMENTO[i] == m {
            return Some(Herramienta::Pigmento(i));
        }
        i = i + 1;
    }
    let mut k: usize = 0;
    while k < NUM_TEXTURAS
        invariant
            0 <= k <= NUM_TEXTURAS,
            m == minuscula(tecla),
            m != TECLA_DE_REVELAR,
            forall|j: int| 0 <= j < NUM_PIGMENTOS ==> TECLAS_DE_PIGMENTO[j] != m,
            forall|j: int| 0 <= j < k ==> TECLAS_DE_TELA[j] != m,
        decreases NUM_TEXTURAS - k,
    {
        if TECLAS_DE_TELA[k] == m {
            return Some(Herramienta::Textura(k));
        }
        k = k + 1;
    }
    None
}

/// Una tecla activa como mucho una herramienta: la relación entre tecla y
/// herramienta es una función.
proof fn lema_herramienta_para_es_funcion(t: char, a: Option<Herramienta>, b: Option<Herramienta>)
    requires
        herramienta_para(t, a),
        herramienta_para(t, b),
    ensures
        a == b,
{
    let m = minuscula(t);
    if m != TECLA_DE_REVELAR {
        match (a, b) {
            (Some(Herramienta::Pigmento(i)), Some(Herramienta::Pigmento(j))) => {
                if i < j {
                    assert(TECLAS_DE_PIGMENTO[i as int] == m);
                } else if j < i {
                    assert(TECLAS_DE_PIGMENTO[j as int] == m);
                }
            },
            (Some(Herramienta::Textura(i)), Some(Herramienta::Textura(j))) => {
                if i < j {
                    assert(TECLAS_DE_TELA[i as int] == m);
                } else if j < i {
                    assert(TECLAS_DE_TELA[j as int] == m);
                }
            },
            (Some(Herramienta::Pigmento(i)), _) => {
                assert(TECLAS_DE_PIGMENTO[i as int] == m);
            },
            (_, Some(Herramienta::Pigmento(j))) => {
                assert(TECLAS_DE_PIGMENTO[j as int] == m);
            },
            (Some(Herramienta::Textura(i)), _) => {
                assert(TECLAS_DE_TELA[i as int] == m);
            },
            (_, Some(Herramienta::Textura(j))) => {
                assert(TECLAS_DE_TELA[j as int] == m);
            },
            _ => {},
        }
    }
}

/// La herramienta que queda elegida: una tela cuyo asset no está cargado
/// no se activa.
pub open spec fn con_tela_cargada(h: Option<Herramienta>, telas_disponibles: Seq<bool>) -> Option<Herramienta> {
    match h {
        Some(Herramienta::Textura(i)) => if telas_disponibles[i as int] {
            h
        } else {
            None
        },
        _ => h,
    }
}

/// La herramienta que elige una tecla, si se puede elegir. Igual que un
/// clic en su celda: sin tela cargada no hay herramienta de textura. Se
/// comprueba al elegir y no al pintar.
pub fn herramienta_elegible_de_tecla(tecla: char, telas_disponibles: &[bool]) -> (r: Option<Herramienta>)
    requires
        telas_disponibles@.len() >= NUM_TEXTURAS,
    ensures
        exists|q: Option<Herramienta>| herramienta_para(tecla, q),
        forall|q: Option<Herramienta>|
            herramienta_para(tecla, q) ==> r == con_tela_cargada(q, telas_disponibles@),
        forall|i: usize|
            herramienta_para(tecla, Some(Herramienta::Textura(i))) ==> (r == Some(Herramienta::Textura(i))
                <==> telas_disponibles@[i as int]) && (r is None <==> !telas_disponibles@[i as int]),
        forall|h: Herramienta|
            herramienta_para(tecla, Some(h)) && !(h is Textura) ==> r == Some(h),
        herramienta_para(tecla, None) ==> r is None,
{
    let elegida = herramienta_de_tecla(tecla);
    proof {
        assert forall|q: Option<Herramienta>| herramienta_para(tecla, q) implies q == elegida by {
            lema_herramienta_para_es_funcion(tecla, q, elegida);
        }
    }
    match elegida {
        Some(Herramienta::Textura(i)) => if telas_disponibles[i] {
            elegida
        } else {
            None
        },
        _ => elegida,
    }
}

/// Las celdas del panel ofrecen, en orden, revelar, los pigmentos y las
/// telas. Revelar y los pigmentos se pueden elegir siempre; la tela `i` solo
/// si su asset está cargado, es decir, si `telas_disponibles` tiene la
/// posición `i` y vale cierto. Una lista corta deja sin activar las telas
/// que no nombra.
pub proof fn ley_cada_celda_ofrece_su_herramienta(panel: Rect, telas_disponibles: Seq<bool>)
    ensures
        celda_en(panel, 0, telas_disponibles).herramienta == Herramienta::Revelar,
        celda_en(panel, 0, telas_disponibles).activable,
        forall|i: int|
            0 <= i < NUM_PIGMENTOS ==> {
                let c = #[trigger] celda_en(panel, 1 + i, telas_disponibles);
                c.herramienta == Herramienta::Pigmento(i as usize) && c.activable
            },
        forall|i: int|
            0 <= i < NUM_TEXTURAS ==> {
                let c = #[trigger] celda_en(panel, 1 + NUM_PIGMENTOS + i, telas_disponibles);
                &&& c.herramienta == Herramienta::Textura(i as usize)
                &&& (c.activable <==> (i < telas_disponibles.len() && telas_disponibles[i]))
            },
{
}

/// Una tecla de tela elige su tela si y solo si su asset está cargado, con
/// la disponibilidad leída en la posición de la tela —la misma que usa su
/// celda—; si no, no elige nada. Las demás teclas eligen lo que nombran.
pub proof fn ley_la_tecla_de_una_tela_sin_cargar_no_elige(
    i: int,
    telas_disponibles: Seq<bool>,
    panel: Rect,
)
    requires
        0 <= i < NUM_TEXTURAS,
        telas_disponibles.len() >= NUM_TEXTURAS,
    ensures
        con_tela_cargada(Some(Herramienta::Textura(i as usize)), telas_disponibles) == if telas_disponibles[i] {
            Some(Herramienta::Textura(i as usize))
        } else {
            None
        },
        con_tela_cargada(Some(Herramienta::Textura(i as usize)), telas_disponibles) is Some
            <==> celda_en(panel, 1 + NUM_PIGMENTOS + i, telas_disponibles).activable,
        con_tela_cargada(Some(Herramienta::Revelar), telas_disponibles) == Some(Herramienta::Revelar),
        forall|j: usize| #[trigger] con_tela_cargada(Some(Herramienta::Pigmento(j)), telas_disponibles)
            == Some(Herramienta::Pigmento(j)),
        con_tela_cargada(None, telas_disponibles) is None,
{
}

/// Las teclas de las dos tablas, en el orden en que se consultan.
proof fn lema_teclas_de_las_tablas()
    ensures
        TECLAS_DE_PIGMENTO@ == seq!['4', '5', '6', '7', '8'],
        TECLAS_DE_TELA@ == seq!['9', '0', 'z', 'x', 'c', 'v'],
{
    assert(TECLAS_DE_PIGMENTO@ =~= seq!['4', '5', '6', '7', '8']);
    assert(TECLAS_DE_TELA@ =~= seq!['9', '0', 'z', 'x', 'c', 'v']);
}

/// Cada herramienta vuelve de su propia tecla, en minúscula o en
/// mayúscula: la tecla que anuncia la interfaz es la que la activa, porque
/// las dos leen la misma tabla y ninguna tecla se repite en ella.
pub proof fn ley_cada_herramienta_vuelve_de_su_tecla(h: Herramienta)
    requires
        h.valida(),
    ensures
        herramienta_para(h.tecla_de(), Some(h)),
        forall|r: Option<Herramienta>| herramienta_para(h.tecla_de(), r) ==> r == Some(h),
        forall|r: Option<Herramienta>| herramienta_para(mayuscula(h.tecla_de()), r) ==> r == Some(h),
{
    lema_teclas_de_las_tablas();
    let t = h.tecla_de();
    assert(minuscula(t) == t);
    if 'a' <= t <= 'z' {
        assert(mayuscula(t) as u32 == t as u32 - 32);
        assert(minuscula(mayuscula(t)) as u32 == mayuscula(t) as u32 + 32);
    }
    assert(minuscula(mayuscula(t)) == t);
}

/// Ninguna tecla con dueño elige herramienta: las de la demo (los tres
/// dígitos, `L` y `R`), las de zoom (`W`, `S`), las de grosor (`M`, `N`) y
/// la de la paleta, en minúscula o en mayúscula.
pub proof fn ley_las_teclas_con_dueno_no_eligen_herramienta(t: char)
    requires
        accion_de_tecla(t) is Some || minuscula(t) == 'w' || minuscula(t) == 's' || minuscula(t)
            == 'm' || minuscula(t) == 'n' || minuscula(t) == TECLA_DE_LA_PALETA,
    ensures
        herramienta_para(t, None),
        forall|r: Option<Herramienta>| herramienta_para(t, r) ==> r is None,
{
    lema_teclas_de_las_tablas();
    if 'A' <= t <= 'Z' {
        assert(minuscula(t) as u32 == t as u32 + 32);
    }
}

/// Un rectángulo en píxeles de ventana.
#[derive(Debug, Clone, Copy, PartialEq, Eq, Structural)]
pub struct Rect {
    pub x: usize,
    pub y: usize,
    pub ancho: usize,
    pub alto: usize,
}

impl Rect {
    /// El píxel `(x, y)` cae dentro del rectángulo.
    pub open spec fn contiene_punto(self, x: int, y: int) -> bool {
        self.x <= x < self.x + self.ancho && self.y <= y < self.y + self.alto
    }

    /// ¿El píxel `(x, y)` cae dentro?
    pub fn contiene_pixel(&self, x: usize, y: usize) -> (r: bool)
        ensures
            r == self.contiene_punto(x as int, y as int),
    {
        x >= self.x && y >= self.y && x - self.x < self.ancho && y - self.y < self.alto
    }
}

/// Una celda del panel.
#[derive(Debug, Clone, Copy)]
pub struct Celda {
    pub rect: Rect,
    pub herramienta: Herramienta,
    /// `false` si su asset no está cargado: sin tela no hay herramienta.
    pub activable: bool,
}

/// Qué hay bajo el cursor.
#[derive(Debug, Clone, Copy, PartialEq, Eq, Structural)]
pub enum Impacto {
    /// La cápsula que pliega y despliega.
    Capsula,
    /// Una celda del panel, por índice en `Disposicion::celdas`.
    /// `usize::MAX` es el cuerpo del panel fuera de toda celda.
    Celda(usize),
    /// Ni una cosa ni la otra: el clic es para el diorama.
    Fuera,
}

/// Dónde cae cada pieza de la interfaz.
#[derive(Debug, Clone)]
pub struct Disposicion {
    /// Siempre presente: es lo que anuncia que la paleta existe.
    pub capsula: Rect,
    /// Solo cuando está abierta.
    pub panel: Option<Rect>,
    /// Vacío cuando está plegada.
    pub celdas: Vec<Celda>,
}

/// Márgenes y tamaños del panel, en píxeles.
pub const MARGEN: usize = 12;
pub const ANCHO_CAPSULA: usize = 128;
pub const ALTO_CAPSULA: usize = 26;
pub const CELDA: usize = 34;
pub const HUECO: usize = 6;
pub const COLUMNAS: usize = 6;
pub const CABECERA: usize = 18;

/// Cuántas herramientas ofrece el panel: revelar, los pigmentos y las telas.
pub const TOTAL_DE_CELDAS: usize = 12;

/// Filas de la retícula.
pub const FILAS: usize = 2;

/// Ancho del panel abierto.
pub const ANCHO_PANEL: usize = 258;

/// Alto del panel abierto.
pub const ALTO_PANEL: usize = 116;

/// `a - b`, o cero si `b` es mayor.
pub open spec fn resta_saturada(a: int, b: int) -> int {
    if a >= b {
        a - b
    } else {
        0
    }
}

/// El menor de dos enteros.
pub open spec fn minimo(a: int, b: int) -> int {
    if a <= b {
        a
    } else {
        b
    }
}

fn menor(a: usize, b: usize) -> (r: usize)
    ensures
        r == minimo(a as int, b as int),
{
    if a <= b {
        a
    } else {
        b
    }
}

/// La cápsula: abajo a la derecha, recortada contra la ventana.
pub open spec fn capsula_para(ancho: int, alto: int) -> Rect {
    Rect {
        x: resta_saturada(ancho, ANCHO_CAPSULA + MARGEN) as usize,
        y: resta_saturada(alto, ALTO_CAPSULA + MARGEN) as usize,
        ancho: minimo(ANCHO_CAPSULA as int, ancho) as usize,
        alto: minimo(ALTO_CAPSULA as int, alto) as usize,
    }
}

/// El panel: sobre la cápsula, recortado contra la ventana.
pub open spec fn panel_para(ancho: int, alto: int) -> Rect {
    Rect {
        x: resta_saturada(ancho, ANCHO_PANEL + MARGEN) as usize,
        y: resta_saturada(alto, ALTO_PANEL + ALTO_CAPSULA + MARGEN * 2) as usize,
        ancho: minimo(ANCHO_PANEL as int, ancho) as usize,
        alto: minimo(ALTO_PANEL as int, alto) as usize,
    }
}

/// La herramienta de la celda `k` del panel: revelar, los pigmentos y
/// las telas, en ese orden.
pub open spec fn herramienta_de_celda(k: int) -> Herramienta {
    if k == 0 {
        Herramienta::Revelar
    } else if k <= NUM_PIGMENTOS {
        Herramienta::Pigmento((k - 1) as usize)
    } else {
        Herramienta::Textura((k - 1 - NUM_PIGMENTOS) as usize)
    }
}

/// La celda `k` del panel, dada la posición del panel.
pub open spec fn celda_en(panel: Rect, k: int, telas_disponibles: Seq<bool>) -> Celda {
    Celda {
        rect: Rect {
            x: (panel.x + MARGEN + (k % COLUMNAS as int) * (CELDA + HUECO)) as usize,
            y: (panel.y + MARGEN + CABECERA + (k / COLUMNAS as int) * (CELDA + HUECO)) as usize,
            ancho: CELDA,
            alto: CELDA,
        },
        herramienta: herramienta_de_celda(k),
        activable: k <= NUM_PIGMENTOS || (k - 1 - NUM_PIGMENTOS < telas_disponibles.len()
            && telas_disponibles[k - 1 - NUM_PIGMENTOS]),
    }
}

impl Disposicion {
    /// Calcula la disposición para una ventana y un estado de plegado.
    ///
    /// `telas_disponibles` dice, por índice de tela, si su asset está
    /// cargado. Una tela ausente sigue ocupando su celda —para que la
    /// retícula no baile— pero no se puede elegir.
    ///
    /// Todo se ancla abajo a la derecha y se recorta contra la ventana.
    pub fn calcular(abierta: bool, ancho: usize, alto: usize, telas_disponibles: &[bool]) -> (d:
        Disposicion)
        ensures
            d.capsula == capsula_para(ancho as int, alto as int),
            !abierta ==> d.panel is None && d.celdas@.len() == 0,
            abierta ==> d.panel == Some(panel_para(ancho as int, alto as int)),
            abierta ==> d.celdas@.len() == TOTAL_DE_CELDAS,
            abierta ==> forall|k: int|
                0 <= k < TOTAL_DE_CELDAS ==> #[trigger] d.celdas@[k] == celda_en(
                    panel_para(ancho as int, alto as int),
                    k,
                    telas_disponibles@,
                ),
    {
        let capsula = Rect {
            x: ancho.saturating_sub(ANCHO_CAPSULA + MARGEN),
            y: alto.saturating_sub(ALTO_CAPSULA + MARGEN),
            ancho: menor(ANCHO_CAPSULA, ancho),
            alto: menor(ALTO_CAPSULA, alto),
        };

        if !abierta {
            return Disposicion { capsula, panel: None, celdas: Vec::new() };
        }

        // El panel se apoya sobre la cápsula, que se queda abajo del todo.
        let panel = Rect {
            x: ancho.saturating_sub(ANCHO_PANEL + MARGEN),
            y: alto.saturating_sub(ALTO_PANEL + ALTO_CAPSULA + MARGEN * 2),
            ancho: menor(ANCHO_PANEL, ancho),
            alto: menor(ALTO_PANEL, alto),
        };
        let ghost panel_spec = panel_para(ancho as int, alto as int);
        assert(panel == panel_spec);

        let mut celdas: Vec<Celda> = Vec::with_capacity(TOTAL_DE_CELDAS);
        let mut k: usize = 0;
        while k < TOTAL_DE_CELDAS
            invariant
                0 <= k <= TOTAL_DE_CELDAS,
                panel == panel_spec,
                panel.x <= resta_saturada(ancho as int, ANCHO_PANEL + MARGEN),
                panel.y <= resta_saturada(alto as int, ALTO_PANEL + ALTO_CAPSULA + MARGEN * 2),
                celdas@.len() == k,
                forall|j: int|
                    0 <= j < k ==> #[trigger] celdas@[j] == celda_en(
                        panel_spec,
                        j,
                        telas_disponibles@,
                    ),
            decreases TOTAL_DE_CELDAS - k,
        {
            let fila = k / COLUMNAS;
            let columna = k % COLUMNAS;
            let herramienta = if k == 0 {
                Herramienta::Revelar
            } else if k <= NUM_PIGMENTOS {
                Herramienta::Pigmento(k - 1)
            } else {
                Herramienta::Textura(k - 1 - NUM_PIGMENTOS)
            };
            let activable = if k <= NUM_PIGMENTOS {
                true
            } else if k - 1 - NUM_PIGMENTOS < telas_disponibles.len() {
                telas_disponibles[k - 1 - NUM_PIGMENTOS]
            } else {
                false
            };
            let celda = Celda {
                rect: Rect {
                    x: panel.x + MARGEN + columna * (CELDA + HUECO),
                    y: panel.y + MARGEN + CABECERA + fila * (CELDA + HUECO),
                    ancho: CELDA,
                    alto: CELDA,
                },
                herramienta,
                activable,
            };
            celdas.push(celda);
            k = k + 1;
        }

        Disposicion { capsula, panel: Some(panel), celdas }
    }

    /// `r` es lo que hay en el píxel `(x, y)`: las celdas ganan a la
    /// cápsula, la cápsula al cuerpo del panel y el panel al fondo.
    pub open spec fn impacto_correcto(self, x: int, y: int, r: Impacto) -> bool {
        let en_celda = exists|j: int|
            0 <= j < self.celdas@.len() && #[trigger] self.celdas@[j].rect.contiene_punto(x, y);
        match r {
            Impacto::Celda(i) => if i < self.celdas@.len() {
                &&& self.celdas@[i as int].rect.contiene_punto(x, y)
                &&& forall|j: int|
                    0 <= j < i ==> !#[trigger] self.celdas@[j].rect.contiene_punto(x, y)
            } else {
                &&& i == usize::MAX
                &&& !en_celda
                &&& !self.capsula.contiene_punto(x, y)
                &&& self.panel matches Some(p) && p.contiene_punto(x, y)
            },
            Impacto::Capsula => !en_celda && self.capsula.contiene_punto(x, y),
            Impacto::Fuera => {
                &&& !en_celda
                &&& !self.capsula.contiene_punto(x, y)
                &&& !(self.panel matches Some(p) && p.contiene_punto(x, y))
            },
        }
    }

    /// Qué hay en el píxel de ventana `(x, y)`.
    ///
    /// Las celdas ganan a la cápsula y la cápsula al fondo. El cuerpo del
    /// panel también consume: un clic en el hueco entre dos celdas no puede
    /// colarse y pintar el diorama que hay detrás.
    pub fn impacto_en(&self, x: usize, y: usize) -> (r: Impacto)
        ensures
            self.impacto_correcto(x as int, y as int, r),
    {
        let n = self.celdas.len();
        let mut i: usize = 0;
        while i < n
            invariant
                0 <= i <= n,
                n == self.celdas@.len(),
                forall|j: int| 0 <= j < i ==> !#[trigger] self.celdas@[j].rect.contiene_punto(x as int, y as int),
            decreases n - i,
        {
            if self.celdas[i].rect.contiene_pixel(x, y) {
                return Impacto::Celda(i);
            }
            i = i + 1;
        }

        if self.capsula.contiene_pixel(x, y) {
            return Impacto::Capsula;
        }

        if let Some(panel) = self.panel {
            if panel.contiene_pixel(x, y) {
                return Impacto::Celda(usize::MAX);
            }
        }

        Impacto::Fuera
    }
}

/// Las celdas del panel no se solapan, sea cual sea la ventana: entre dos
/// columnas o dos filas siempre queda un hueco.
pub proof fn ley_las_celdas_no_se_solapan(
    ancho: int,
    alto: int,
    k: int,
    j: int,
    telas_disponibles: Seq<bool>,
    x: int,
    y: int,
)
    requires
        0 <= ancho <= usize::MAX,
        0 <= alto <= usize::MAX,
        0 <= k < j < TOTAL_DE_CELDAS,
    ensures
        !(celda_en(panel_para(ancho, alto), k, telas_disponibles).rect.contiene_punto(x, y)
            && celda_en(panel_para(ancho, alto), j, telas_disponibles).rect.contiene_punto(x, y)),
{
    let panel = panel_para(ancho, alto);
    let a = celda_en(panel, k, telas_disponibles).rect;
    let b = celda_en(panel, j, telas_disponibles).rect;
    assert(a.x == panel.x + MARGEN + (k % 6) * 40);
    assert(b.x == panel.x + MARGEN + (j % 6) * 40);
    assert(a.y == panel.y + MARGEN + CABECERA + (k / 6) * 40);
    assert(b.y == panel.y + MARGEN + CABECERA + (j / 6) * 40);
    if k / 6 == j / 6 {
        assert(k % 6 != j % 6);
    }
}

/// La interfaz cabe en la ventana: la cápsula y el panel nunca se salen,
/// sea cual sea su tamaño. Si la ventana da para el panel entero, la
/// cápsula queda pegada abajo a la derecha a un margen del borde, el panel
/// encima sin tocarla, y cada celda dentro del panel.
pub proof fn ley_la_interfaz_cabe_en_la_ventana(
    ancho: int,
    alto: int,
    k: int,
    telas_disponibles: Seq<bool>,
)
    requires
        0 <= ancho <= usize::MAX,
        0 <= alto <= usize::MAX,
    ensures
        ({
            let c = capsula_para(ancho, alto);
            c.x + c.ancho <= ancho && c.y + c.alto <= alto
        }),
        ({
            let p = panel_para(ancho, alto);
            p.x + p.ancho <= ancho && p.y + p.alto <= alto
        }),
        ancho >= ANCHO_PANEL + MARGEN && alto >= ALTO_PANEL + ALTO_CAPSULA + 2 * MARGEN ==> {
            let c = capsula_para(ancho, alto);
            let p = panel_para(ancho, alto);
            &&& c.ancho == ANCHO_CAPSULA && c.alto == ALTO_CAPSULA
            &&& c.x + c.ancho + MARGEN == ancho && c.y + c.alto + MARGEN == alto
            &&& p.ancho == ANCHO_PANEL && p.alto == ALTO_PANEL
            &&& p.y + p.alto < c.y
            &&& (0 <= k < TOTAL_DE_CELDAS ==> {
                let r = celda_en(p, k, telas_disponibles).rect;
                &&& p.x <= r.x && r.x + r.ancho <= p.x + p.ancho
                &&& p.y <= r.y && r.y + r.alto <= p.y + p.alto
            })
        },
{
    if ancho >= ANCHO_PANEL + MARGEN && alto >= ALTO_PANEL + ALTO_CAPSULA + 2 * MARGEN && 0 <= k
        < TOTAL_DE_CELDAS {
        let p = panel_para(ancho, alto);
        let r = celda_en(p, k, telas_disponibles).rect;
        assert(0 <= k % 6 <= 5);
        assert(0 <= k / 6 <= 1);
        assert(r.x == p.x + MARGEN + (k % 6) * 40);
        assert(r.y == p.y + MARGEN + CABECERA + (k / 6) * 40);
    }
}

/// Con el panel abierto en una ventana que da para él, cualquier píxel de
/// una celda es esa celda y nada más: ni otra celda, ni la cápsula, ni el
/// cuerpo del panel.
pub proof fn ley_cada_celda_se_elige_a_si_misma(
    d: Disposicion,
    ancho: int,
    alto: int,
    telas_disponibles: Seq<bool>,
    k: int,
    x: int,
    y: int,
)
    requires
        ancho >= ANCHO_PANEL + MARGEN,
        alto >= ALTO_PANEL + ALTO_CAPSULA + 2 * MARGEN,
        ancho <= usize::MAX,
        alto <= usize::MAX,
        d.capsula == capsula_para(ancho, alto),
        d.panel == Some(panel_para(ancho, alto)),
        d.celdas@.len() == TOTAL_DE_CELDAS,
        forall|j: int|
            0 <= j < TOTAL_DE_CELDAS ==> #[trigger] d.celdas@[j] == celda_en(
                panel_para(ancho, alto),
                j,
                telas_disponibles,
            ),
        0 <= k < TOTAL_DE_CELDAS,
        d.celdas@[k].rect.contiene_punto(x, y),
    ensures
        d.impacto_correcto(x, y, Impacto::Celda(k as usize)),
        forall|r: Impacto| d.impacto_correcto(x, y, r) ==> r == Impacto::Celda(k as usize),
{
    let p = panel_para(ancho, alto);
    assert forall|j: int| 0 <= j < TOTAL_DE_CELDAS && j != k implies !(
    #[trigger] d.celdas@[j]).rect.contiene_punto(x, y) by {
        if j < k {
            ley_las_celdas_no_se_solapan(ancho, alto, j, k, telas_disponibles, x, y);
        } else {
            ley_las_celdas_no_se_solapan(ancho, alto, k, j, telas_disponibles, x, y);
        }
    }
    ley_la_interfaz_cabe_en_la_ventana(ancho, alto, k, telas_disponibles);
    assert forall|r: Impacto| d.impacto_correcto(x, y, r) implies r == Impacto::Celda(k as usize) by {
        assert(d.celdas@[k].rect.contiene_punto(x, y));
        if let Impacto::Celda(i) = r {
            if (i as int) < d.celdas@.len() && i as int != k {
                assert(!d.celdas@[i as int].rect.contiene_punto(x, y));
            }
        }
    }
}

/// El estado de la paleta: qué herramienta está activa y si el panel se ve.
#[derive(Debug, Clone, Copy, PartialEq, Eq, Structural)]
pub struct Paleta {
    abierta: bool,
    herramienta: Herramienta,
}

impl Paleta {
    /// ¿Se ve el panel?
    pub closed spec fn esta_abierta(self) -> bool {
        self.abierta
    }

    /// La herramienta activa.
    pub closed spec fn activa(self) -> Herramienta {
        self.herramienta
    }

    pub fn abierta(&self) -> (r: bool)
        ensures
            r == self.esta_abierta(),
    {
        self.abierta
    }

    pub fn herramienta(&self) -> (r: Herramienta)
        ensures
            r == self.activa(),
    {
        self.herramienta
    }

    /// Pliega o despliega el panel.
    pub fn alternar(&mut self)
        ensures
            final(self).esta_abierta() == !old(self).esta_abierta(),
            final(self).activa() == old(self).activa(),
    {
        self.abierta = !self.abierta;
    }

    /// Activa una herramienta. Devuelve si cambió.
    ///
    /// El panel no se pliega: se sigue pintando con él abierto. El valor
    /// de retorno es lo que el binario usa para cortar el trazo.
    pub fn elegir(&mut self, herramienta: Herramienta) -> (cambio: bool)
        ensures
            cambio == (old(self).activa() != herramienta),
            final(self).activa() == herramienta,
            final(self).esta_abierta() == old(self).esta_abierta(),
    {
        if self.herramienta == herramienta {
            return false;
        }

        self.herramienta = herramienta;

        true
    }
}

impl Default for Paleta {
    /// Plegada y con la herramienta de revelar.
    fn default() -> (p: Self)
        ensures
            !p.esta_abierta(),
            p.activa() == Herramienta::Revelar,
    {
        Paleta { abierta: false, herramienta: Herramienta::Revelar }
    }
}

// ------------------------------------------------------ microtipografía

/// Ancho y alto de un glifo, en puntos de la rejilla.
pub const ANCHO_GLIFO: usize = 5;
pub const ALTO_GLIFO: usize = 7;

/// A cuánto se amplía cada punto del glifo dentro de la cápsula.
pub const ESCALA_DE_LA_ETIQUETA: usize = 2;

/// Separación entre letras, en puntos de la rejilla.
pub const AVANCE: usize = 6;

/// El trazo de cada letra que las etiquetas necesitan: siete filas de cinco
/// bits, el más significativo a la izquierda. Cualquier otra letra no tiene
/// glifo. No distingue mayúsculas.
pub open spec fn trazo_de(letra: char) -> Option<[u8; 7]> {
    let l = mayuscula(letra);
    if l == ' ' {
        Some([0, 0, 0, 0, 0, 0, 0])
    } else if l == 'P' {
        Some([0b11110, 0b10001, 0b10001, 0b11110, 0b10000, 0b10000, 0b10000])
    } else if l == 'A' {
        Some([0b01110, 0b10001, 0b10001, 0b11111, 0b10001, 0b10001, 0b10001])
    } else if l == 'B' {
        Some([0b11110, 0b10001, 0b10001, 0b11110, 0b10001, 0b10001, 0b11110])
    } else if l == 'R' {
        Some([0b11110, 0b10001, 0b10001, 0b11110, 0b10100, 0b10010, 0b10001])
    } else if l == 'I' {
        Some([0b11111, 0b00100, 0b00100, 0b00100, 0b00100, 0b00100, 0b11111])
    } else if l == 'C' {
        Some([0b01110, 0b10001, 0b10000, 0b10000, 0b10000, 0b10001, 0b01110])
    } else if l == 'E' {
        Some([0b11111, 0b10000, 0b10000, 0b11110, 0b10000, 0b10000, 0b11111])
    } else {
        None
    }
}

/// El trazo de una letra, o `None` si no hay glifo para ella.
///
/// Solo existen las letras que las dos etiquetas necesitan; cualquier otra
/// devuelve `None` y no se dibuja.
pub fn glifo(letra: char) -> (r: Option<[u8; 7]>)
    ensures
        r == trazo_de(letra),
{
    let l = a_mayuscula(letra);
    if l == ' ' {
        Some([0, 0, 0, 0, 0, 0, 0])
    } else if l == 'P' {
        Some([0b11110, 0b10001, 0b10001, 0b11110, 0b10000, 0b10000, 0b10000])
    } else if l == 'A' {
        Some([0b01110, 0b10001, 0b10001, 0b11111, 0b10001, 0b10001, 0b10001])
    } else if l == 'B' {
        Some([0b11110, 0b10001, 0b10001, 0b11110, 0b10001, 0b10001, 0b11110])
    } else if l == 'R' {
        Some([0b11110, 0b10001, 0b10001, 0b11110, 0b10100, 0b10010, 0b10001])
    } else if l == 'I' {
        Some([0b11111, 0b00100, 0b00100, 0b00100, 0b00100, 0b00100, 0b11111])
    } else if l == 'C' {
        Some([0b01110, 0b10001, 0b10000, 0b10000, 0b10000, 0b10001, 0b01110])
    } else if l == 'E' {
        Some([0b11111, 0b10000, 0b10000, 0b11110, 0b10000, 0b10000, 0b11111])
    } else {
        None
    }
}

/// Lo que dice la cápsula según el estado del panel: nombra la acción que
/// hará al pulsarla, no el estado.
pub fn etiqueta_de_la_capsula(abierta: bool) -> (r: &'static str)
    ensures
        r@ == if abierta {
            "P CERRAR"@
        } else {
            "P ABRIR"@
        },
{
    if abierta {
        "P CERRAR"
    } else {
        "P ABRIR"
    }
}

/// Ancho en píxeles de `letras` letras a una escala dada: la última letra
/// no arrastra su separación.
pub open spec fn ancho_de_letras(letras: int, escala: int) -> int {
    if letras == 0 {
        0
    } else {
        (letras * AVANCE - 1) * escala
    }
}

proof fn lema_ancho_acotado(letras: int, escala: int)
    requires
        letras > 0,
        escala >= 0,
    ensures
        0 <= (letras * AVANCE - 1) * escala <= letras * (AVANCE * escala),
{
    assert(0 <= (letras * 6 - 1) * escala <= letras * (6 * escala)) by (nonlinear_arith)
        requires
            letras > 0,
            escala >= 0,
    ;
}

/// Ancho en píxeles que ocupa un texto a una escala dada.
pub fn ancho_de_texto(texto: &str, escala: usize) -> (r: usize)
    requires
        texto@.len() * AVANCE <= usize::MAX,
        ancho_de_letras(texto@.len() as int, escala as int) <= usize::MAX,
    ensures
        r == ancho_de_letras(texto@.len() as int, escala as int),
{
    let mut letras: usize = 0;
    for letra in it: texto.chars()
        invariant
            letras == it.index(),
            it.seq() == texto@,
            texto@.len() * AVANCE <= usize::MAX,
    {
        letras = letras + 1;
    }

    if letras == 0 {
        return 0;
    }
    assert(0 <= (letras * AVANCE - 1) * escala) by (nonlinear_arith)
        requires
            letras > 0,
    ;
    (letras * AVANCE - 1) * escala
}

/// El punto `(fila, columna)` del trazo está encendido.
pub open spec fn punto_encendido(trazo: [u8; 7], fila: int, columna: int) -> bool {
    &&& 0 <= fila < ALTO_GLIFO
    &&& 0 <= columna < ANCHO_GLIFO
    &&& trazo[fila] & (1u8 << ((ANCHO_GLIFO - 1 - columna) as u8)) != 0
}

/// El glifo dibujado con su esquina en `(ox, oy)` cubre el píxel `(px, py)`:
/// cada punto encendido es un bloque de `escala × escala`.
pub open spec fn glifo_cubre(trazo: [u8; 7], ox: int, oy: int, escala: int, px: int, py: int) -> bool {
    exists|f: int, c: int|
        #![trigger punto_encendido(trazo, f, c), en_rect(ox + c * escala, oy + f * escala, escala, escala, px, py)]
        punto_encendido(trazo, f, c) && en_rect(
            ox + c * escala,
            oy + f * escala,
            escala,
            escala,
            px,
            py,
        )
}

/// Alguna de las letras del texto dibujado en `(x, y)` cubre `(px, py)`.
/// Las letras sin glifo no cubren nada pero conservan su hueco.
pub open spec fn texto_cubre(texto: Seq<char>, x: int, y: int, escala: int, px: int, py: int) -> bool {
    exists|k: int|
        0 <= k < texto.len() && #[trigger] letra_cubre(texto[k], x + k * (AVANCE * escala), y, escala, px, py)
}

/// La letra dibujada con su esquina en `(ox, oy)` cubre `(px, py)`.
pub open spec fn letra_cubre(letra: char, ox: int, oy: int, escala: int, px: int, py: int) -> bool {
    match trazo_de(letra) {
        Some(t) => glifo_cubre(t, ox, oy, escala, px, py),
        None => false,
    }
}

/// Los puntos ya dibujados de un glifo: las filas anteriores a `fila` y, en
/// `fila`, las columnas anteriores a `columna`.
spec fn glifo_cubre_hasta(
    trazo: [u8; 7],
    ox: int,
    oy: int,
    escala: int,
    fila: int,
    columna: int,
    px: int,
    py: int,
) -> bool {
    exists|f: int, c: int|
        #![trigger punto_encendido(trazo, f, c), en_rect(ox + c * escala, oy + f * escala, escala, escala, px, py)]
        (f < fila || (f == fila && c < columna)) && punto_encendido(trazo, f, c) && en_rect(
            ox + c * escala,
            oy + f * escala,
            escala,
            escala,
            px,
            py,
        )
}

proof fn lema_bloque_acotado(o: int, c: int, escala: int, n: int, limite: int)
    requires
        0 <= c < n,
        0 <= escala,
        o + (n - 1) * escala <= limite,
    ensures
        o + c * escala <= limite,
        0 <= c * escala,
{
    assert(c * escala <= (n - 1) * escala && 0 <= c * escala) by (nonlinear_arith)
        requires
            0 <= c < n,
            0 <= escala,
    ;
}

/// Dibuja un glifo con su esquina en `(ox, oy)`.
fn dibujar_glifo(
    framebuffer: &mut Framebuffer,
    ox: usize,
    oy: usize,
    trazo: &[u8; 7],
    escala: usize,
    color: u32,
)
    requires
        old(framebuffer).wf(),
        ox + (ANCHO_GLIFO - 1) * escala <= usize::MAX,
        oy + (ALTO_GLIFO - 1) * escala <= usize::MAX,
    ensures
        final(framebuffer).misma_forma(&*old(framebuffer)),
        forall|px: int, py: int|
            old(framebuffer).en_rejilla(px, py) ==> final(framebuffer).pixel(px, py) == if glifo_cubre(
                *trazo,
                ox as int,
                oy as int,
                escala as int,
                px,
                py,
            ) {
                color
            } else {
                old(framebuffer).pixel(px, py)
            },
{
    let ghost inicial = *framebuffer;
    let mut fila: usize = 0;
    while fila < ALTO_GLIFO
        invariant
            0 <= fila <= ALTO_GLIFO,
            framebuffer.wf(),
            inicial.wf(),
            framebuffer.misma_forma(&inicial),
            ox + (ANCHO_GLIFO - 1) * escala <= usize::MAX,
            oy + (ALTO_GLIFO - 1) * escala <= usize::MAX,
            forall|px: int, py: int|
                inicial.en_rejilla(px, py) ==> framebuffer.pixel(px, py) == if glifo_cubre_hasta(
                    *trazo,
                    ox as int,
                    oy as int,
                    escala as int,
                    fila as int,
                    0,
                    px,
                    py,
                ) {
                    color
                } else {
                    inicial.pixel(px, py)
                },
        decreases ALTO_GLIFO - fila,
    {
        let bits = trazo[fila];
        let mut columna: usize = 0;
        while columna < ANCHO_GLIFO
            invariant
                0 <= fila < ALTO_GLIFO,
                0 <= columna <= ANCHO_GLIFO,
                bits == trazo[fila as int],
                framebuffer.wf(),
                inicial.wf(),
                framebuffer.misma_forma(&inicial),
                ox + (ANCHO_GLIFO - 1) * escala <= usize::MAX,
                oy + (ALTO_GLIFO - 1) * escala <= usize::MAX,
                forall|px: int, py: int|
                    inicial.en_rejilla(px, py) ==> framebuffer.pixel(px, py) == if glifo_cubre_hasta(
                        *trazo,
                        ox as int,
                        oy as int,
                        escala as int,
                        fila as int,
                        columna as int,
                        px,
                        py,
                    ) {
                        color
                    } else {
                        inicial.pixel(px, py)
                    },
            decreases ANCHO_GLIFO - columna,
        {
            let ghost antes = *framebuffer;
            proof {
                lema_bloque_acotado(ox as int, columna as int, escala as int, 5, usize::MAX as int);
                lema_bloque_acotado(oy as int, fila as int, escala as int, 7, usize::MAX as int);
            }
            let encendido = bits & (1u8 << ((ANCHO_GLIFO - 1 - columna) as u8)) != 0;
            if encendido {
                framebuffer.fill_rect(
                    ox + columna * escala,
                    oy + fila * escala,
                    escala,
                    escala,
                    color,
                );
            }
            proof {
                let f = fila as int;
                let c = columna as int;
                assert(encendido == punto_encendido(*trazo, f, c));
                assert forall|px: int, py: int| inicial.en_rejilla(px, py) implies framebuffer.pixel(
                    px,
                    py,
                ) == if glifo_cubre_hasta(
                    *trazo,
                    ox as int,
                    oy as int,
                    escala as int,
                    f,
                    c + 1,
                    px,
                    py,
                ) {
                    color
                } else {
                    inicial.pixel(px, py)
                } by {
                    let bloque = en_rect(
                        ox + c * escala,
                        oy + f * escala,
                        escala as int,
                        escala as int,
                        px,
                        py,
                    );
                    if encendido && bloque {
                        assert(glifo_cubre_hasta(
                            *trazo,
                            ox as int,
                            oy as int,
                            escala as int,
                            f,
                            c + 1,
                            px,
                            py,
                        ));
                    }
                    if glifo_cubre_hasta(
                        *trazo,
                        ox as int,
                        oy as int,
                        escala as int,
                        f,
                        c + 1,
                        px,
                        py,
                    ) && !(encendido && bloque) {
                        let (f2, c2) = choose|f2: int, c2: int|
                            (f2 < f || (f2 == f && c2 < c + 1)) && punto_encendido(*trazo, f2, c2)
                                && en_rect(
                                ox + c2 * escala,
                                oy + f2 * escala,
                                escala as int,
                                escala as int,
                                px,
                                py,
                            );
                        assert(glifo_cubre_hasta(
                            *trazo,
                            ox as int,
                            oy as int,
                            escala as int,
                            f,
                            c,
                            px,
                            py,
                        ));
                    }
                }
            }
            columna = columna + 1;
        }
        proof {
            assert forall|px: int, py: int|
                #![trigger framebuffer.pixel(px, py)]
                inicial.en_rejilla(px, py) implies glifo_cubre_hasta(
                *trazo,
                ox as int,
                oy as int,
                escala as int,
                fila as int,
                ANCHO_GLIFO as int,
                px,
                py,
            ) == glifo_cubre_hasta(
                *trazo,
                ox as int,
                oy as int,
                escala as int,
                fila + 1,
                0,
                px,
                py,
            ) by {
                if glifo_cubre_hasta(
                    *trazo,
                    ox as int,
                    oy as int,
                    escala as int,
                    fila + 1,
                    0,
                    px,
                    py,
                ) {
                    let (f2, c2) = choose|f2: int, c2: int|
                        (f2 < fila + 1 || (f2 == fila + 1 && c2 < 0)) && punto_encendido(
                            *trazo,
                            f2,
                            c2,
                        ) && en_rect(
                            ox + c2 * escala,
                            oy + f2 * escala,
                            escala as int,
                            escala as int,
                            px,
                            py,
                        );
                    assert(glifo_cubre_hasta(
                        *trazo,
                        ox as int,
                        oy as int,
                        escala as int,
                        fila as int,
                        ANCHO_GLIFO as int,
                        px,
                        py,
                    ));
                }
            }
        }
        fila = fila + 1;
    }
    proof {
        assert forall|px: int, py: int|
            #![trigger framebuffer.pixel(px, py)]
            inicial.en_rejilla(px, py) implies glifo_cubre_hasta(
            *trazo,
            ox as int,
            oy as int,
            escala as int,
            ALTO_GLIFO as int,
            0,
            px,
            py,
        ) == glifo_cubre(*trazo, ox as int, oy as int, escala as int, px, py) by {
            if glifo_cubre(*trazo, ox as int, oy as int, escala as int, px, py) {
                let (f2, c2) = choose|f2: int, c2: int|
                    punto_encendido(*trazo, f2, c2) && en_rect(
                        ox + c2 * escala,
                        oy + f2 * escala,
                        escala as int,
                        escala as int,
                        px,
                        py,
                    );
                assert(glifo_cubre_hasta(
                    *trazo,
                    ox as int,
                    oy as int,
                    escala as int,
                    ALTO_GLIFO as int,
                    0,
                    px,
                    py,
                ));
            }
        }
    }
}

proof fn lema_avance(x: int, k: int, n: int, escala: int)
    requires
        0 <= k < n,
        0 <= escala,
        x + n * (AVANCE * escala) <= usize::MAX,
    ensures
        x + k * (AVANCE * escala) + (ANCHO_GLIFO - 1) * escala <= usize::MAX,
        x + (k + 1) * (AVANCE * escala) <= usize::MAX,
        x + (k + 1) * (AVANCE * escala) == x + k * (AVANCE * escala) + AVANCE * escala,
        0 <= k * (AVANCE * escala),
{
    assert(k * (6 * escala) + 4 * escala <= n * (6 * escala) && (k + 1) * (6 * escala) <= n * (6
        * escala) && (k + 1) * (6 * escala) == k * (6 * escala) + 6 * escala && 0 <= k * (6
        * escala)) by (nonlinear_arith)
        requires
            0 <= k < n,
            0 <= escala,
    ;
}

/// Dibuja un texto con su esquina en `(x, y)` y devuelve el ancho en
/// píxeles que ocupó.
///
/// Cada punto encendido del glifo se pinta como un bloque de
/// `escala × escala`, recortado contra el buffer. Las letras sin glifo se
/// saltan dejando su hueco.
pub fn dibujar_texto(
    framebuffer: &mut Framebuffer,
    x: usize,
    y: usize,
    texto: &str,
    escala: usize,
    color: u32,
) -> (r: usize)
    requires
        old(framebuffer).wf(),
        x + texto@.len() * (AVANCE * escala) <= usize::MAX,
        y + (ALTO_GLIFO - 1) * escala <= usize::MAX,
    ensures
        final(framebuffer).misma_forma(&*old(framebuffer)),
        r == ancho_de_letras(texto@.len() as int, escala as int),
        forall|px: int, py: int|
            old(framebuffer).en_rejilla(px, py) ==> final(framebuffer).pixel(px, py) == if texto_cubre(
                texto@,
                x as int,
                y as int,
                escala as int,
                px,
                py,
            ) {
                color
            } else {
                old(framebuffer).pixel(px, py)
            },
{
    if escala == 0 {
        proof {
            assert forall|px: int, py: int| !texto_cubre(texto@, x as int, y as int, 0, px, py) by {
                if texto_cubre(texto@, x as int, y as int, 0, px, py) {
                    let k = choose|k: int|
                        0 <= k < texto@.len() && #[trigger] letra_cubre(
                            texto@[k],
                            x + k * (AVANCE * 0),
                            y as int,
                            0,
                            px,
                            py,
                        );
                }
            }
        }
        return 0;
    }
    let ghost inicial = *framebuffer;
    let ghost n = texto@.len() as int;
    let mut avance = x;
    for letra in it: texto.chars()
        invariant
            it.seq() == texto@,
            n == texto@.len(),
            escala > 0,
            framebuffer.wf(),
            inicial.wf(),
            framebuffer.misma_forma(&inicial),
            x + n * (AVANCE * escala) <= usize::MAX,
            y + (ALTO_GLIFO - 1) * escala <= usize::MAX,
            avance == x + it.index() * (AVANCE * escala),
            forall|px: int, py: int|
                inicial.en_rejilla(px, py) ==> framebuffer.pixel(px, py) == if exists|k: int|
                    0 <= k < it.index() && #[trigger] letra_cubre(
                        texto@[k],
                        x + k * (AVANCE * escala),
                        y as int,
                        escala as int,
                        px,
                        py,
                    ) {
                    color
                } else {
                    inicial.pixel(px, py)
                },
    {
        let ghost i = it.index();
        proof {
            lema_avance(x as int, i, n, escala as int);
        }
        let ghost antes = *framebuffer;
        if let Some(trazo) = glifo(letra) {
            dibujar_glifo(framebuffer, avance, y, &trazo, escala, color);
        }
        proof {
            assert(letra == texto@[i]);
            assert forall|px: int, py: int| inicial.en_rejilla(px, py) implies framebuffer.pixel(
                px,
                py,
            ) == if exists|k: int|
                0 <= k < i + 1 && #[trigger] letra_cubre(
                    texto@[k],
                    x + k * (AVANCE * escala),
                    y as int,
                    escala as int,
                    px,
                    py,
                ) {
                color
            } else {
                inicial.pixel(px, py)
            } by {
                let esta = letra_cubre(
                    texto@[i],
                    x + i * (AVANCE * escala),
                    y as int,
                    escala as int,
                    px,
                    py,
                );
                if exists|k: int|
                    0 <= k < i + 1 && #[trigger] letra_cubre(
                        texto@[k],
                        x + k * (AVANCE * escala),
                        y as int,
                        escala as int,
                        px,
                        py,
                    ) {
                    if !esta {
                        let k = choose|k: int|
                            0 <= k < i + 1 && #[trigger] letra_cubre(
                                texto@[k],
                                x + k * (AVANCE * escala),
                                y as int,
                                escala as int,
                                px,
                                py,
                            );
                        assert(k < i);
                    }
                }
            }
        }
        avance = avance + AVANCE * escala;
    }
    proof {
        assert(texto@.len() * AVANCE <= texto@.len() * (AVANCE * escala)) by (nonlinear_arith)
            requires
                escala > 0,
        ;
        if texto@.len() > 0 {
            lema_ancho_acotado(texto@.len() as int, escala as int);
        }
    }
    ancho_de_texto(texto, escala)
}

// ----------------------------------------------------------------- dibujo

/// Colores de la interfaz, en sRGB empaquetado.
pub const FONDO_PANEL: u32 = 0x001B1A24;
pub const BORDE_PANEL: u32 = 0x00C8B489;
pub const FONDO_CAPSULA: u32 = 0x00272231;
pub const TINTA: u32 = 0x00E8DFC8;
pub const SELECCION: u32 = 0x00F0C86A;
pub const APAGADA: u32 = 0x003A3542;
/// Las dos mitades de la celda de revelar: lienzo y revelado.
pub const MITAD_LIENZO: u32 = 0x00D9CDB0;
pub const MITAD_REVELADA: u32 = 0x00335A46;

/// Un rectángulo pintado de `color` sobre el valor `previo` del píxel.
pub open spec fn sobre_rect(r: Rect, color: u32, px: int, py: int, previo: u32) -> u32 {
    if r.contiene_punto(px, py) {
        color
    } else {
        previo
    }
}

/// El marco de un píxel de `r` pintado de `color` sobre `previo`.
pub open spec fn sobre_marco(r: Rect, color: u32, px: int, py: int, previo: u32) -> u32 {
    if en_marco(r.x as int, r.y as int, r.ancho as int, r.alto as int, px, py) {
        color
    } else {
        previo
    }
}

/// Las muestras de una miniatura, fila por fila, copiadas sobre `r`.
pub open spec fn sobre_muestras(r: Rect, muestras: Seq<u32>, px: int, py: int, previo: u32) -> u32 {
    if r.contiene_punto(px, py) {
        muestras[(py - r.y) * r.ancho + (px - r.x)]
    } else {
        previo
    }
}

/// La diagonal de bloques de `2 × 2` con la que se tacha una celda.
pub open spec fn en_diagonal(r: Rect, px: int, py: int) -> bool {
    exists|k: int|
        0 <= k < minimo(r.ancho as int, r.alto as int) && #[trigger] en_rect(
            r.x + k,
            r.y + k,
            2,
            2,
            px,
            py,
        )
}

/// La mitad derecha de un rectángulo.
pub open spec fn mitad_derecha(r: Rect) -> Rect {
    Rect { x: (r.x + r.ancho / 2) as usize, y: r.y, ancho: (r.ancho / 2) as usize, alto: r.alto }
}

/// El rectángulo dos píxeles hacia dentro.
pub open spec fn interior(r: Rect) -> Rect {
    Rect { x: (r.x + 2) as usize, y: (r.y + 2) as usize, ancho: (r.ancho - 4) as usize, alto: (r.alto - 4) as usize }
}

/// La muestra de la celda: medio lienzo y medio revelado, el color del
/// pigmento, la miniatura de la tela o, si la tela falta, la celda apagada
/// y tachada.
pub open spec fn fondo_de_celda(
    celda: Celda,
    colores: [u32; 5],
    miniaturas: Seq<Option<Vec<u32>>>,
    px: int,
    py: int,
    previo: u32,
) -> u32 {
    let r = celda.rect;
    match celda.herramienta {
        Herramienta::Revelar => sobre_rect(
            mitad_derecha(r),
            MITAD_REVELADA,
            px,
            py,
            sobre_rect(r, MITAD_LIENZO, px, py, previo),
        ),
        Herramienta::Pigmento(i) => sobre_rect(r, colores[i as int], px, py, previo),
        Herramienta::Textura(i) => if celda.activable && i < miniaturas.len()
            && miniaturas[i as int] is Some {
            sobre_muestras(r, miniaturas[i as int]->0@, px, py, previo)
        } else if en_diagonal(r, px, py) {
            TINTA
        } else {
            sobre_rect(r, APAGADA, px, py, previo)
        },
    }
}

/// Una celda dibujada sobre `previo`: su muestra, su marco y el realce si
/// es la herramienta activa.
pub open spec fn pixel_de_celda(
    celda: Celda,
    activa: Herramienta,
    colores: [u32; 5],
    miniaturas: Seq<Option<Vec<u32>>>,
    px: int,
    py: int,
    previo: u32,
) -> u32 {
    let r = celda.rect;
    let fondo = fondo_de_celda(celda, colores, miniaturas, px, py, previo);
    let marco = if celda.herramienta == activa {
        SELECCION
    } else {
        BORDE_PANEL
    };
    let con_marco = sobre_marco(r, marco, px, py, fondo);
    if celda.herramienta == activa {
        sobre_marco(interior(r), SELECCION, px, py, con_marco)
    } else {
        con_marco
    }
}

/// Las primeras `n` celdas dibujadas, en orden, sobre `previo`.
pub open spec fn pixel_tras_celdas(
    celdas: Seq<Celda>,
    n: int,
    activa: Herramienta,
    colores: [u32; 5],
    miniaturas: Seq<Option<Vec<u32>>>,
    px: int,
    py: int,
    previo: u32,
) -> u32
    decreases n,
{
    if n <= 0 {
        previo
    } else {
        pixel_de_celda(
            celdas[n - 1],
            activa,
            colores,
            miniaturas,
            px,
            py,
            pixel_tras_celdas(celdas, n - 1, activa, colores, miniaturas, px, py, previo),
        )
    }
}

/// La banda que separa el título de la retícula.
pub open spec fn cabecera(panel: Rect) -> Rect {
    Rect {
        x: (panel.x + MARGEN) as usize,
        y: (panel.y + MARGEN + CABECERA - 6) as usize,
        ancho: (panel.ancho - MARGEN * 2) as usize,
        alto: 2,
    }
}

/// Esquina de la etiqueta, centrada en la cápsula.
pub open spec fn esquina_de_la_etiqueta(capsula: Rect, letras: int) -> (int, int) {
    (
        capsula.x + resta_saturada(capsula.ancho as int, ancho_de_letras(letras, ESCALA_DE_LA_ETIQUETA as int)) / 2,
        capsula.y + resta_saturada(capsula.alto as int, (ALTO_GLIFO * ESCALA_DE_LA_ETIQUETA) as int) / 2,
    )
}

/// El texto de la cápsula.
pub open spec fn etiqueta(abierta: bool) -> Seq<char> {
    if abierta {
        "P CERRAR"@
    } else {
        "P ABRIR"@
    }
}

/// Cada letra de las dos etiquetas de la cápsula tiene su glifo, y el de
/// toda letra que no sea el espacio enciende algún punto: ninguna etiqueta
/// puede quedar con un hueco donde debería haber una letra.
pub proof fn ley_cada_letra_de_la_etiqueta_tiene_glifo(abierta: bool, i: int)
    requires
        0 <= i < etiqueta(abierta).len(),
    ensures
        trazo_de(etiqueta(abierta)[i]) is Some,
        etiqueta(abierta)[i] != ' ' ==> exists|fila: int|
            0 <= fila < 7 && #[trigger] trazo_de(etiqueta(abierta)[i])->0[fila] != 0,
{
    reveal_strlit("P CERRAR");
    reveal_strlit("P ABRIR");
    let t = etiqueta(abierta)[i];
    assert(mayuscula(t) == t);
    if t != ' ' {
        assert(trazo_de(t)->0[0] != 0);
    }
}

/// Las dos etiquetas caben en la cápsula con margen por los cuatro lados:
/// la cápsula no puede crecer hasta tapar el diorama.
pub proof fn ley_la_etiqueta_cabe_en_la_capsula(abierta: bool)
    ensures
        ancho_de_letras(etiqueta(abierta).len() as int, ESCALA_DE_LA_ETIQUETA as int)
            < ANCHO_CAPSULA,
        ALTO_GLIFO * ESCALA_DE_LA_ETIQUETA < ALTO_CAPSULA,
{
    reveal_strlit("P CERRAR");
    reveal_strlit("P ABRIR");
}

/// La paleta entera dibujada sobre `previo`: el panel con sus celdas si
/// está abierta, y siempre la cápsula con su etiqueta.
pub open spec fn pixel_de_paleta(
    disposicion: Disposicion,
    activa: Herramienta,
    abierta: bool,
    colores: [u32; 5],
    miniaturas: Seq<Option<Vec<u32>>>,
    px: int,
    py: int,
    previo: u32,
) -> u32 {
    let tras_panel = match disposicion.panel {
        Some(p) => pixel_tras_celdas(
            disposicion.celdas@,
            disposicion.celdas@.len() as int,
            activa,
            colores,
            miniaturas,
            px,
            py,
            sobre_rect(
                cabecera(p),
                BORDE_PANEL,
                px,
                py,
                sobre_marco(p, BORDE_PANEL, px, py, sobre_rect(p, FONDO_PANEL, px, py, previo)),
            ),
        ),
        None => previo,
    };
    let c = disposicion.capsula;
    let con_capsula = sobre_marco(c, BORDE_PANEL, px, py, sobre_rect(c, FONDO_CAPSULA, px, py, tras_panel));
    let texto = etiqueta(abierta);
    let (tx, ty) = esquina_de_la_etiqueta(c, texto.len() as int);
    if texto_cubre(texto, tx, ty, ESCALA_DE_LA_ETIQUETA as int, px, py) {
        TINTA
    } else {
        con_capsula
    }
}

/// La cápsula nombra la acción que hará un clic, no el estado: con el panel
/// abierto dice «P CERRAR» y plegado «P ABRIR». Cada punto que cubre ese
/// texto, centrado en la cápsula y a la escala de la etiqueta, queda en
/// tinta, sea lo que sea lo que hubiera debajo.
pub proof fn ley_la_capsula_nombra_la_accion(
    disposicion: Disposicion,
    activa: Herramienta,
    abierta: bool,
    colores: [u32; 5],
    miniaturas: Seq<Option<Vec<u32>>>,
    px: int,
    py: int,
    previo: u32,
)
    ensures
        ({
            let texto = if abierta {
                "P CERRAR"@
            } else {
                "P ABRIR"@
            };
            let (tx, ty) = esquina_de_la_etiqueta(disposicion.capsula, texto.len() as int);
            texto_cubre(texto, tx, ty, ESCALA_DE_LA_ETIQUETA as int, px, py) ==> pixel_de_paleta(
                disposicion,
                activa,
                abierta,
                colores,
                miniaturas,
                px,
                py,
                previo,
            ) == TINTA
        }),
{
}

/// Una celda se puede dibujar sin desbordar ninguna coordenada.
pub open spec fn celda_dibujable(celda: Celda, activa: Herramienta, miniaturas: Seq<Option<Vec<u32>>>) -> bool {
    let r = celda.rect;
    &&& celda.herramienta.valida()
    &&& r.x + r.ancho <= usize::MAX
    &&& r.y + r.alto <= usize::MAX
    &&& celda.herramienta == activa ==> r.ancho >= 4 && r.alto >= 4
    &&& match celda.herramienta {
        Herramienta::Textura(i) => celda.activable && i < miniaturas.len()
            && miniaturas[i as int] is Some ==> miniaturas[i as int]->0@.len() == r.ancho * r.alto,
        _ => true,
    }
}

/// Copia las muestras de una miniatura sobre `r`, fila por fila.
fn miniatura(framebuffer: &mut Framebuffer, r: Rect, muestras: &Vec<u32>)
    requires
        old(framebuffer).wf(),
        r.x + r.ancho <= usize::MAX,
        r.y + r.alto <= usize::MAX,
        muestras@.len() == r.ancho * r.alto,
    ensures
        final(framebuffer).misma_forma(&*old(framebuffer)),
        forall|px: int, py: int|
            old(framebuffer).en_rejilla(px, py) ==> final(framebuffer).pixel(px, py) == sobre_muestras(
                r,
                muestras@,
                px,
                py,
                old(framebuffer).pixel(px, py),
            ),
{
    let ghost inicial = *framebuffer;
    let mut fila: usize = 0;
    while fila < r.alto
        invariant
            0 <= fila <= r.alto,
            r.x + r.ancho <= usize::MAX,
            r.y + r.alto <= usize::MAX,
            muestras@.len() == r.ancho * r.alto,
            framebuffer.wf(),
            inicial.wf(),
            framebuffer.misma_forma(&inicial),
            forall|px: int, py: int|
                inicial.en_rejilla(px, py) ==> framebuffer.pixel(px, py) == if r.contiene_punto(px, py)
                    && py < r.y + fila {
                    muestras@[(py - r.y) * r.ancho + (px - r.x)]
                } else {
                    inicial.pixel(px, py)
                },
        decreases r.alto - fila,
    {
        let mut columna: usize = 0;
        while columna < r.ancho
            invariant
                0 <= fila < r.alto,
                0 <= columna <= r.ancho,
                r.x + r.ancho <= usize::MAX,
                r.y + r.alto <= usize::MAX,
                muestras@.len() == r.ancho * r.alto,
                framebuffer.wf(),
                inicial.wf(),
                framebuffer.misma_forma(&inicial),
                forall|px: int, py: int|
                    inicial.en_rejilla(px, py) ==> framebuffer.pixel(px, py) == if r.contiene_punto(
                        px,
                        py,
                    ) && (py < r.y + fila || (py == r.y + fila && px < r.x + columna)) {
                        muestras@[(py - r.y) * r.ancho + (px - r.x)]
                    } else {
                        inicial.pixel(px, py)
                    },
            decreases r.ancho - columna,
        {
            proof {
                crate::framebuffer::lema_indice_en_rango(
                    r.ancho as int,
                    r.alto as int,
                    columna as int,
                    fila as int,
                );
            }
            let total = muestras.len();
            let muestra = muestras[fila * r.ancho + columna];
            framebuffer.fill_rect(r.x + columna, r.y + fila, 1, 1, muestra);
            columna = columna + 1;
        }
        fila = fila + 1;
    }
}

/// Tacha una celda con una diagonal de bloques de `2 × 2`.
fn tachar(framebuffer: &mut Framebuffer, r: Rect)
    requires
        old(framebuffer).wf(),
        r.x + r.ancho <= usize::MAX,
        r.y + r.alto <= usize::MAX,
    ensures
        final(framebuffer).misma_forma(&*old(framebuffer)),
        forall|px: int, py: int|
            old(framebuffer).en_rejilla(px, py) ==> final(framebuffer).pixel(px, py) == if en_diagonal(
                r,
                px,
                py,
            ) {
                TINTA
            } else {
                old(framebuffer).pixel(px, py)
            },
{
    let ghost inicial = *framebuffer;
    let lado = menor(r.ancho, r.alto);
    let mut k: usize = 0;
    while k < lado
        invariant
            0 <= k <= lado,
            lado == minimo(r.ancho as int, r.alto as int),
            r.x + r.ancho <= usize::MAX,
            r.y + r.alto <= usize::MAX,
            framebuffer.wf(),
            inicial.wf(),
            framebuffer.misma_forma(&inicial),
            forall|px: int, py: int|
                inicial.en_rejilla(px, py) ==> framebuffer.pixel(px, py) == if exists|j: int|
                    0 <= j < k && #[trigger] en_rect(r.x + j, r.y + j, 2, 2, px, py) {
                    TINTA
                } else {
                    inicial.pixel(px, py)
                },
        decreases lado - k,
    {
        framebuffer.fill_rect(r.x + k, r.y + k, 2, 2, TINTA);
        proof {
            assert forall|px: int, py: int| inicial.en_rejilla(px, py) implies framebuffer.pixel(
                px,
                py,
            ) == if exists|j: int| 0 <= j < k + 1 && #[trigger] en_rect(r.x + j, r.y + j, 2, 2, px, py) {
                TINTA
            } else {
                inicial.pixel(px, py)
            } by {
                if exists|j: int| 0 <= j < k + 1 && #[trigger] en_rect(r.x + j, r.y + j, 2, 2, px, py) {
                    if !en_rect(r.x + k, r.y + k, 2, 2, px, py) {
                        let j = choose|j: int|
                            0 <= j < k + 1 && #[trigger] en_rect(r.x + j, r.y + j, 2, 2, px, py);
                        assert(j < k);
                    }
                }
            }
        }
        k = k + 1;
    }
}

/// Una celda: su muestra, su marco y el realce si está activa.
fn dibujar_celda(
    framebuffer: &mut Framebuffer,
    celda: &Celda,
    activa: Herramienta,
    colores: &[u32; 5],
    miniaturas: &[Option<Vec<u32>>],
)
    requires
        old(framebuffer).wf(),
        celda_dibujable(*celda, activa, miniaturas@),
    ensures
        final(framebuffer).misma_forma(&*old(framebuffer)),
        forall|px: int, py: int|
            old(framebuffer).en_rejilla(px, py) ==> final(framebuffer).pixel(px, py) == pixel_de_celda(
                *celda,
                activa,
                *colores,
                miniaturas@,
                px,
                py,
                old(framebuffer).pixel(px, py),
            ),
{
    let r = celda.rect;
    match celda.herramienta {
        Herramienta::Revelar => {
            // Medio lienzo y medio revelado: la herramienta que descubre.
            framebuffer.fill_rect(r.x, r.y, r.ancho, r.alto, MITAD_LIENZO);
            framebuffer.fill_rect(r.x + r.ancho / 2, r.y, r.ancho / 2, r.alto, MITAD_REVELADA);
        },
        Herramienta::Pigmento(i) => {
            framebuffer.fill_rect(r.x, r.y, r.ancho, r.alto, colores[i]);
        },
        Herramienta::Textura(i) => {
            let tela = if i < miniaturas.len() {
                miniaturas[i].as_ref()
            } else {
                None
            };
            match (tela, celda.activable) {
                (Some(muestras), true) => miniatura(framebuffer, r, muestras),
                _ => {
                    // Ausente: apagada y tachada, para que se vea que existe
                    // y que no se puede elegir.
                    framebuffer.fill_rect(r.x, r.y, r.ancho, r.alto, APAGADA);
                    tachar(framebuffer, r);
                },
            }
        },
    }

    let marco = if celda.herramienta == activa {
        SELECCION
    } else {
        BORDE_PANEL
    };

    framebuffer.stroke_rect(r.x, r.y, r.ancho, r.alto, marco);

    // La activa lleva un segundo marco por dentro: se distingue de un
    // vistazo sin depender del color del borde.
    if celda.herramienta == activa {
        framebuffer.stroke_rect(r.x + 2, r.y + 2, r.ancho - 4, r.alto - 4, SELECCION);
    }
}

/// La paleta se puede dibujar sin desbordar ninguna coordenada.
pub open spec fn paleta_dibujable(
    disposicion: Disposicion,
    activa: Herramienta,
    abierta: bool,
    miniaturas: Seq<Option<Vec<u32>>>,
) -> bool {
    let texto = etiqueta(abierta);
    let (tx, ty) = esquina_de_la_etiqueta(disposicion.capsula, texto.len() as int);
    &&& disposicion.panel matches Some(p) ==> {
        &&& p.x + MARGEN <= usize::MAX
        &&& p.y + MARGEN + CABECERA <= usize::MAX
        &&& p.ancho >= MARGEN * 2
        &&& forall|k: int|
            0 <= k < disposicion.celdas@.len() ==> celda_dibujable(
                #[trigger] disposicion.celdas@[k],
                activa,
                miniaturas,
            )
    }
    &&& tx + texto.len() * (AVANCE * ESCALA_DE_LA_ETIQUETA) <= usize::MAX
    &&& ty + (ALTO_GLIFO - 1) * ESCALA_DE_LA_ETIQUETA <= usize::MAX
}

/// Dibuja la paleta sobre el framebuffer ya trazado.
///
/// Va después del render, del escalado y del pincel: es interfaz, y tiene
/// que leerse por encima de todo lo demás. `colores` son los de los
/// pigmentos, y `miniaturas`, por índice de tela, las muestras de su
/// textura cargada para el tamaño de su celda, o `None` si no está cargada.
pub fn dibujar_paleta(
    framebuffer: &mut Framebuffer,
    disposicion: &Disposicion,
    paleta: &Paleta,
    colores: &[u32; 5],
    miniaturas: &[Option<Vec<u32>>],
)
    requires
        old(framebuffer).wf(),
        paleta_dibujable(*disposicion, paleta.activa(), paleta.esta_abierta(), miniaturas@),
    ensures
        final(framebuffer).misma_forma(&*old(framebuffer)),
        forall|px: int, py: int|
            old(framebuffer).en_rejilla(px, py) ==> final(framebuffer).pixel(px, py) == pixel_de_paleta(
                *disposicion,
                paleta.activa(),
                paleta.esta_abierta(),
                *colores,
                miniaturas@,
                px,
                py,
                old(framebuffer).pixel(px, py),
            ),
{
    let ghost inicial = *framebuffer;
    let activa = paleta.herramienta();
    if let Some(panel) = disposicion.panel {
        let ghost p0 = *framebuffer;
        framebuffer.fill_rect(panel.x, panel.y, panel.ancho, panel.alto, FONDO_PANEL);
        framebuffer.stroke_rect(panel.x, panel.y, panel.ancho, panel.alto, BORDE_PANEL);

        // La cabecera: una banda fina que separa el título de la retícula.
        framebuffer.fill_rect(
            panel.x + MARGEN,
            panel.y + MARGEN + CABECERA - 6,
            panel.ancho - MARGEN * 2,
            2,
            BORDE_PANEL,
        );
        let ghost base = *framebuffer;
        let n = disposicion.celdas.len();
        let mut k: usize = 0;
        while k < n
            invariant
                0 <= k <= n,
                n == disposicion.celdas@.len(),
                activa == paleta.activa(),
                framebuffer.wf(),
                base.wf(),
                framebuffer.misma_forma(&base),
                forall|j: int|
                    0 <= j < n ==> celda_dibujable(
                        #[trigger] disposicion.celdas@[j],
                        activa,
                        miniaturas@,
                    ),
                forall|px: int, py: int|
                    base.en_rejilla(px, py) ==> framebuffer.pixel(px, py) == pixel_tras_celdas(
                        disposicion.celdas@,
                        k as int,
                        activa,
                        *colores,
                        miniaturas@,
                        px,
                        py,
                        base.pixel(px, py),
                    ),
            decreases n - k,
        {
            dibujar_celda(framebuffer, &disposicion.celdas[k], activa, colores, miniaturas);
            k = k + 1;
        }
        proof {
            assert forall|px: int, py: int| inicial.en_rejilla(px, py) implies framebuffer.pixel(px, py)
                == pixel_tras_celdas(
                disposicion.celdas@,
                disposicion.celdas@.len() as int,
                activa,
                *colores,
                miniaturas@,
                px,
                py,
                sobre_rect(
                    cabecera(panel),
                    BORDE_PANEL,
                    px,
                    py,
                    sobre_marco(
                        panel,
                        BORDE_PANEL,
                        px,
                        py,
                        sobre_rect(panel, FONDO_PANEL, px, py, inicial.pixel(px, py)),
                    ),
                ),
            ) by {
                assert(base.en_rejilla(px, py));
                assert(base.pixel(px, py) == sobre_rect(
                    cabecera(panel),
                    BORDE_PANEL,
                    px,
                    py,
                    sobre_marco(
                        panel,
                        BORDE_PANEL,
                        px,
                        py,
                        sobre_rect(panel, FONDO_PANEL, px, py, inicial.pixel(px, py)),
                    ),
                ));
            }
        }
    }
    let ghost tras_panel = *framebuffer;
    proof {
        assert forall|px: int, py: int| inicial.en_rejilla(px, py) implies tras_panel.pixel(px, py)
            == match disposicion.panel {
            Some(p) => pixel_tras_celdas(
                disposicion.celdas@,
                disposicion.celdas@.len() as int,
                activa,
                *colores,
                miniaturas@,
                px,
                py,
                sobre_rect(
                    cabecera(p),
                    BORDE_PANEL,
                    px,
                    py,
                    sobre_marco(
                        p,
                        BORDE_PANEL,
                        px,
                        py,
                        sobre_rect(p, FONDO_PANEL, px, py, inicial.pixel(px, py)),
                    ),
                ),
            ),
            None => inicial.pixel(px, py),
        } by {}
    }
    // La cápsula, siempre. Plegada es lo único que se ve; abierta hace de
    // botón de cerrar.

    let c = disposicion.capsula;
    framebuffer.fill_rect(c.x, c.y, c.ancho, c.alto, FONDO_CAPSULA);
    framebuffer.stroke_rect(c.x, c.y, c.ancho, c.alto, BORDE_PANEL);

    // La etiqueta, centrada: es lo único que le dice al usuario qué hace
    // ese botón.
    let texto = etiqueta_de_la_capsula(paleta.abierta());
    let ghost tras_capsula = *framebuffer;
    proof {
        assert(texto@ == etiqueta(paleta.esta_abierta()));
        assert(texto@.len() * 6 <= texto@.len() * (6 * 2)) by (nonlinear_arith);
    }
    let ancho_texto = ancho_de_texto(texto, ESCALA_DE_LA_ETIQUETA);
    let alto_texto = ALTO_GLIFO * ESCALA_DE_LA_ETIQUETA;

    dibujar_texto(
        framebuffer,
        c.x + c.ancho.saturating_sub(ancho_texto) / 2,
        c.y + c.alto.saturating_sub(alto_texto) / 2,
        texto,
        ESCALA_DE_LA_ETIQUETA,
        TINTA,
    );
}

} // verus!
