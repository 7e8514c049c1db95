//! Framebuffer en memoria y el único mapeo de escalado del proyecto.

use vstd::prelude::*;

verus! {

/// Píxel fuente que muestra el píxel `destino` de un lado de `lado_destino`
/// cuando la imagen de `lado_fuente` se escala por vecino más cercano.
pub open spec fn pixel_fuente(destino: int, lado_destino: int, lado_fuente: int) -> int {
    if lado_destino == 0 {
        0
    } else {
        destino * lado_fuente / lado_destino
    }
}

/// Un punto `(px, py)` cae dentro del rectángulo `x, y, ancho, alto`.
pub open spec fn en_rect(x: int, y: int, ancho: int, alto: int, px: int, py: int) -> bool {
    x <= px < x + ancho && y <= py < y + alto
}

/// Un punto `(px, py)` cae en el marco de un píxel del rectángulo.
pub open spec fn en_marco(x: int, y: int, ancho: int, alto: int, px: int, py: int) -> bool {
    &&& en_rect(x, y, ancho, alto, px, py)
    &&& (px == x || px == x + ancho - 1 || py == y || py == y + alto - 1)
}

pub proof fn lema_indice_en_rango(w: int, h: int, px: int, py: int)
    requires
        0 <= px < w,
        0 <= py < h,
    ensures
        0 <= py * w + px < w * h,
{
    assert(py * w + px < w * h) by (nonlinear_arith)
        requires
            0 <= px < w,
            0 <= py < h,
    ;
    assert(0 <= py * w) by (nonlinear_arith)
        requires
            0 <= py,
            0 <= w,
    ;
}

pub proof fn lema_indice_inyectivo(w: int, px: int, py: int, qx: int, qy: int)
    requires
        0 <= px < w,
        0 <= qx < w,
        0 <= py,
        0 <= qy,
        py * w + px == qy * w + qx,
    ensures
        px == qx,
        py == qy,
{
    if py < qy {
        assert(py * w + px < qy * w + qx) by (nonlinear_arith)
            requires
                0 <= px < w,
                0 <= qx,
                py < qy,
        ;
    } else if qy < py {
        assert(qy * w + qx < py * w + px) by (nonlinear_arith)
            requires
                0 <= qx < w,
                0 <= px,
                qy < py,
        ;
    }
}

/// Si el destino está dentro de su lado, la fuente cae dentro del suyo.
pub proof fn lema_pixel_fuente_en_rango(destino: int, lado_destino: int, lado_fuente: int)
    requires
        0 <= destino < lado_destino,
        0 <= lado_fuente,
    ensures
        0 <= pixel_fuente(destino, lado_destino, lado_fuente) < lado_fuente || lado_fuente == 0,
        0 <= pixel_fuente(destino, lado_destino, lado_fuente),
{
    assert(0 <= destino * lado_fuente / lado_destino) by (nonlinear_arith)
        requires
            0 <= destino,
            0 < lado_destino,
            0 <= lado_fuente,
    ;
    if lado_fuente > 0 {
        assert(destino * lado_fuente / lado_destino < lado_fuente) by (nonlinear_arith)
            requires
                0 <= destino < lado_destino,
                0 < lado_fuente,
        ;
    }
}

/// El escalado es vecino más cercano por truncamiento, para cualquier
/// proporción entre los dos lados: el píxel fuente `r` que muestra el
/// destino `d` es el único con `r · lado_destino ≤ d · lado_fuente <
/// (r + 1) · lado_destino`. La imagen se estira hasta llenar el destino, y
/// el destino `d` cae en la fuente `d · lado_fuente / lado_destino` de la
/// recta real, redondeada hacia abajo.
pub proof fn ley_el_escalado_trunca(destino: int, lado_destino: int, lado_fuente: int)
    requires
        0 <= destino,
        0 < lado_destino,
        0 <= lado_fuente,
    ensures
        pixel_fuente(destino, lado_destino, lado_fuente) * lado_destino <= destino * lado_fuente,
        destino * lado_fuente < (pixel_fuente(destino, lado_destino, lado_fuente) + 1) * lado_destino,
{
    let x = destino * lado_fuente;
    let r = pixel_fuente(destino, lado_destino, lado_fuente);
    vstd::arithmetic::div_mod::lemma_fundamental_div_mod(x, lado_destino);
    assert(r == x / lado_destino);
    assert(r * lado_destino <= x && x < (r + 1) * lado_destino) by (nonlinear_arith)
        requires
            x == lado_destino * (x / lado_destino) + x % lado_destino,
            0 <= x % lado_destino < lado_destino,
            r == x / lado_destino,
    ;
}

/// Al mismo tamaño el escalado es una copia exacta: cada píxel de destino
/// muestra el píxel fuente de su misma posición.
pub proof fn ley_al_mismo_tamano_es_una_copia(p: int, lado: int)
    requires
        0 <= p < lado,
    ensures
        pixel_fuente(p, lado, lado) == p,
{
    assert(p * lado == lado * p) by (nonlinear_arith);
    vstd::arithmetic::div_mod::lemma_div_multiples_vanish(p, lado);
}

/// Al doble de tamaño cada píxel fuente ocupa un bloque de dos por dos: el
/// destino `p` muestra la fuente `p / 2`.
pub proof fn ley_al_doble_cada_pixel_es_un_bloque(p: int, lado_fuente: int)
    requires
        0 <= p,
        0 < lado_fuente,
    ensures
        pixel_fuente(p, 2 * lado_fuente, lado_fuente) == p / 2,
{
    assert(p * lado_fuente == lado_fuente * p) by (nonlinear_arith);
    assert(2 * lado_fuente == lado_fuente * 2) by (nonlinear_arith);
    assert(0 <= p * lado_fuente) by (nonlinear_arith)
        requires
            0 <= p,
            0 < lado_fuente,
    ;
    vstd::arithmetic::div_mod::lemma_div_denominator(p * lado_fuente, lado_fuente, 2);
    vstd::arithmetic::div_mod::lemma_div_multiples_vanish(p, lado_fuente);
}

/// Píxel fuente que el escalado muestra en un píxel de destino.
///
/// Es la única definición del mapeo: la usan `blit_upscaled` para dibujar y
/// el picking para resolver un clic contra lo que se está mostrando.
/// División entera a propósito: vecino más cercano por truncamiento.
pub fn source_pixel(destino: usize, lado_destino: usize, lado_fuente: usize) -> (r: usize)
    requires
        destino * lado_fuente <= usize::MAX,
    ensures
        r == pixel_fuente(destino as int, lado_destino as int, lado_fuente as int),
        destino < lado_destino && lado_fuente > 0 ==> r < lado_fuente,
        lado_destino > 0 ==> r * lado_destino <= destino * lado_fuente < (r + 1) * lado_destino,
        lado_destino == 0 ==> r == 0,
{
    if lado_destino == 0 {
        return 0;
    }
    proof {
        ley_el_escalado_trunca(destino as int, lado_destino as int, lado_fuente as int);
        if destino < lado_destino {
            lema_pixel_fuente_en_rango(destino as int, lado_destino as int, lado_fuente as int);
        }
    }
    destino * lado_fuente / lado_destino
}

/// El píxel `0x00RRGGBB` de tres canales de ocho bits.
pub open spec fn empaquetado(r: u8, g: u8, b: u8) -> u32 {
    (r as int * 0x1_0000 + g as int * 0x100 + b as int) as u32
}

/// Los tres canales de un píxel `0x00RRGGBB`: rojo, verde y azul. El
/// byte alto no es de ningún canal y se descarta.
pub open spec fn canales_de(p: u32) -> (u8, u8, u8) {
    (((p / 0x1_0000) % 0x100) as u8, ((p / 0x100) % 0x100) as u8, (p % 0x100) as u8)
}

/// Empaqueta tres canales como el píxel `0x00RRGGBB` que guarda el
/// framebuffer.
pub fn empaquetar(r: u8, g: u8, b: u8) -> (p: u32)
    ensures
        p == empaquetado(r, g, b),
        p <= 0xFF_FFFF,
{
    let (x, y, z) = (r as u32, g as u32, b as u32);
    let p = (x << 16) | (y << 8) | z;
    assert(p == x * 0x1_0000 + y * 0x100 + z && p <= 0xFF_FFFF) by (bit_vector)
        requires
            x < 0x100,
            y < 0x100,
            z < 0x100,
            p == (x << 16) | (y << 8) | z,
    ;
    p
}

/// Los tres canales de un píxel `0x00RRGGBB`.
pub fn canales(p: u32) -> (c: (u8, u8, u8))
    ensures
        c == canales_de(p),
{
    let rojo = (p >> 16) & 0xFF;
    let verde = (p >> 8) & 0xFF;
    let azul = p & 0xFF;
    assert(rojo == (p / 0x1_0000) % 0x100 && verde == (p / 0x100) % 0x100 && azul == p % 0x100)
        by (bit_vector)
        requires
            rojo == (p >> 16) & 0xFF,
            verde == (p >> 8) & 0xFF,
            azul == p & 0xFF,
    ;
    (rojo as u8, verde as u8, azul as u8)
}

/// Empaquetar y desempaquetar son inversos: tres canales vuelven intactos
/// de su píxel, y un píxel sin byte alto vuelve intacto de sus canales.
pub proof fn ley_empaquetar_y_desempaquetar_son_inversos(r: u8, g: u8, b: u8, p: u32)
    ensures
        canales_de(empaquetado(r, g, b)) == (r, g, b),
        p <= 0xFF_FFFF ==> ({
            let (x, y, z) = canales_de(p);
            empaquetado(x, y, z) == p
        }),
{
}

pub struct Framebuffer {
    pub width: usize,
    pub height: usize,
    pub buffer: Vec<u32>,
    /// Color con el que `clear` rellena.
    pub background_color: u32,
    /// Color con el que `point` pinta.
    pub current_color: u32,
}

impl Framebuffer {
    /// Ancho en píxeles.
    pub open spec fn ancho(&self) -> int {
        self.width as int
    }

    /// Alto en píxeles.
    pub open spec fn alto(&self) -> int {
        self.height as int
    }

    /// El contenido, fila por fila.
    pub open spec fn pixeles(&self) -> Seq<u32> {
        self.buffer@
    }

    /// El buffer tiene exactamente un píxel por celda de `width × height`.
    pub open spec fn wf(&self) -> bool {
        self.pixeles().len() == self.ancho() * self.alto()
    }

    /// El píxel `(x, y)`.
    pub open spec fn pixel(&self, x: int, y: int) -> u32 {
        self.pixeles()[y * self.ancho() + x]
    }

    /// Todos los píxeles de la rejilla.
    pub open spec fn en_rejilla(&self, x: int, y: int) -> bool {
        0 <= x < self.ancho() && 0 <= y < self.alto()
    }

    /// Color con el que `clear` rellena.
    pub open spec fn color_de_fondo(&self) -> u32 {
        self.background_color
    }

    /// Color con el que `point` pinta.
    pub open spec fn color_actual(&self) -> u32 {
        self.current_color
    }

    /// Los dos buffers coinciden en todo lo que no es el contenido.
    pub open spec fn misma_forma(&self, otro: &Framebuffer) -> bool {
        &&& self.ancho() == otro.ancho()
        &&& self.alto() == otro.alto()
        &&& self.pixeles().len() == otro.pixeles().len()
        &&& self.color_de_fondo() == otro.color_de_fondo()
        &&& self.color_actual() == otro.color_actual()
    }

    pub fn new(width: usize, height: usize) -> (fb: Framebuffer)
        requires
            width * height <= usize::MAX,
        ensures
            fb.wf(),
            fb.ancho() == width,
            fb.alto() == height,
            forall|x: int, y: int| fb.en_rejilla(x, y) ==> fb.pixel(x, y) == 0,
            fb.color_de_fondo() == 0,
            fb.color_actual() == 0xFFFFFF,
    {
        let fb = Framebuffer {
            width,
            height,
            buffer: vec![0; width * height],
            background_color: 0x000000,
            current_color: 0xFFFFFF,
        };
        proof {
            assert forall|x: int, y: int| fb.en_rejilla(x, y) implies fb.pixel(x, y) == 0 by {
                lema_indice_en_rango(width as int, height as int, x, y);
            }
        }
        fb
    }

    /// Rellena todo el buffer con el color de fondo.
    pub fn clear(&mut self)
        ensures
            final(self).misma_forma(&*old(self)),
            forall|i: int|
                0 <= i < final(self).pixeles().len() ==> final(self).pixeles()[i]
                    == old(self).color_de_fondo(),
    {
        let n = self.buffer.len();
        let fondo = self.background_color;
        for i in 0..n
            invariant
                n == self.buffer@.len(),
                fondo == old(self).color_de_fondo(),
                self.misma_forma(&*old(self)),
                forall|j: int| 0 <= j < i ==> self.buffer@[j] == fondo,
        {
            self.buffer.set(i, fondo);
        }
    }

    /// Escribe un píxel que se sabe dentro de la rejilla.
    fn escribir(&mut self, x: usize, y: usize, color: u32)
        requires
            old(self).wf(),
            old(self).en_rejilla(x as int, y as int),
        ensures
            final(self).misma_forma(&*old(self)),
            forall|px: int, py: int|
                old(self).en_rejilla(px, py) ==> final(self).pixel(px, py) == if px == x && py
                    == y {
                    color
                } else {
                    old(self).pixel(px, py)
                },
    {
        let n = self.buffer.len();
        proof {
            lema_indice_en_rango(self.width as int, self.height as int, x as int, y as int);
        }
        self.buffer.set(y * self.width + x, color);
        proof {
            assert forall|px: int, py: int|
                old(self).en_rejilla(px, py) && !(px == x && py == y) implies self.pixel(px, py)
                == old(self).pixel(px, py) by {
                lema_indice_en_rango(self.width as int, self.height as int, px, py);
                if py * self.width + px == y * self.width + x {
                    lema_indice_inyectivo(self.width as int, px, py, x as int, y as int);
                }
            }
        }
    }

    /// Pinta un píxel con el color actual; fuera del buffer no hace nada.
    pub fn point(&mut self, x: usize, y: usize)
        requires
            old(self).wf(),
        ensures
            final(self).misma_forma(&*old(self)),
            forall|px: int, py: int|
                old(self).en_rejilla(px, py) ==> final(self).pixel(px, py) == if px == x && py
                    == y {
                    old(self).color_actual()
                } else {
                    old(self).pixel(px, py)
                },
    {
        if x < self.width && y < self.height {
            let color = self.current_color;
            self.escribir(x, y, color);
        }
    }

    /// Rellena un rectángulo, recortado contra el buffer.
    ///
    /// Lo que cae fuera de la rejilla se descarta: un rectángulo pegado al
    /// borde se corta en vez de desbordar.
    pub fn fill_rect(&mut self, x: usize, y: usize, ancho: usize, alto: usize, color: u32)
        requires
            old(self).wf(),
        ensures
            final(self).misma_forma(&*old(self)),
            forall|px: int, py: int|
                old(self).en_rejilla(px, py) ==> final(self).pixel(px, py) == if en_rect(
                    x as int,
                    y as int,
                    ancho as int,
                    alto as int,
                    px,
                    py,
                ) {
                    color
                } else {
                    old(self).pixel(px, py)
                },
    {
        if x >= self.width || y >= self.height {
            return;
        }
        let x_fin = if ancho <= self.width - x {
            x + ancho
        } else {
            self.width
        };
        let y_fin = if alto <= self.height - y {
            y + alto
        } else {
            self.height
        };
        let ghost inicial = *self;
        let mut py = y;
        while py < y_fin
            invariant
                y <= py <= y_fin <= self.height,
                x <= x_fin <= self.width,
                x_fin == self.width || x_fin == x + ancho,
                x_fin <= x + ancho,
                y_fin == self.height || y_fin == y + alto,
                y_fin <= y + alto,
                self.wf(),
                self.misma_forma(&inicial),
                self.width == inicial.width,
                self.height == inicial.height,
                inicial.wf(),
                forall|qx: int, qy: int|
                    inicial.en_rejilla(qx, qy) ==> self.pixel(qx, qy) == if x <= qx < x_fin && y
                        <= qy < py {
                        color
                    } else {
                        inicial.pixel(qx, qy)
                    },
            decreases y_fin - py,
        {
            let mut px = x;
            while px < x_fin
                invariant
                    y <= py < y_fin <= self.height,
                    x <= px <= x_fin <= self.width,
                    self.wf(),
                    self.misma_forma(&inicial),
                    self.width == inicial.width,
                    self.height == inicial.height,
                    inicial.wf(),
                    forall|qx: int, qy: int|
                        inicial.en_rejilla(qx, qy) ==> self.pixel(qx, qy) == if (x <= qx < x_fin
                            && y <= qy < py) || (qy == py && x <= qx < px) {
                            color
                        } else {
                            inicial.pixel(qx, qy)
                        },
                decreases x_fin - px,
            {
                self.escribir(px, py, color);
                px = px + 1;
            }
            py = py + 1;
        }
    }

    /// Dibuja el marco de un píxel de grosor de un rectángulo, recortado
    /// contra el buffer.
    pub fn stroke_rect(&mut self, x: usize, y: usize, ancho: usize, alto: usize, color: u32)
        requires
            old(self).wf(),
        ensures
            final(self).misma_forma(&*old(self)),
            forall|px: int, py: int|
                old(self).en_rejilla(px, py) ==> final(self).pixel(px, py) == if en_marco(
                    x as int,
                    y as int,
                    ancho as int,
                    alto as int,
                    px,
                    py,
                ) {
                    color
                } else {
                    old(self).pixel(px, py)
                },
    {
        if ancho == 0 || alto == 0 {
            return;
        }
        let ghost inicial = *self;
        // Arriba y a la izquierda: siempre representables.
        self.fill_rect(x, y, ancho, 1, color);
        self.fill_rect(x, y, 1, alto, color);
        // Abajo y a la derecha: si la coordenada no cabe en `usize`, cae
        // fuera de cualquier buffer y no hay nada que dibujar.
        if alto - 1 <= usize::MAX - y {
            self.fill_rect(x, y + (alto - 1), ancho, 1, color);
        }
        if ancho - 1 <= usize::MAX - x {
            self.fill_rect(x + (ancho - 1), y, 1, alto, color);
        }
    }

    pub fn set_background_color(&mut self, color: u32)
        ensures
            final(self).ancho() == old(self).ancho(),
            final(self).alto() == old(self).alto(),
            final(self).pixeles() == old(self).pixeles(),
            final(self).color_actual() == old(self).color_actual(),
            final(self).color_de_fondo() == color,
    {
        self.background_color = color;
    }

    pub fn set_current_color(&mut self, color: u32)
        ensures
            final(self).ancho() == old(self).ancho(),
            final(self).alto() == old(self).alto(),
            final(self).pixeles() == old(self).pixeles(),
            final(self).color_de_fondo() == old(self).color_de_fondo(),
            final(self).color_actual() == color,
    {
        self.current_color = color;
    }
}

impl Framebuffer {
    /// Copia un framebuffer sobre este, escalándolo por vecino más cercano.
    ///
    /// Funciona con cualquier proporción entre origen y destino. Con alguna
    /// dimensión nula no hace nada.
    pub fn blit_upscaled(&mut self, origen: &Framebuffer)
        requires
            old(self).wf(),
            origen.wf(),
            old(self).alto() == 0 || (old(self).alto() - 1) * origen.alto() <= usize::MAX,
            old(self).ancho() == 0 || (old(self).ancho() - 1) * origen.ancho() <= usize::MAX,
        ensures
            final(self).misma_forma(&*old(self)),
            old(self).ancho() == 0 || old(self).alto() == 0 || origen.ancho() == 0
                || origen.alto() == 0 ==> final(self).pixeles() == old(self).pixeles(),
            old(self).ancho() > 0 && old(self).alto() > 0 && origen.ancho() > 0 && origen.alto()
                > 0 ==> forall|px: int, py: int|
                old(self).en_rejilla(px, py) ==> final(self).pixel(px, py) == origen.pixel(
                    pixel_fuente(px, old(self).ancho(), origen.ancho()),
                    pixel_fuente(py, old(self).alto(), origen.alto()),
                ),
    {
        if origen.width == 0 || origen.height == 0 || self.width == 0 || self.height == 0 {
            return;
        }
        let ghost inicial = *self;
        let on = origen.buffer.len();
        let mut y: usize = 0;
        while y < self.height
            invariant
                0 <= y <= self.height,
                self.wf(),
                origen.wf(),
                on == origen.buffer@.len(),
                self.misma_forma(&inicial),
                self.width == inicial.width,
                self.height == inicial.height,
                self.width > 0,
                origen.width > 0,
                origen.height > 0,
                (self.height - 1) * origen.height <= usize::MAX,
                (self.width - 1) * origen.width <= usize::MAX,
                forall|qx: int, qy: int|
                    inicial.en_rejilla(qx, qy) ==> self.pixel(qx, qy) == if qy < y {
                        origen.pixel(
                            pixel_fuente(qx, self.width as int, origen.width as int),
                            pixel_fuente(qy, self.height as int, origen.height as int),
                        )
                    } else {
                        inicial.pixel(qx, qy)
                    },
            decreases self.height - y,
        {
            assert(y * origen.height <= (self.height - 1) * origen.height) by (nonlinear_arith)
                requires
                    y <= self.height - 1,
                    0 <= origen.height,
            ;
            let fuente_y = source_pixel(y, self.height, origen.height);
            let mut x: usize = 0;
            while x < self.width
                invariant
                    0 <= x <= self.width,
                    0 <= y < self.height,
                    fuente_y < origen.height,
                    fuente_y == pixel_fuente(y as int, self.height as int, origen.height as int),
                    self.wf(),
                    origen.wf(),
                    on == origen.buffer@.len(),
                    self.misma_forma(&inicial),
                    self.width == inicial.width,
                    self.height == inicial.height,
                    origen.width > 0,
                    origen.height > 0,
                    (self.width - 1) * origen.width <= usize::MAX,
                    forall|qx: int, qy: int|
                        inicial.en_rejilla(qx, qy) ==> self.pixel(qx, qy) == if qy < y || (qy == y
                            && qx < x) {
                            origen.pixel(
                                pixel_fuente(qx, self.width as int, origen.width as int),
                                pixel_fuente(qy, self.height as int, origen.height as int),
                            )
                        } else {
                            inicial.pixel(qx, qy)
                        },
                decreases self.width - x,
            {
                assert(x * origen.width <= (self.width - 1) * origen.width) by (nonlinear_arith)
                    requires
                        x <= self.width - 1,
                        0 <= origen.width,
                ;
                let fuente_x = source_pixel(x, self.width, origen.width);
                proof {
                    lema_indice_en_rango(
                        origen.width as int,
                        origen.height as int,
                        fuente_x as int,
                        fuente_y as int,
                    );
                }
                let valor = origen.buffer[fuente_y * origen.width + fuente_x];
                self.escribir(x, y, valor);
                x = x + 1;
            }
            y = y + 1;
        }
    }
}

impl Framebuffer {
    /// Los píxeles como bytes RGB, tres por píxel y en el orden del buffer:
    /// lo que se escribe en un PNG. El canal alfa se descarta, porque el
    /// diorama es opaco.
    pub fn bytes_rgb(&self) -> (v: Vec<u8>)
        requires
            3 * self.pixeles().len() <= usize::MAX,
        ensures
            v@.len() == 3 * self.pixeles().len(),
            forall|i: int|
                0 <= i < self.pixeles().len() ==> {
                    let (r, g, b) = canales_de(#[trigger] self.pixeles()[i]);
                    &&& v@[3 * i] == r
                    &&& v@[3 * i + 1] == g
                    &&& v@[3 * i + 2] == b
                },
    {
        let mut v: Vec<u8> = Vec::new();
        let mut i: usize = 0;
        while i < self.buffer.len()
            invariant
                0 <= i <= self.buffer@.len(),
                self.buffer@ == self.pixeles(),
                3 * self.buffer@.len() <= usize::MAX,
                v@.len() == 3 * i,
                forall|j: int|
                    0 <= j < i ==> {
                        let (r, g, b) = canales_de(#[trigger] self.buffer@[j]);
                        &&& v@[3 * j] == r
                        &&& v@[3 * j + 1] == g
                        &&& v@[3 * j + 2] == b
                    },
            decreases self.buffer@.len() - i,
        {
            let (r, g, b) = canales(self.buffer[i]);
            v.push(r);
            v.push(g);
            v.push(b);
            i = i + 1;
        }
        v
    }
}

} // verus!
