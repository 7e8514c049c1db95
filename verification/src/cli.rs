//! Línea de órdenes del render sin ventana.
//!
//! El binario lee los argumentos y este módulo decide qué piden: qué
//! escena, a qué tamaño, qué se pinta y dónde se escribe. Los ángulos y el
//! progreso de pintura son números reales: el binario dice, de cada
//! argumento, si es un real válido, y aquí se conserva el texto, que el
//! binario convierte.

use vstd::prelude::*;
use crate::renderer::Shading;
use crate::scene::RevealGroup;

verus! {

/// Un carácter es un dígito ASCII.
pub open spec fn es_digito(c: char) -> bool {
    '0' <= c <= '9'
}

/// El valor decimal de una cadena de dígitos.
pub open spec fn valor_decimal(s: Seq<char>) -> nat
    decreases s.len(),
{
    if s.len() == 0 {
        0
    } else {
        valor_decimal(s.drop_last()) * 10 + ((s.last() as int) - ('0' as int)) as nat
    }
}

/// El entero sin signo que escribe `s`: un `+` opcional y uno o más dígitos
/// ASCII, sin espacios, cuyo valor cabe en `usize`.
pub open spec fn entero_de(s: Seq<char>) -> Option<usize> {
    let d = if s.len() > 0 && s[0] == '+' {
        s.drop_first()
    } else {
        s
    };
    if d.len() > 0 && (forall|i: int| 0 <= i < d.len() ==> es_digito(#[trigger] d[i]))
        && valor_decimal(d) <= usize::MAX {
        Some(valor_decimal(d) as usize)
    } else {
        None
    }
}

/// El texto que `{:?}` escribe para la cadena `s`: entre comillas y con
/// los caracteres especiales escapados.
pub uninterp spec fn texto_citado(s: Seq<char>) -> Seq<char>;

/// Lee un entero sin signo con `str::parse::<usize>`.
///
/// Su documentación dice lo que acepta: un `+` opcional seguido de dígitos
/// decimales ASCII, sin espacios, y un valor que quepa en el tipo. Eso es
/// lo que afirma el contrato.
#[verifier::external_body]
fn leer_entero(valor: &str) -> (r: Option<usize>)
    ensures
        r == entero_de(valor@),
{
    valor.parse::<usize>().ok()
}

/// El texto con el que `format!("{:?}")` cita una cadena.
///
/// El contrato solo afirma que es función de la cadena; las reglas de
/// escape de `Debug` quedan sin escribir.
#[verifier::external_body]
fn citar(valor: &str) -> (r: String)
    ensures
        r@ == texto_citado(valor@),
{
    format!("{valor:?}")
}

/// ¿Dicen lo mismo las dos cadenas?
fn mismo_texto(a: &str, b: &str) -> (r: bool)
    ensures
        r == (a@ == b@),
{
    let x = a.as_bytes();
    let y = b.as_bytes();
    proof {
        vstd::utf8::encode_utf8_decode_utf8(a@);
        vstd::utf8::encode_utf8_decode_utf8(b@);
    }
    if x.len() != y.len() {
        return false;
    }
    let mut i: usize = 0;
    while i < x.len()
        invariant
            0 <= i <= x@.len(),
            x@.len() == y@.len(),
            x@ == vstd::utf8::encode_utf8(a@),
            y@ == vstd::utf8::encode_utf8(b@),
            forall|j: int| 0 <= j < i ==> x@[j] == y@[j],
        decreases x@.len() - i,
    {
        if x[i] != y[i] {
            return false;
        }
        i = i + 1;
    }
    proof {
        assert(x@ =~= y@);
    }
    true
}

/// Qué estado de revelación pidió la línea de órdenes.
#[derive(Debug, Clone)]
pub enum Revelacion {
    /// El mismo progreso en los cuatro grupos, como texto de un real.
    Global(String),
    /// Los grupos nombrados a `1.0`; el resto se queda en lienzo.
    PorRegion(Vec<RevealGroup>),
}

/// Lo que una `Revelacion` dice.
pub enum RevelacionV {
    Global(Seq<char>),
    PorRegion(Seq<RevealGroup>),
}

impl Revelacion {
    pub open spec fn vista(&self) -> RevelacionV {
        match self {
            Revelacion::Global(t) => RevelacionV::Global(t@),
            Revelacion::PorRegion(gs) => RevelacionV::PorRegion(gs@),
        }
    }
}

/// Nombre de un grupo en la línea de órdenes.
pub open spec fn nombre_de(grupo: RevealGroup) -> Seq<char> {
    match grupo {
        RevealGroup::Meadows => "meadows"@,
        RevealGroup::Breakwater => "breakwater"@,
        RevealGroup::FlyingWaters => "waters"@,
        RevealGroup::Finale => "finale"@,
    }
}

/// Los textos de `partes` separados por `", "`.
pub open spec fn unir(partes: Seq<Seq<char>>) -> Seq<char>
    decreases partes.len(),
{
    if partes.len() == 0 {
        Seq::empty()
    } else if partes.len() == 1 {
        partes[0]
    } else {
        unir(partes.drop_last()) + ", "@ + partes.last()
    }
}

/// Los nombres de todos los grupos, en su orden.
pub open spec fn nombres_de_grupos() -> Seq<Seq<char>> {
    seq![
        nombre_de(RevealGroup::Meadows),
        nombre_de(RevealGroup::Breakwater),
        nombre_de(RevealGroup::FlyingWaters),
        nombre_de(RevealGroup::Finale),
    ]
}

/// El grupo cuyo nombre es `valor`.
pub open spec fn grupo_de_nombre(valor: Seq<char>) -> Option<RevealGroup> {
    if valor == nombre_de(RevealGroup::Meadows) {
        Some(RevealGroup::Meadows)
    } else if valor == nombre_de(RevealGroup::Breakwater) {
        Some(RevealGroup::Breakwater)
    } else if valor == nombre_de(RevealGroup::FlyingWaters) {
        Some(RevealGroup::FlyingWaters)
    } else if valor == nombre_de(RevealGroup::Finale) {
        Some(RevealGroup::Finale)
    } else {
        None
    }
}

impl Revelacion {
    /// Nombre de un grupo en la línea de órdenes: `waters` y no
    /// `flying_waters` porque es lo que se teclea.
    pub fn nombre(grupo: RevealGroup) -> (r: &'static str)
        ensures
            r@ == nombre_de(grupo),
    {
        match grupo {
            RevealGroup::Meadows => "meadows",
            RevealGroup::Breakwater => "breakwater",
            RevealGroup::FlyingWaters => "waters",
            RevealGroup::Finale => "finale",
        }
    }

    /// El grupo que nombra `valor`, o un error que lista los válidos.
    pub fn grupo(valor: &str) -> (r: Result<RevealGroup, String>)
        ensures
            match r {
                Ok(g) => grupo_de_nombre(valor@) == Some(g),
                Err(m) => grupo_de_nombre(valor@) is None && m@ == "--paint no conoce "@
                    + texto_citado(valor@) + "; los grupos son "@ + unir(nombres_de_grupos()),
            },
    {
        let mut k: usize = 0;
        while k < RevealGroup::COUNT
            invariant
                0 <= k <= RevealGroup::COUNT,
                forall|j: int| 0 <= j < k ==> nombre_de(#[trigger] RevealGroup::ALL[j]) != valor@,
            decreases RevealGroup::COUNT - k,
        {
            let g = RevealGroup::ALL[k];
            if mismo_texto(Self::nombre(g), valor) {
                return Ok(g);
            }
            k = k + 1;
        }
        let mut mensaje = "--paint no conoce ".to_owned();
        let citado = citar(valor);
        mensaje.append(citado.as_str());
        mensaje.append("; los grupos son ");
        let ghost base = mensaje@;
        let mut validos = String::new();
        let mut j: usize = 0;
        while j < RevealGroup::COUNT
            invariant
                0 <= j <= RevealGroup::COUNT,
                validos@ == unir(nombres_de_grupos().subrange(0, j as int)),
            decreases RevealGroup::COUNT - j,
        {
            if j > 0 {
                validos.append(", ");
            }
            validos.append(Self::nombre(RevealGroup::ALL[j]));
            proof {
                let partes = nombres_de_grupos().subrange(0, j + 1);
                assert(partes.drop_last() == nombres_de_grupos().subrange(0, j as int));
                assert(partes.last() == nombre_de(RevealGroup::ALL[j as int]));
                if j == 0 {
                    assert(partes.len() == 1);
                }
            }
            j = j + 1;
        }
        proof {
            assert(nombres_de_grupos().subrange(0, 4) == nombres_de_grupos());
        }
        mensaje.append(validos.as_str());
        Err(mensaje)
    }
}

/// El mensaje de un número mal escrito.
pub open spec fn mensaje_de_numero(bandera: Seq<char>, valor: Seq<char>) -> Seq<char> {
    bandera + " espera un entero, no "@ + texto_citado(valor)
}

/// Lee el entero de una bandera, o un error que dice qué bandera lo
/// esperaba y qué se recibió.
pub fn numero(bandera: &str, valor: &str) -> (r: Result<usize, String>)
    ensures
        match r {
            Ok(n) => entero_de(valor@) == Some(n),
            Err(m) => entero_de(valor@) is None && m@ == mensaje_de_numero(bandera@, valor@),
        },
{
    match leer_entero(valor) {
        Some(n) => Ok(n),
        None => {
            let mut mensaje = bandera.to_owned();
            mensaje.append(" espera un entero, no ");
            let citado = citar(valor);
            mensaje.append(citado.as_str());
            Err(mensaje)
        },
    }
}

/// Las opciones del render sin ventana.
#[derive(Debug, Clone)]
pub struct Opciones {
    pub preset: String,
    pub width: usize,
    pub height: usize,
    /// `None` significa el ángulo propio del preset. Texto de un real.
    pub yaw: Option<String>,
    /// `None` usa la elevación orbital estándar. Texto de un real.
    pub elevation: Option<String>,
    /// Repeticiones cronometradas. Una sola pasada no es una medición.
    pub benchmark: usize,
    /// Con texturas por defecto; se pueden desactivar para comparar.
    pub texturas: bool,
    /// Qué se pinta y cuánto.
    pub revelacion: Revelacion,
    pub shading: Shading,
    /// Ruta del PNG de salida.
    pub output: String,
}

/// Lo que unas `Opciones` dicen.
pub struct OpcionesV {
    pub preset: Seq<char>,
    pub width: usize,
    pub height: usize,
    pub yaw: Option<Seq<char>>,
    pub elevation: Option<Seq<char>>,
    pub benchmark: usize,
    pub texturas: bool,
    pub revelacion: RevelacionV,
    pub shading: Shading,
    pub output: Seq<char>,
}

/// El texto de una opción de texto, si la hay.
pub open spec fn vista_de_texto(t: Option<String>) -> Option<Seq<char>> {
    match t {
        Some(s) => Some(s@),
        None => None,
    }
}

impl Opciones {
    pub open spec fn vista(&self) -> OpcionesV {
        OpcionesV {
            preset: self.preset@,
            width: self.width,
            height: self.height,
            yaw: vista_de_texto(self.yaw),
            elevation: vista_de_texto(self.elevation),
            benchmark: self.benchmark,
            texturas: self.texturas,
            revelacion: self.revelacion.vista(),
            shading: self.shading,
            output: self.output@,
        }
    }
}

/// Sin banderas: el blockout a `800 × 600`, con texturas, todo pintado, y
/// la imagen en la ruta de evidencia de siempre.
pub open spec fn opciones_por_defecto() -> OpcionesV {
    OpcionesV {
        preset: "blockout"@,
        width: 800,
        height: 600,
        yaw: None,
        elevation: None,
        benchmark: 1,
        texturas: true,
        revelacion: RevelacionV::Global("1"@),
        shading: Shading::Material,
        output: "evidence/renders/hero.png"@,
    }
}

impl Default for Opciones {
    fn default() -> (o: Self)
        ensures
            o.vista() == opciones_por_defecto(),
    {
        Opciones {
            preset: "blockout".to_owned(),
            width: 800,
            height: 600,
            yaw: None,
            elevation: None,
            benchmark: 1,
            texturas: true,
            revelacion: Revelacion::Global("1".to_owned()),
            shading: Shading::Material,
            output: "evidence/renders/hero.png".to_owned(),
        }
    }
}

/// Un paso de la lectura de los argumentos.
pub enum Paso {
    /// Se pidió la ayuda.
    Ayuda,
    /// La línea de órdenes no se entiende, por este motivo.
    Falla(Seq<char>),
    /// Lo leído hasta aquí.
    Estado(OpcionesV, Option<RevelacionV>),
}

pub open spec fn choque_de_reveal() -> Seq<char> {
    "--reveal y --paint no se combinan: uno pinta los cuatro grupos a la vez y el otro elige cuales"@
}

pub open spec fn choque_de_paint() -> Seq<char> {
    "--paint y --reveal no se combinan: uno elige que grupos se pintan y el otro los pinta todos"@
}

pub open spec fn mensaje_de_grupo(valor: Seq<char>) -> Seq<char> {
    "--paint no conoce "@ + texto_citado(valor) + "; los grupos son "@ + unir(nombres_de_grupos())
}

pub open spec fn mensaje_de_tamano() -> Seq<char> {
    "el ancho y el alto deben ser mayores que cero"@
}

/// El mayor de `n` y uno.
pub open spec fn al_menos_uno(n: usize) -> usize {
    if n >= 1 {
        n
    } else {
        1
    }
}

/// Lo que hace una bandera con su valor sobre lo leído hasta ahí.
/// `es_real` dice si el valor es el texto de un real.
pub open spec fn con_bandera(
    b: Seq<char>,
    valor: Seq<char>,
    es_real: bool,
    op: OpcionesV,
    rev: Option<RevelacionV>,
) -> Paso {
    if b == "--preset"@ {
        Paso::Estado(OpcionesV { preset: valor, ..op }, rev)
    } else if b == "--width"@ {
        match entero_de(valor) {
            Some(n) => Paso::Estado(OpcionesV { width: n, ..op }, rev),
            None => Paso::Falla(mensaje_de_numero(b, valor)),
        }
    } else if b == "--height"@ {
        match entero_de(valor) {
            Some(n) => Paso::Estado(OpcionesV { height: n, ..op }, rev),
            None => Paso::Falla(mensaje_de_numero(b, valor)),
        }
    } else if b == "--output"@ {
        Paso::Estado(OpcionesV { output: valor, ..op }, rev)
    } else if b == "--reveal"@ {
        if rev matches Some(RevelacionV::PorRegion(_)) {
            Paso::Falla(choque_de_reveal())
        } else if !es_real {
            Paso::Falla("--reveal espera 0..1, no "@ + texto_citado(valor))
        } else {
            Paso::Estado(op, Some(RevelacionV::Global(valor)))
        }
    } else if b == "--paint"@ {
        match grupo_de_nombre(valor) {
            None => Paso::Falla(mensaje_de_grupo(valor)),
            Some(g) => match rev {
                Some(RevelacionV::Global(_)) => Paso::Falla(choque_de_paint()),
                Some(RevelacionV::PorRegion(gs)) => if gs.contains(g) {
                    Paso::Falla("--paint "@ + valor + " esta repetido"@)
                } else {
                    Paso::Estado(op, Some(RevelacionV::PorRegion(gs.push(g))))
                },
                None => Paso::Estado(op, Some(RevelacionV::PorRegion(seq![g]))),
            },
        }
    } else if b == "--benchmark"@ {
        match entero_de(valor) {
            Some(n) => Paso::Estado(OpcionesV { benchmark: al_menos_uno(n), ..op }, rev),
            None => Paso::Falla(mensaje_de_numero(b, valor)),
        }
    } else if b == "--yaw"@ {
        if es_real {
            Paso::Estado(OpcionesV { yaw: Some(valor), ..op }, rev)
        } else {
            Paso::Falla("--yaw espera grados, no "@ + texto_citado(valor))
        }
    } else if b == "--elevation"@ {
        if es_real {
            Paso::Estado(OpcionesV { elevation: Some(valor), ..op }, rev)
        } else {
            Paso::Falla("--elevation espera grados, no "@ + texto_citado(valor))
        }
    } else if b == "--shading"@ {
        if valor == "material"@ {
            Paso::Estado(OpcionesV { shading: Shading::Material, ..op }, rev)
        } else if valor == "albedo"@ {
            Paso::Estado(OpcionesV { shading: Shading::Albedo, ..op }, rev)
        } else if valor == "normals"@ {
            Paso::Estado(OpcionesV { shading: Shading::Normals, ..op }, rev)
        } else {
            Paso::Falla("shading desconocido: "@ + valor)
        }
    } else {
        Paso::Falla("bandera desconocida: "@ + b)
    }
}

/// Lee los argumentos desde el `i`-ésimo: `--help` y `-h` piden la ayuda,
/// `--no-textures` va sola y toda otra bandera consume el argumento
/// siguiente como su valor.
pub open spec fn recorrer(
    args: Seq<Seq<char>>,
    reales: Seq<bool>,
    i: int,
    op: OpcionesV,
    rev: Option<RevelacionV>,
) -> Paso
    decreases args.len() - i,
{
    if i < 0 || i >= args.len() {
        Paso::Estado(op, rev)
    } else {
        let b = args[i];
        if b == "--help"@ || b == "-h"@ {
            Paso::Ayuda
        } else if b == "--no-textures"@ {
            recorrer(args, reales, i + 1, OpcionesV { texturas: false, ..op }, rev)
        } else if i + 1 >= args.len() {
            Paso::Falla(b + " necesita un valor"@)
        } else {
            match con_bandera(b, args[i + 1], reales[i + 1], op, rev) {
                Paso::Estado(op2, rev2) => recorrer(args, reales, i + 2, op2, rev2),
                otro => otro,
            }
        }
    }
}

/// Los nombres de las tres regiones que faltan en `gs`, de entre los `k`
/// primeros grupos.
pub open spec fn faltan_hasta(gs: Seq<RevealGroup>, k: int) -> Seq<Seq<char>>
    decreases k,
{
    if k <= 0 {
        Seq::empty()
    } else {
        let previos = faltan_hasta(gs, k - 1);
        let g = RevealGroup::ALL[k - 1];
        if g != RevealGroup::Finale && !gs.contains(g) {
            previos.push(nombre_de(g))
        } else {
            previos
        }
    }
}

/// El Monolito no se elige: pintar el finale exige nombrar las tres
/// regiones.
pub open spec fn mensaje_de_finale(faltan: Seq<Seq<char>>) -> Seq<char> {
    "--paint finale exige pintar antes "@ + unir(faltan)
        + ": el Monolito se revela al completarse el Continente, no se elige"@
}

/// Si se pide pintar el finale sin alguna de las tres regiones, cuáles
/// faltan.
pub open spec fn finale_sin_regiones(rev: Option<RevelacionV>) -> Option<Seq<Seq<char>>> {
    match rev {
        Some(RevelacionV::PorRegion(gs)) => if gs.contains(RevealGroup::Finale) && faltan_hasta(gs, 4).len()
            > 0 {
            Some(faltan_hasta(gs, 4))
        } else {
            None
        },
        _ => None,
    }
}

/// Lo que pide la línea de órdenes: la ayuda, unas opciones o un error.
pub open spec fn lectura(args: Seq<Seq<char>>, reales: Seq<bool>) -> Result<Option<OpcionesV>, Seq<char>> {
    match recorrer(args, reales, 0, opciones_por_defecto(), None) {
        Paso::Ayuda => Ok(None),
        Paso::Falla(m) => Err(m),
        Paso::Estado(op, rev) => {
            let op2 = match rev {
                Some(r) => OpcionesV { revelacion: r, ..op },
                None => op,
            };
            if let Some(faltan) = finale_sin_regiones(rev) {
                Err(mensaje_de_finale(faltan))
            } else if op2.width == 0 || op2.height == 0 {
                Err(mensaje_de_tamano())
            } else {
                Ok(Some(op2))
            }
        },
    }
}

/// Los textos de los argumentos.
pub open spec fn textos(args: Seq<String>) -> Seq<Seq<char>> {
    args.map_values(|s: String| s@)
}

/// Lo que dice una revelación pedida, si la hay.
pub open spec fn vista_de_revelacion(r: Option<Revelacion>) -> Option<RevelacionV> {
    match r {
        Some(x) => Some(x.vista()),
        None => None,
    }
}

/// ¿Está `g` entre los grupos?
fn contiene(grupos: &Vec<RevealGroup>, g: RevealGroup) -> (r: bool)
    ensures
        r == grupos@.contains(g),
{
    let mut i: usize = 0;
    while i < grupos.len()
        invariant
            0 <= i <= grupos@.len(),
            forall|j: int| 0 <= j < i ==> grupos@[j] != g,
        decreases grupos@.len() - i,
    {
        if grupos[i] == g {
            proof {
                assert(grupos@[i as int] == g);
            }
            return true;
        }
        i = i + 1;
    }
    false
}

/// Cuántas regiones faltan en `grupos` y sus nombres unidos por comas.
fn regiones_que_faltan(grupos: &Vec<RevealGroup>) -> (r: (usize, String))
    ensures
        r.0 == faltan_hasta(grupos@, 4).len(),
        r.1@ == unir(faltan_hasta(grupos@, 4)),
{
    let mut cuantas: usize = 0;
    let mut texto = String::new();
    let mut k: usize = 0;
    while k < RevealGroup::COUNT
        invariant
            0 <= k <= RevealGroup::COUNT,
            cuantas == faltan_hasta(grupos@, k as int).len(),
            texto@ == unir(faltan_hasta(grupos@, k as int)),
            cuantas <= k,
        decreases RevealGroup::COUNT - k,
    {
        let g = RevealGroup::ALL[k];
        if g != RevealGroup::Finale && !contiene(grupos, g) {
            if cuantas > 0 {
                texto.append(", ");
            }
            texto.append(Revelacion::nombre(g));
            proof {
                let previos = faltan_hasta(grupos@, k as int);
                let nuevos = faltan_hasta(grupos@, k + 1);
                assert(nuevos == previos.push(nombre_de(g)));
                assert(nuevos.drop_last() == previos);
            }
            cuantas = cuantas + 1;
        }
        k = k + 1;
    }
    (cuantas, texto)
}

/// Aplica una bandera con su valor sobre lo leído hasta ahí.
fn aplicar(
    bandera: &str,
    valor: &String,
    es_real: bool,
    opciones: &mut Opciones,
    revelacion: &mut Option<Revelacion>,
) -> (r: Result<(), String>)
    ensures
        match con_bandera(
            bandera@,
            valor@,
            es_real,
            old(opciones).vista(),
            vista_de_revelacion(*old(revelacion)),
        ) {
            Paso::Estado(op, rev) => r is Ok && final(opciones).vista() == op && vista_de_revelacion(
                *final(revelacion),
            ) == rev,
            Paso::Falla(m) => r matches Err(e) && e@ == m,
            Paso::Ayuda => false,
        },
{
    if mismo_texto(bandera, "--preset") {
        opciones.preset = valor.clone();
        Ok(())
    } else if mismo_texto(bandera, "--width") {
        opciones.width = numero(bandera, valor.as_str())?;
        Ok(())
    } else if mismo_texto(bandera, "--height") {
        opciones.height = numero(bandera, valor.as_str())?;
        Ok(())
    } else if mismo_texto(bandera, "--output") {
        opciones.output = valor.clone();
        Ok(())
    } else if mismo_texto(bandera, "--reveal") {
        if let Some(Revelacion::PorRegion(_)) = revelacion {
            return Err(
                "--reveal y --paint no se combinan: uno pinta los cuatro grupos a la vez y el otro elige cuales".to_owned(),
            );
        }
        if !es_real {
            let mut mensaje = "--reveal espera 0..1, no ".to_owned();
            let citado = citar(valor.as_str());
            mensaje.append(citado.as_str());
            return Err(mensaje);
        }
        *revelacion = Some(Revelacion::Global(valor.clone()));
        Ok(())
    } else if mismo_texto(bandera, "--paint") {
        let grupo = Revelacion::grupo(valor.as_str())?;
        let anterior = revelacion.take();
        match anterior {
            Some(Revelacion::Global(t)) => {
                *revelacion = Some(Revelacion::Global(t));
                Err(
                    "--paint y --reveal no se combinan: uno elige que grupos se pintan y el otro los pinta todos".to_owned(),
                )
            },
            Some(Revelacion::PorRegion(mut grupos)) => {
                if contiene(&grupos, grupo) {
                    let mut mensaje = "--paint ".to_owned();
                    mensaje.append(valor.as_str());
                    mensaje.append(" esta repetido");
                    *revelacion = Some(Revelacion::PorRegion(grupos));
                    return Err(mensaje);
                }
                grupos.push(grupo);
                *revelacion = Some(Revelacion::PorRegion(grupos));
                Ok(())
            },
            None => {
                let mut grupos: Vec<RevealGroup> = Vec::new();
                grupos.push(grupo);
                proof {
                    assert(grupos@ =~= seq![grupo]);
                }
                *revelacion = Some(Revelacion::PorRegion(grupos));
                Ok(())
            },
        }
    } else if mismo_texto(bandera, "--benchmark") {
        let n = numero(bandera, valor.as_str())?;
        opciones.benchmark = if n >= 1 {
            n
        } else {
            1
        };
        Ok(())
    } else if mismo_texto(bandera, "--yaw") {
        if !es_real {
            let mut mensaje = "--yaw espera grados, no ".to_owned();
            let citado = citar(valor.as_str());
            mensaje.append(citado.as_str());
            return Err(mensaje);
        }
        opciones.yaw = Some(valor.clone());
        Ok(())
    } else if mismo_texto(bandera, "--elevation") {
        if !es_real {
            let mut mensaje = "--elevation espera grados, no ".to_owned();
            let citado = citar(valor.as_str());
            mensaje.append(citado.as_str());
            return Err(mensaje);
        }
        opciones.elevation = Some(valor.clone());
        Ok(())
    } else if mismo_texto(bandera, "--shading") {
        let texto = valor.as_str();
        if mismo_texto(texto, "material") {
            opciones.shading = Shading::Material;
        } else if mismo_texto(texto, "albedo") {
            opciones.shading = Shading::Albedo;
        } else if mismo_texto(texto, "normals") {
            opciones.shading = Shading::Normals;
        } else {
            let mut mensaje = "shading desconocido: ".to_owned();
            mensaje.append(texto);
            return Err(mensaje);
        }
        Ok(())
    } else {
        let mut mensaje = "bandera desconocida: ".to_owned();
        mensaje.append(bandera);
        Err(mensaje)
    }
}

/// Lee la línea de órdenes: `Ok(None)` si se pidió la ayuda, las opciones
/// si se entiende, o el motivo por el que no.
///
/// `reales[i]` dice si el argumento `i` es el texto de un real; lo usan
/// `--reveal`, `--yaw` y `--elevation`.
pub fn parsear(args: &[String], reales: &[bool]) -> (r: Result<Option<Opciones>, String>)
    requires
        reales@.len() == args@.len(),
    ensures
        match (r, lectura(textos(args@), reales@)) {
            (Ok(None), Ok(None)) => true,
            (Ok(Some(o)), Ok(Some(v))) => o.vista() == v,
            (Err(e), Err(m)) => e@ == m,
            _ => false,
        },
{
    let ghost a = textos(args@);
    let mut opciones = Opciones::default();
    let mut revelacion: Option<Revelacion> = None;
    let mut i: usize = 0;
    while i < args.len()
        invariant
            0 <= i <= args@.len(),
            reales@.len() == args@.len(),
            a == textos(args@),
            recorrer(a, reales@, 0, opciones_por_defecto(), None) == recorrer(
                a,
                reales@,
                i as int,
                opciones.vista(),
                vista_de_revelacion(revelacion),
            ),
        decreases args@.len() - i,
    {
        let bandera = args[i].as_str();
        assert(bandera@ == a[i as int]);
        if mismo_texto(bandera, "--help") || mismo_texto(bandera, "-h") {
            return Ok(None);
        }
        if mismo_texto(bandera, "--no-textures") {
            opciones.texturas = false;
            i = i + 1;
            continue;
        }
        if i + 1 >= args.len() {
            let mut mensaje = bandera.to_owned();
            mensaje.append(" necesita un valor");
            return Err(mensaje);
        }
        assert(args@[i + 1]@ == a[i + 1]);
        match aplicar(bandera, &args[i + 1], reales[i + 1], &mut opciones, &mut revelacion) {
            Err(e) => {
                return Err(e);
            },
            Ok(()) => {},
        }
        i = i + 2;
    }
    let ghost rev = vista_de_revelacion(revelacion);
    if let Some(Revelacion::PorRegion(grupos)) = &revelacion {
        if contiene(grupos, RevealGroup::Finale) {
            let (cuantas, faltan) = regiones_que_faltan(grupos);
            if cuantas > 0 {
                let mut mensaje = "--paint finale exige pintar antes ".to_owned();
                mensaje.append(faltan.as_str());
                mensaje.append(": el Monolito se revela al completarse el Continente, no se elige");
                return Err(mensaje);
            }
        }
    }
    if let Some(pedida) = revelacion {
        opciones.revelacion = pedida;
    }
    if opciones.width == 0 || opciones.height == 0 {
        return Err("el ancho y el alto deben ser mayores que cero".to_owned());
    }
    Ok(Some(opciones))
}

/// Las escenas que el render sin ventana sabe montar.
#[derive(Debug, Clone, Copy, PartialEq, Eq, Structural)]
pub enum Preset {
    /// Nivel seguro con el volumen de agua real: el preset canónico.
    SafeRefractiveWater,
    /// Nivel seguro sin el volumen de agua: el interior de la bahía sin el
    /// coste de la refracción.
    SafeInteriorVisible,
    /// El mismo volumen con los techos ópticos en cero: control de
    /// oclusión, no de rendimiento.
    SafeOpaqueWater,
    /// La composición global del blockout, en grises.
    Blockout,
    /// Un cuboide centrado, para geometría y cámara.
    Cubo,
}

/// El preset que nombra `nombre` en `--preset`.
pub open spec fn preset_de(nombre: Seq<char>) -> Option<Preset> {
    if nombre == "safe-refractive-water"@ {
        Some(Preset::SafeRefractiveWater)
    } else if nombre == "safe-interior-visible"@ {
        Some(Preset::SafeInteriorVisible)
    } else if nombre == "safe-opaque-water"@ {
        Some(Preset::SafeOpaqueWater)
    } else if nombre == "blockout"@ {
        Some(Preset::Blockout)
    } else if nombre == "cubo"@ {
        Some(Preset::Cubo)
    } else {
        None
    }
}

/// El preset que nombra `nombre`, o el error que lo dice desconocido.
pub fn elegir_preset(nombre: &str) -> (r: Result<Preset, String>)
    ensures
        match r {
            Ok(p) => preset_de(nombre@) == Some(p),
            Err(m) => preset_de(nombre@) is None && m@ == "preset desconocido: "@ + nombre@,
        },
{
    if mismo_texto(nombre, "safe-refractive-water") {
        Ok(Preset::SafeRefractiveWater)
    } else if mismo_texto(nombre, "safe-interior-visible") {
        Ok(Preset::SafeInteriorVisible)
    } else if mismo_texto(nombre, "safe-opaque-water") {
        Ok(Preset::SafeOpaqueWater)
    } else if mismo_texto(nombre, "blockout") {
        Ok(Preset::Blockout)
    } else if mismo_texto(nombre, "cubo") {
        Ok(Preset::Cubo)
    } else {
        let mut mensaje = "preset desconocido: ".to_owned();
        mensaje.append(nombre);
        Err(mensaje)
    }
}

/// `--shading` elige el sombreado por su nombre: `material` la iluminación
/// completa, `albedo` el color plano y `normals` la vista de normales. Solo
/// cambia el sombreado; cualquier otro nombre es un error que lo cita.
pub proof fn ley_shading_elige_por_nombre(
    valor: Seq<char>,
    es_real: bool,
    op: OpcionesV,
    rev: Option<RevelacionV>,
)
    ensures
        valor == "material"@ ==> con_bandera("--shading"@, valor, es_real, op, rev) == Paso::Estado(
            OpcionesV { shading: Shading::Material, ..op },
            rev,
        ),
        valor == "albedo"@ ==> con_bandera("--shading"@, valor, es_real, op, rev) == Paso::Estado(
            OpcionesV { shading: Shading::Albedo, ..op },
            rev,
        ),
        valor == "normals"@ ==> con_bandera("--shading"@, valor, es_real, op, rev) == Paso::Estado(
            OpcionesV { shading: Shading::Normals, ..op },
            rev,
        ),
        valor != "material"@ && valor != "albedo"@ && valor != "normals"@ ==> con_bandera(
            "--shading"@,
            valor,
            es_real,
            op,
            rev,
        ) == Paso::Falla("shading desconocido: "@ + valor),
{
    reveal_strlit("--shading");
    reveal_strlit("--preset");
    reveal_strlit("--width");
    reveal_strlit("--height");
    reveal_strlit("--output");
    reveal_strlit("--reveal");
    reveal_strlit("--paint");
    reveal_strlit("--benchmark");
    reveal_strlit("--yaw");
    reveal_strlit("--elevation");
    reveal_strlit("material");
    reveal_strlit("albedo");
    reveal_strlit("normals");
    assert("--shading"@ != "--preset"@) by {
        assert("--shading"@.len() != "--preset"@.len());
    }
    assert("--shading"@ != "--width"@) by {
        assert("--shading"@.len() != "--width"@.len());
    }
    assert("--shading"@ != "--height"@) by {
        assert("--shading"@.len() != "--height"@.len());
    }
    assert("--shading"@ != "--output"@) by {
        assert("--shading"@.len() != "--output"@.len());
    }
    assert("--shading"@ != "--reveal"@) by {
        assert("--shading"@.len() != "--reveal"@.len());
    }
    assert("--shading"@ != "--paint"@) by {
        assert("--shading"@.len() != "--paint"@.len());
    }
    assert("--shading"@ != "--benchmark"@) by {
        assert("--shading"@.len() != "--benchmark"@.len());
    }
    assert("--shading"@ != "--yaw"@) by {
        assert("--shading"@.len() != "--yaw"@.len());
    }
    assert("--shading"@ != "--elevation"@) by {
        assert("--shading"@.len() != "--elevation"@.len());
    }
    assert("material"@ != "albedo"@) by {
        assert("material"@.len() != "albedo"@.len());
    }
    assert("material"@ != "normals"@) by {
        assert("material"@.len() != "normals"@.len());
    }
    assert("albedo"@ != "normals"@) by {
        assert("albedo"@.len() != "normals"@.len());
    }
}

/// Los nombres de los grupos van y vuelven: el nombre de cada grupo lee
/// ese mismo grupo, así que la ayuda, la lectura y la salida no pueden
/// discrepar.
pub proof fn ley_los_nombres_de_grupo_van_y_vuelven(g: RevealGroup)
    ensures
        grupo_de_nombre(nombre_de(g)) == Some(g),
{
    reveal_strlit("meadows");
    reveal_strlit("breakwater");
    reveal_strlit("waters");
    reveal_strlit("finale");
    assert("meadows"@ != "breakwater"@) by {
        assert("meadows"@.len() != "breakwater"@.len());
    }
    assert("meadows"@ != "waters"@) by {
        assert("meadows"@[0] != "waters"@[0]);
    }
    assert("meadows"@ != "finale"@) by {
        assert("meadows"@.len() != "finale"@.len());
    }
    assert("breakwater"@ != "waters"@) by {
        assert("breakwater"@.len() != "waters"@.len());
    }
    assert("breakwater"@ != "finale"@) by {
        assert("breakwater"@.len() != "finale"@.len());
    }
    assert("waters"@ != "finale"@) by {
        assert("waters"@[0] != "finale"@[0]);
    }
}

/// Lo leído hasta ahora es coherente: al menos una pasada, la revelación
/// por defecto hasta el final de la lectura, y la lista de regiones a
/// pintar no repite ninguna.
pub open spec fn coherente(op: OpcionesV, rev: Option<RevelacionV>) -> bool {
    &&& op.benchmark >= 1
    &&& op.revelacion is Global
    &&& (rev matches Some(RevelacionV::PorRegion(gs)) ==> gs.no_duplicates())
}

/// Una bandera aceptada conserva la coherencia.
proof fn lema_con_bandera_coherente(
    b: Seq<char>,
    valor: Seq<char>,
    es_real: bool,
    op: OpcionesV,
    rev: Option<RevelacionV>,
)
    requires
        coherente(op, rev),
    ensures
        con_bandera(b, valor, es_real, op, rev) matches Paso::Estado(op2, rev2) ==> coherente(op2, rev2),
{
    if b == "--paint"@ {
        if let Some(g) = grupo_de_nombre(valor) {
            if let Some(RevelacionV::PorRegion(gs)) = rev {
                if !gs.contains(g) {
                    let nuevos = gs.push(g);
                    assert forall|i: int, j: int|
                        0 <= i < nuevos.len() && 0 <= j < nuevos.len() && i != j implies nuevos[i]
                        != nuevos[j] by {
                        if i == nuevos.len() - 1 {
                            assert(nuevos[j] == gs[j]);
                        } else if j == nuevos.len() - 1 {
                            assert(nuevos[i] == gs[i]);
                        }
                    }
                }
            }
        }
    }
}

/// Recorrer los argumentos desde lo coherente llega a lo coherente.
proof fn lema_recorrer_coherente(
    args: Seq<Seq<char>>,
    reales: Seq<bool>,
    i: int,
    op: OpcionesV,
    rev: Option<RevelacionV>,
)
    requires
        coherente(op, rev),
        reales.len() == args.len(),
    ensures
        recorrer(args, reales, i, op, rev) matches Paso::Estado(op2, rev2) ==> coherente(op2, rev2),
    decreases args.len() - i,
{
    if 0 <= i < args.len() {
        let b = args[i];
        if b == "--help"@ || b == "-h"@ {
        } else if b == "--no-textures"@ {
            lema_recorrer_coherente(args, reales, i + 1, OpcionesV { texturas: false, ..op }, rev);
        } else if i + 1 < args.len() {
            lema_con_bandera_coherente(b, args[i + 1], reales[i + 1], op, rev);
            if let Paso::Estado(op2, rev2) = con_bandera(b, args[i + 1], reales[i + 1], op, rev) {
                lema_recorrer_coherente(args, reales, i + 2, op2, rev2);
            }
        }
    }
}

/// Si no falta ninguna región entre los `k` primeros grupos, cada uno de
/// ellos que no sea el finale está pedido.
proof fn lema_no_falta_ninguna(gs: Seq<RevealGroup>, k: int)
    requires
        0 <= k <= 4,
        faltan_hasta(gs, k).len() == 0,
    ensures
        forall|j: int|
            0 <= j < k && RevealGroup::ALL[j] != RevealGroup::Finale ==> gs.contains(
                #[trigger] RevealGroup::ALL[j],
            ),
    decreases k,
{
    if k > 0 {
        lema_no_falta_ninguna(gs, k - 1);
    }
}

/// Unas opciones que se pueden ejecutar: una imagen de ancho y alto
/// positivos, al menos una pasada, ninguna región pintada dos veces y, si
/// se pinta el finale, también las tres regiones.
pub open spec fn ejecutables(o: OpcionesV) -> bool {
    &&& o.width > 0
    &&& o.height > 0
    &&& o.benchmark >= 1
    &&& match o.revelacion {
        RevelacionV::PorRegion(gs) => {
            &&& gs.no_duplicates()
            &&& (gs.contains(RevealGroup::Finale) ==> {
                &&& gs.contains(RevealGroup::Meadows)
                &&& gs.contains(RevealGroup::Breakwater)
                &&& gs.contains(RevealGroup::FlyingWaters)
            })
        },
        RevelacionV::Global(_) => true,
    }
}

/// Todo lo que la línea de órdenes acepta se puede ejecutar: en particular,
/// el Monolito no se elige, se revela al completarse el Continente.
pub proof fn ley_lo_aceptado_es_ejecutable(args: Seq<Seq<char>>, reales: Seq<bool>)
    requires
        reales.len() == args.len(),
    ensures
        match lectura(args, reales) {
            Ok(Some(o)) => ejecutables(o),
            _ => true,
        },
{
    lema_recorrer_coherente(args, reales, 0, opciones_por_defecto(), None);
    if let Paso::Estado(op, rev) = recorrer(args, reales, 0, opciones_por_defecto(), None) {
        if let Some(RevelacionV::PorRegion(gs)) = rev {
            if gs.contains(RevealGroup::Finale) && finale_sin_regiones(rev) is None {
                assert(faltan_hasta(gs, 4).len() == 0);
                lema_no_falta_ninguna(gs, 4);
                assert(RevealGroup::ALL[0] == RevealGroup::Meadows);
                assert(RevealGroup::ALL[1] == RevealGroup::Breakwater);
                assert(RevealGroup::ALL[2] == RevealGroup::FlyingWaters);
            }
        }
    }
}

} // verus!
