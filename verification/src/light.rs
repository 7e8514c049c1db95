//! *Light linking*: qué grupos ilumina una luz y cuáles la bloquean.

use vstd::prelude::*;
use crate::scene::SpatialGroupId;

verus! {

/// Conjunto de grupos espaciales, como máscara de bits.
///
/// Una luz declara a qué grupos ilumina y qué grupos pueden bloquearla. Se
/// comprueba antes de evaluar la iluminación y antes de lanzar el rayo de
/// sombra, así que un grupo excluido no cuesta nada.
#[derive(Debug, Clone, Copy, PartialEq, Eq, Structural)]
pub struct GroupMask(u8);

/// El bit de un grupo.
pub open spec fn bit_de(g: SpatialGroupId) -> u8 {
    1u8 << (g.posicion() as u8)
}

proof fn lema_bits(b: u8, i: u8, j: u8)
    requires
        i < 7,
        j < 7,
    ensures
        (b | (1u8 << i)) & (1u8 << j) != 0 <==> (b & (1u8 << j) != 0 || i == j),
        (0u8 & (1u8 << j)) == 0,
        (0b0111_1111u8 & (1u8 << j)) != 0,
        b < 0x80 ==> (b | (1u8 << i)) < 0x80,
{
    assert(b < 0x80 ==> (b | (1u8 << i)) < 0x80) by (bit_vector)
        requires
            i < 7,
    ;
    assert((b | (1u8 << i)) & (1u8 << j) != 0 <==> (b & (1u8 << j) != 0 || i == j))
        by (bit_vector)
        requires
            i < 7,
            j < 7,
    ;
    assert((0u8 & (1u8 << j)) == 0) by (bit_vector);
    assert((0b0111_1111u8 & (1u8 << j)) != 0) by (bit_vector)
        requires
            j < 7,
    ;
}

impl GroupMask {
    /// ¿El grupo `g` está en la máscara?
    pub closed spec fn incluye(self, g: SpatialGroupId) -> bool {
        self.0 & bit_de(g) != 0
    }

    /// El octavo bit, que no es de ningún grupo, está apagado.
    pub closed spec fn limpia(self) -> bool {
        self.0 < 0x80
    }

    /// Los siete grupos. Es el caso por defecto: una luz normal ilumina
    /// todo lo que alcanza.
    pub fn all() -> (m: GroupMask)
        ensures
            forall|g: SpatialGroupId| m.incluye(g),
            m.limpia(),
    {
        proof {
            assert forall|g: SpatialGroupId| GroupMask(0b0111_1111).incluye(g) by {
                lema_bits(0, 0, g.posicion() as u8);
            }
        }
        GroupMask(0b0111_1111)
    }

    /// Ningún grupo.
    pub fn none() -> (m: GroupMask)
        ensures
            forall|g: SpatialGroupId| !m.incluye(g),
            m.limpia(),
    {
        proof {
            assert forall|g: SpatialGroupId| !GroupMask(0).incluye(g) by {
                lema_bits(0, 0, g.posicion() as u8);
            }
        }
        GroupMask(0)
    }

    /// Exactamente los grupos nombrados.
    pub fn only(grupos: &[SpatialGroupId]) -> (m: Self)
        ensures
            forall|g: SpatialGroupId| m.incluye(g) <==> grupos@.contains(g),
            m.limpia(),
    {
        let mut bits: u8 = 0;
        let mut i: usize = 0;
        proof {
            assert forall|g: SpatialGroupId| !GroupMask(0).incluye(g) by {
                lema_bits(0, 0, g.posicion() as u8);
            }
        }
        while i < grupos.len()
            invariant
                0 <= i <= grupos@.len(),
                bits < 0x80,
                forall|g: SpatialGroupId|
                    GroupMask(bits).incluye(g) <==> grupos@.subrange(0, i as int).contains(g),
            decreases grupos@.len() - i,
        {
            let grupo = grupos[i];
            let indice = grupo.index();
            let nuevo = bits | (1u8 << (indice as u8));
            proof {
                lema_bits(bits, indice as u8, 0);
                assert forall|g: SpatialGroupId|
                    GroupMask(nuevo).incluye(g) <==> grupos@.subrange(0, i + 1).contains(g) by {
                    lema_bits(bits, indice as u8, g.posicion() as u8);
                    let antes = grupos@.subrange(0, i as int);
                    assert(grupos@.subrange(0, i + 1) == antes.push(grupo));
                    assert(antes.push(grupo).contains(g) <==> (antes.contains(g) || grupo == g)) by {
                        if antes.push(grupo).contains(g) && grupo != g {
                            let k = choose|k: int| 0 <= k < antes.len() + 1 && antes.push(grupo)[k] == g;
                            assert(antes[k] == g);
                        }
                        if antes.contains(g) {
                            let k = choose|k: int| 0 <= k < antes.len() && antes[k] == g;
                            assert(antes.push(grupo)[k] == g);
                        }
                        if grupo == g {
                            assert(antes.push(grupo)[antes.len() as int] == g);
                        }
                    }
                    assert(GroupMask(nuevo).incluye(g) == (nuevo & bit_de(g) != 0));
                    assert(GroupMask(bits).incluye(g) == (bits & bit_de(g) != 0));
                    assert((g.posicion() as u8 == indice as u8) <==> g == grupo);
                }
            }
            bits = nuevo;
            i = i + 1;
        }
        proof {
            assert(grupos@.subrange(0, grupos@.len() as int) == grupos@);
        }
        GroupMask(bits)
    }

    pub fn contains(self, grupo: SpatialGroupId) -> (r: bool)
        ensures
            r == self.incluye(grupo),
    {
        let indice = grupo.index();
        self.0 & (1u8 << (indice as u8)) != 0
    }
}

/// Una máscara es los grupos que incluye: dos máscaras construidas con
/// los mismos grupos son iguales, en el orden y con las repeticiones que
/// sean. En particular, `only` de una lista vacía es `none` y `only` de los
/// siete es `all`.
pub proof fn ley_una_mascara_es_sus_grupos(a: GroupMask, b: GroupMask)
    requires
        a.limpia(),
        b.limpia(),
        forall|g: SpatialGroupId| a.incluye(g) == b.incluye(g),
    ensures
        a == b,
{
    let x = a.0;
    let y = b.0;
    assert(a.incluye(SpatialGroupId::Global) == b.incluye(SpatialGroupId::Global));
    assert(a.incluye(SpatialGroupId::Continent) == b.incluye(SpatialGroupId::Continent));
    assert(a.incluye(SpatialGroupId::Meadows) == b.incluye(SpatialGroupId::Meadows));
    assert(a.incluye(SpatialGroupId::Breakwater) == b.incluye(SpatialGroupId::Breakwater));
    assert(a.incluye(SpatialGroupId::FlyingWaters) == b.incluye(SpatialGroupId::FlyingWaters));
    assert(a.incluye(SpatialGroupId::Monolith) == b.incluye(SpatialGroupId::Monolith));
    assert(a.incluye(SpatialGroupId::Props) == b.incluye(SpatialGroupId::Props));
    assert(x == y) by (bit_vector)
        requires
            x < 0x80,
            y < 0x80,
            (x & (1u8 << 0u8) != 0) == (y & (1u8 << 0u8) != 0),
            (x & (1u8 << 1u8) != 0) == (y & (1u8 << 1u8) != 0),
            (x & (1u8 << 2u8) != 0) == (y & (1u8 << 2u8) != 0),
            (x & (1u8 << 3u8) != 0) == (y & (1u8 << 3u8) != 0),
            (x & (1u8 << 4u8) != 0) == (y & (1u8 << 4u8) != 0),
            (x & (1u8 << 5u8) != 0) == (y & (1u8 << 5u8) != 0),
            (x & (1u8 << 6u8) != 0) == (y & (1u8 << 6u8) != 0),
    ;
}

/// Una máscara de un solo grupo contiene ese grupo y ningún otro: los siete
/// bits no colisionan.
pub proof fn ley_la_mascara_distingue_los_grupos(g: SpatialGroupId, h: SpatialGroupId, m: GroupMask)
    requires
        forall|x: SpatialGroupId| m.incluye(x) <==> seq![g].contains(x),
    ensures
        m.incluye(h) <==> g == h,
{
    if g == h {
        assert(seq![g][0] == h);
    }
}

/// Lo que decide el *light linking* de una luz puntual: si proyecta
/// sombras, a qué grupos ilumina y cuáles pueden bloquearla. La posición, el
/// color y la atenuación son números reales y quedan fuera de esta librería.
#[derive(Debug, Clone, Copy, PartialEq, Eq, Structural)]
pub struct LightLinks {
    pub casts_shadows: bool,
    /// Qué grupos ilumina.
    pub affected_groups: GroupMask,
    /// Qué grupos pueden bloquearla.
    pub occluder_groups: GroupMask,
}

impl LightLinks {
    /// ¿Esta luz ilumina a un objeto de ese grupo?
    ///
    /// Se consulta antes de evaluar nada: fuera de sus grupos la luz no
    /// cuesta ni el sombreado ni el rayo de sombra.
    pub fn affects(&self, grupo: SpatialGroupId) -> (r: bool)
        ensures
            r == self.affected_groups.incluye(grupo),
    {
        self.affected_groups.contains(grupo)
    }

    /// ¿Un objeto de ese grupo puede proyectar sombra de esta luz?
    ///
    /// Es un filtro separado del anterior a propósito: un grupo que la luz
    /// no ilumina puede seguir bloqueándola para los demás, y uno que
    /// ilumina puede no bloquearla.
    pub fn can_be_occluded_by(&self, grupo: SpatialGroupId) -> (r: bool)
        ensures
            r == (self.casts_shadows && self.occluder_groups.incluye(grupo)),
    {
        self.casts_shadows && self.occluder_groups.contains(grupo)
    }
}

/// El *light linking* de las tres luces del diorama, con el identificador
/// del inventario de cada una. Dónde están y cuánto iluminan se mide con
/// números reales contra la escala del blockout, fuera de esta librería.
///
/// - `L-01`, la luz principal cálida: ilumina todo y todo la bloquea.
/// - `L-02`, el azul de Aguas Voladoras: confinada a ese grupo, tanto para
///   iluminar como para dejarse bloquear.
/// - `L-03`, el acento del Monolito: ilumina todo y no proyecta sombras.
pub fn enlaces_del_diorama() -> (luces: [(&'static str, LightLinks); 3])
    ensures
        luces[0].0@ == "L-01"@,
        luces[0].1.casts_shadows,
        forall|g: SpatialGroupId| luces[0].1.affected_groups.incluye(g),
        forall|g: SpatialGroupId| luces[0].1.occluder_groups.incluye(g),
        luces[1].0@ == "L-02"@,
        luces[1].1.casts_shadows,
        forall|g: SpatialGroupId|
            luces[1].1.affected_groups.incluye(g) <==> g == SpatialGroupId::FlyingWaters,
        forall|g: SpatialGroupId|
            luces[1].1.occluder_groups.incluye(g) <==> g == SpatialGroupId::FlyingWaters,
        luces[2].0@ == "L-03"@,
        !luces[2].1.casts_shadows,
        forall|g: SpatialGroupId| luces[2].1.affected_groups.incluye(g),
        forall|g: SpatialGroupId| !luces[2].1.occluder_groups.incluye(g),
{
    let aguas = [SpatialGroupId::FlyingWaters];
    let solo_aguas_1 = GroupMask::only(&aguas);
    let solo_aguas_2 = GroupMask::only(&aguas);
    proof {
        assert forall|g: SpatialGroupId| aguas@.contains(g) <==> g == SpatialGroupId::FlyingWaters by {
            if g == SpatialGroupId::FlyingWaters {
                assert(aguas@[0] == g);
            }
        }
    }
    [
        (
            "L-01",
            LightLinks {
                casts_shadows: true,
                affected_groups: GroupMask::all(),
                occluder_groups: GroupMask::all(),
            },
        ),
        (
            "L-02",
            LightLinks {
                casts_shadows: true,
                affected_groups: solo_aguas_1,
                occluder_groups: solo_aguas_2,
            },
        ),
        (
            "L-03",
            LightLinks {
                casts_shadows: false,
                affected_groups: GroupMask::all(),
                occluder_groups: GroupMask::none(),
            },
        ),
    ]
}

} // verus!
