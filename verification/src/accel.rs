//! Estructura de aceleración: `escena → grupo → cluster → primitiva`.
//!
//! Aquí vive la parte combinatoria de la jerarquía: qué objetos caen en qué
//! cluster de qué grupo. Las cajas envolventes se calculan después sobre
//! esta partición, de abajo hacia arriba.
//!
//! La partición la declara el generador, no se deduce de la geometría: el
//! inventario fija cuántos clusters produce cada entrada. `ClusterPlan` es
//! el canal por el que un generador se lo comunica a la construcción.

use vstd::prelude::*;
use crate::scene::SpatialGroupId;

verus! {

/// Tope de clusters por grupo. La construcción rechaza una jerarquía que lo
/// exceda en vez de degradarse en silencio.
pub const MAX_CLUSTERS_PER_GROUP: usize = 16;

/// Partición en clusters declarada por los generadores.
///
/// Los objetos sin asignación explícita caen en el cluster `0`, que es el
/// caso correcto para las entradas compactas.
#[derive(Debug, Clone)]
pub struct ClusterPlan {
    asignaciones: Vec<u16>,
}

impl ClusterPlan {
    /// El cluster del objeto `i` según el plan.
    pub closed spec fn cluster_de(self, i: int) -> u16 {
        if 0 <= i < self.asignaciones@.len() {
            self.asignaciones@[i]
        } else {
            0
        }
    }

    /// Un plan sin asignaciones: todo cae en el cluster `0`.
    pub fn new() -> (p: Self)
        ensures
            forall|i: int| p.cluster_de(i) == 0,
    {
        ClusterPlan { asignaciones: Vec::new() }
    }

    /// Asigna un objeto a un cluster dentro de su grupo espacial.
    pub fn asignar(&mut self, object_index: usize, cluster: u16)
        requires
            object_index < usize::MAX,
        ensures
            forall|i: int|
                final(self).cluster_de(i) == if i == object_index {
                    cluster
                } else {
                    old(self).cluster_de(i)
                },
    {
        if self.asignaciones.len() <= object_index {
            self.asignaciones.resize(object_index + 1, 0);
            proof {
                assert forall|i: int| 0 <= i < self.asignaciones@.len() implies self.asignaciones@[i]
                    == old(self).cluster_de(i) by {
                    if i < old(self).asignaciones@.len() {
                        assert(self.asignaciones@.subrange(0, old(self).asignaciones@.len() as int)[i]
                            == self.asignaciones@[i]);
                    }
                }
            }
        }
        self.asignaciones.set(object_index, cluster);
    }

    pub fn cluster_of(&self, object_index: usize) -> (c: u16)
        ensures
            c == self.cluster_de(object_index as int),
    {
        if object_index < self.asignaciones.len() {
            self.asignaciones[object_index]
        } else {
            0
        }
    }
}

impl Default for ClusterPlan {
    /// Un plan sin asignaciones.
    fn default() -> (p: Self)
        ensures
            forall|i: int| p.cluster_de(i) == 0,
    {
        ClusterPlan::new()
    }
}

/// Contadores del recorrido: cuántas pruebas se hicieron en cada nivel.
#[derive(Debug, Clone, Copy, Default, PartialEq, Eq)]
pub struct TraversalStats {
    pub group_bounds_tests: usize,
    pub cluster_bounds_tests: usize,
    pub primitive_tests: usize,
}

/// Los objetos de un cluster: los de un grupo que comparten clave.
#[derive(Debug, Clone)]
pub struct ClusterIndices {
    pub id: u16,
    pub object_indices: Vec<usize>,
}

/// Los clusters de un grupo espacial, ordenados por clave.
#[derive(Debug, Clone)]
pub struct GroupClusters {
    pub id: SpatialGroupId,
    pub clusters: Vec<ClusterIndices>,
}

/// El objeto `i` pertenece al grupo `g` con la clave `k`.
pub open spec fn es_de(grupos: Seq<SpatialGroupId>, claves: Seq<u16>, g: SpatialGroupId, k: u16, i: int) -> bool {
    0 <= i < grupos.len() && grupos[i] == g && claves[i] == k
}

/// Las claves que usan los objetos del grupo `g`.
pub open spec fn claves_del_grupo(grupos: Seq<SpatialGroupId>, claves: Seq<u16>, g: SpatialGroupId) -> Set<u16> {
    Set::new(|k: u16| exists|i: int| es_de(grupos, claves, g, k, i))
}

/// Algún objeto es del grupo `g`.
pub open spec fn grupo_presente(grupos: Seq<SpatialGroupId>, g: SpatialGroupId) -> bool {
    exists|i: int| 0 <= i < grupos.len() && grupos[i] == g
}

/// Los objetos del cluster son exactamente los del grupo `g` con su clave,
/// en orden creciente.
pub open spec fn cluster_correcto(
    c: ClusterIndices,
    grupos: Seq<SpatialGroupId>,
    claves: Seq<u16>,
    g: SpatialGroupId,
) -> bool {
    &&& forall|a: int, b: int|
        0 <= a < b < c.object_indices@.len() ==> c.object_indices@[a] < c.object_indices@[b]
    &&& forall|i: int|
        c.object_indices@.contains(i as usize) && 0 <= i <= usize::MAX <==> es_de(grupos, claves, g, c.id, i)
}

/// Los clusters del grupo `g`: uno por clave usada, ordenados por clave,
/// cada uno con sus objetos.
pub open spec fn clusters_correctos(
    cs: Seq<ClusterIndices>,
    grupos: Seq<SpatialGroupId>,
    claves: Seq<u16>,
    g: SpatialGroupId,
) -> bool {
    &&& forall|a: int, b: int| 0 <= a < b < cs.len() ==> cs[a].id < cs[b].id
    &&& forall|k: u16|
        claves_del_grupo(grupos, claves, g).contains(k) <==> exists|j: int|
            0 <= j < cs.len() && #[trigger] cs[j].id == k
    &&& forall|j: int| 0 <= j < cs.len() ==> cluster_correcto(#[trigger] cs[j], grupos, claves, g)
}

/// La jerarquía: los grupos presentes en el orden de `ALL`, cada uno con
/// sus clusters.
pub open spec fn particion_correcta(v: Seq<GroupClusters>, grupos: Seq<SpatialGroupId>, claves: Seq<u16>) -> bool {
    &&& forall|a: int, b: int| 0 <= a < b < v.len() ==> v[a].id.posicion() < v[b].id.posicion()
    &&& forall|g: SpatialGroupId|
        grupo_presente(grupos, g) <==> exists|j: int| 0 <= j < v.len() && #[trigger] v[j].id == g
    &&& forall|j: int| 0 <= j < v.len() ==> clusters_correctos(#[trigger] v[j].clusters@, grupos, claves, v[j].id)
}

/// Cada grupo de la jerarquía tiene entre uno y `MAX_CLUSTERS_PER_GROUP`
/// clusters: ni grupos vacíos ni grupos que se pasen del tope.
pub open spec fn clusters_por_grupo_en_rango(v: Seq<GroupClusters>) -> bool {
    forall|j: int| 0 <= j < v.len() ==> 1 <= (#[trigger] v[j]).clusters@.len() <= MAX_CLUSTERS_PER_GROUP
}

/// Algún grupo usa más claves de las que caben.
pub open spec fn demasiados_clusters(grupos: Seq<SpatialGroupId>, claves: Seq<u16>) -> bool {
    exists|g: SpatialGroupId| #[trigger] claves_del_grupo(grupos, claves, g).len() > MAX_CLUSTERS_PER_GROUP
}

proof fn lema_claves_finitas(grupos: Seq<SpatialGroupId>, claves: Seq<u16>, g: SpatialGroupId)
    requires
        grupos.len() == claves.len(),
    ensures
        claves_del_grupo(grupos, claves, g).finite(),
        claves_del_grupo(grupos, claves, g).subset_of(claves.to_set()),
{
    let s = claves_del_grupo(grupos, claves, g);
    assert forall|k: u16| s.contains(k) implies claves.to_set().contains(k) by {
        let i = choose|i: int| es_de(grupos, claves, g, k, i);
        assert(claves[i] == k);
    }
    vstd::seq_lib::seq_to_set_is_finite(claves);
    vstd::set_lib::lemma_set_subset_finite(claves.to_set(), s);
}

/// `Some(k)` es mayor que la cota; sin cota, toda clave lo es.
pub open spec fn supera(k: u16, cota: Option<u16>) -> bool {
    match cota {
        Some(c) => k > c,
        None => true,
    }
}

/// La menor clave del grupo `g` que supera la cota, si la hay.
fn menor_clave_tras(grupos: &[SpatialGroupId], claves: &[u16], g: SpatialGroupId, cota: Option<u16>) -> (r: Option<u16>)
    requires
        grupos@.len() == claves@.len(),
    ensures
        match r {
            Some(k) => {
                &&& claves_del_grupo(grupos@, claves@, g).contains(k)
                &&& supera(k, cota)
                &&& forall|k2: u16|
                    claves_del_grupo(grupos@, claves@, g).contains(k2) && supera(k2, cota) ==> k <= k2
            },
            None => forall|k2: u16|
                claves_del_grupo(grupos@, claves@, g).contains(k2) ==> !supera(k2, cota),
        },
{
    let mut mejor: Option<u16> = None;
    let mut i: usize = 0;
    while i < grupos.len()
        invariant
            0 <= i <= grupos@.len(),
            grupos@.len() == claves@.len(),
            mejor matches Some(k) ==> exists|j: int| 0 <= j < i && es_de(grupos@, claves@, g, k, j),
            match mejor {
                Some(k) => {
                    &&& supera(k, cota)
                    &&& forall|j: int|
                        0 <= j < i && grupos@[j] == g && supera(claves@[j], cota) ==> k <= claves@[j]
                },
                None => forall|j: int| 0 <= j < i && grupos@[j] == g ==> !supera(claves@[j], cota),
            },
        decreases grupos@.len() - i,
    {
        let ghost previo = mejor;
        if grupos[i] == g {
            let k = claves[i];
            let supera_cota = match cota {
                Some(c) => k > c,
                None => true,
            };
            if supera_cota {
                let reemplazar = match mejor {
                    Some(m) => k < m,
                    None => true,
                };
                if reemplazar {
                    mejor = Some(k);
                    proof {
                        assert(es_de(grupos@, claves@, g, k, i as int));
                    }
                }
            }
        }
        proof {
            if let Some(m) = mejor {
                if mejor == previo {
                    let j = choose|j: int| 0 <= j < i && es_de(grupos@, claves@, g, m, j);
                    assert(0 <= j < i + 1 && es_de(grupos@, claves@, g, m, j));
                } else {
                    assert(0 <= i < i + 1 && es_de(grupos@, claves@, g, m, i as int));
                }
            }
        }
        i = i + 1;
    }
    proof {
        match mejor {
            Some(k) => {
                let j = choose|j: int| 0 <= j < i && es_de(grupos@, claves@, g, k, j);
                assert(claves_del_grupo(grupos@, claves@, g).contains(k));
                assert forall|k2: u16|
                    claves_del_grupo(grupos@, claves@, g).contains(k2) && supera(k2, cota) implies k
                    <= k2 by {
                    let j2 = choose|j2: int| es_de(grupos@, claves@, g, k2, j2);
                }
            },
            None => {
                assert forall|k2: u16| claves_del_grupo(grupos@, claves@, g).contains(k2) implies !supera(
                    k2,
                    cota,
                ) by {
                    let j2 = choose|j2: int| es_de(grupos@, claves@, g, k2, j2);
                }
            },
        }
    }
    mejor
}

/// Los objetos del grupo `g` con la clave `k`, en orden creciente.
fn objetos_con(grupos: &[SpatialGroupId], claves: &[u16], g: SpatialGroupId, k: u16) -> (r: ClusterIndices)
    requires
        grupos@.len() == claves@.len(),
    ensures
        r.id == k,
        cluster_correcto(r, grupos@, claves@, g),
{
    let mut indices: Vec<usize> = Vec::new();
    let mut i: usize = 0;
    while i < grupos.len()
        invariant
            0 <= i <= grupos@.len(),
            grupos@.len() == claves@.len(),
            forall|a: int, b: int| 0 <= a < b < indices@.len() ==> indices@[a] < indices@[b],
            forall|a: int| 0 <= a < indices@.len() ==> indices@[a] < i,
            forall|j: int|
                indices@.contains(j as usize) && 0 <= j <= usize::MAX <==> (j < i && es_de(
                    grupos@,
                    claves@,
                    g,
                    k,
                    j,
                )),
        decreases grupos@.len() - i,
    {
        if grupos[i] == g && claves[i] == k {
            let ghost antes = indices@;
            indices.push(i);
            proof {
                assert forall|j: int|
                    indices@.contains(j as usize) && 0 <= j <= usize::MAX <==> (j < i + 1 && es_de(
                        grupos@,
                        claves@,
                        g,
                        k,
                        j,
                    )) by {
                    if indices@.contains(j as usize) && 0 <= j <= usize::MAX {
                        let a = choose|a: int| 0 <= a < indices@.len() && indices@[a] == j as usize;
                        if a < antes.len() {
                            assert(antes.contains(j as usize));
                        }
                    }
                    if j < i + 1 && es_de(grupos@, claves@, g, k, j) {
                        if j < i {
                            assert(antes.contains(j as usize));
                            let a = choose|a: int| 0 <= a < antes.len() && antes[a] == j as usize;
                            assert(indices@[a] == j as usize);
                        } else {
                            assert(indices@[antes.len() as int] == j as usize);
                        }
                    }
                }
            }
        } else {
            proof {
                assert forall|j: int|
                    indices@.contains(j as usize) && 0 <= j <= usize::MAX <==> (j < i + 1 && es_de(
                        grupos@,
                        claves@,
                        g,
                        k,
                        j,
                    )) by {
                    if indices@.contains(j as usize) && 0 <= j <= usize::MAX {
                        let a = choose|a: int| 0 <= a < indices@.len() && indices@[a] == j as usize;
                    }
                }
            }
        }
        i = i + 1;
    }
    ClusterIndices { id: k, object_indices: indices }
}

/// Las claves de una lista de clusters, en orden.
pub open spec fn ids_de(cs: Seq<ClusterIndices>) -> Seq<u16> {
    cs.map_values(|c: ClusterIndices| c.id)
}

/// Cuánto le queda a la cota para agotar las claves de 16 bits.
spec fn recorrido_restante(cota: Option<u16>) -> int {
    match cota {
        Some(c) => 65535 - c,
        None => 65536,
    }
}

proof fn lema_ids_sin_repetidos(cs: Seq<ClusterIndices>)
    requires
        forall|a: int, b: int| 0 <= a < b < cs.len() ==> cs[a].id < cs[b].id,
    ensures
        ids_de(cs).no_duplicates(),
        ids_de(cs).len() == cs.len(),
        forall|k: u16| ids_de(cs).contains(k) <==> exists|j: int| 0 <= j < cs.len() && #[trigger] cs[j].id == k,
{
    let ids = ids_de(cs);
    assert forall|a: int, b: int| 0 <= a < ids.len() && 0 <= b < ids.len() && a != b implies ids[a]
        != ids[b] by {
        if a < b {
            assert(cs[a].id < cs[b].id);
        } else {
            assert(cs[b].id < cs[a].id);
        }
    }
    assert forall|k: u16| ids.contains(k) <==> exists|j: int| 0 <= j < cs.len() && #[trigger] cs[j].id == k by {
        if ids.contains(k) {
            let a = choose|a: int| 0 <= a < ids.len() && ids[a] == k;
            assert(cs[a].id == k);
        }
        if exists|j: int| 0 <= j < cs.len() && #[trigger] cs[j].id == k {
            let j = choose|j: int| 0 <= j < cs.len() && #[trigger] cs[j].id == k;
            assert(ids[j] == k);
        }
    }
}

/// Los clusters del grupo `g`, uno por clave, ordenados por clave; o
/// `None` si el grupo usa más claves de las que caben.
fn agrupar(grupos: &[SpatialGroupId], claves: &[u16], g: SpatialGroupId) -> (r: Option<Vec<ClusterIndices>>)
    requires
        grupos@.len() == claves@.len(),
    ensures
        r is None <==> claves_del_grupo(grupos@, claves@, g).len() > MAX_CLUSTERS_PER_GROUP,
        r matches Some(cs) ==> {
            &&& clusters_correctos(cs@, grupos@, claves@, g)
            &&& cs@.len() <= MAX_CLUSTERS_PER_GROUP
            &&& (cs@.len() == 0 <==> !grupo_presente(grupos@, g))
        },
{
    let ghost llaves = claves_del_grupo(grupos@, claves@, g);
    proof {
        lema_claves_finitas(grupos@, claves@, g);
    }
    let mut clusters: Vec<ClusterIndices> = Vec::new();
    let mut cota: Option<u16> = None;
    loop
        invariant
            grupos@.len() == claves@.len(),
            llaves == claves_del_grupo(grupos@, claves@, g),
            llaves.finite(),
            clusters@.len() <= MAX_CLUSTERS_PER_GROUP,
            forall|a: int, b: int| 0 <= a < b < clusters@.len() ==> clusters@[a].id < clusters@[b].id,
            forall|j: int| 0 <= j < clusters@.len() ==> cluster_correcto(#[trigger] clusters@[j], grupos@, claves@, g),
            forall|k: u16|
                (llaves.contains(k) && !supera(k, cota)) <==> exists|j: int|
                    0 <= j < clusters@.len() && #[trigger] clusters@[j].id == k,
            cota is None <==> clusters@.len() == 0,
            cota matches Some(c) ==> c == clusters@[clusters@.len() - 1].id,
        decreases recorrido_restante(cota),
    {
        match menor_clave_tras(grupos, claves, g, cota) {
            None => {
                proof {
                    lema_ids_sin_repetidos(clusters@);
                    let ids = ids_de(clusters@);
                    assert(llaves.subset_of(ids.to_set()));
                    ids.lemma_cardinality_of_set();
                    vstd::set_lib::lemma_len_subset(llaves, ids.to_set());
                    assert(clusters_correctos(clusters@, grupos@, claves@, g));
                    if grupo_presente(grupos@, g) {
                        let i = choose|i: int| 0 <= i < grupos@.len() && grupos@[i] == g;
                        assert(es_de(grupos@, claves@, g, claves@[i], i));
                        assert(llaves.contains(claves@[i]));
                    }
                    if clusters@.len() > 0 {
                        assert(clusters@[0].id == clusters@[0].id);
                        assert(llaves.contains(clusters@[0].id));
                        let i = choose|i: int| es_de(grupos@, claves@, g, clusters@[0].id, i);
                    }
                }
                return Some(clusters);
            },
            Some(k) => {
                if clusters.len() == MAX_CLUSTERS_PER_GROUP {
                    proof {
                        lema_ids_sin_repetidos(clusters@);
                        let ids = ids_de(clusters@).push(k);
                        assert forall|a: int, b: int| 0 <= a < ids.len() && 0 <= b < ids.len() && a != b implies ids[a]
                            != ids[b] by {
                            if a < clusters@.len() && b < clusters@.len() {
                                assert(ids_de(clusters@)[a] != ids_de(clusters@)[b]);
                            } else if a < clusters@.len() {
                                assert(llaves.contains(clusters@[a].id) && !supera(clusters@[a].id, cota));
                            } else {
                                assert(llaves.contains(clusters@[b].id) && !supera(clusters@[b].id, cota));
                            }
                        }
                        assert(ids.to_set().subset_of(llaves)) by {
                            assert forall|x: u16| ids.to_set().contains(x) implies llaves.contains(x) by {
                                let a = choose|a: int| 0 <= a < ids.len() && ids[a] == x;
                                if a < clusters@.len() {
                                    assert(clusters@[a].id == x);
                                }
                            }
                        }
                        assert(ids.no_duplicates());
                        ids.unique_seq_to_set();
                        vstd::seq_lib::seq_to_set_is_finite(ids);
                        vstd::set_lib::lemma_len_subset(ids.to_set(), llaves);
                    }
                    return None;
                }
                let cluster = objetos_con(grupos, claves, g, k);
                let ghost antes = clusters@;
                clusters.push(cluster);
                proof {
                    assert forall|k2: u16|
                        (llaves.contains(k2) && !supera(k2, Some(k))) <==> exists|j: int|
                            0 <= j < clusters@.len() && #[trigger] clusters@[j].id == k2 by {
                        if llaves.contains(k2) && !supera(k2, Some(k)) {
                            if k2 == k {
                                assert(clusters@[antes.len() as int].id == k2);
                            } else {
                                assert(!supera(k2, cota));
                                let j = choose|j: int| 0 <= j < antes.len() && #[trigger] antes[j].id == k2;
                                assert(clusters@[j].id == k2);
                            }
                        }
                        if exists|j: int| 0 <= j < clusters@.len() && #[trigger] clusters@[j].id == k2 {
                            let j = choose|j: int| 0 <= j < clusters@.len() && #[trigger] clusters@[j].id == k2;
                            if j < antes.len() {
                                assert(antes[j].id == k2);
                            }
                        }
                    }
                    assert forall|a: int, b: int| 0 <= a < b < clusters@.len() implies clusters@[a].id
                        < clusters@[b].id by {
                        if b == antes.len() {
                            assert(antes[a].id == antes[a].id);
                            assert(llaves.contains(antes[a].id) && !supera(antes[a].id, cota));
                        }
                    }
                }
                cota = Some(k);
            },
        }
    }
}

/// Parte los objetos de la escena en la jerarquía `grupo → cluster`.
///
/// `grupos[i]` es el grupo espacial del objeto `i` y `claves[i]` el cluster
/// que el generador le declaró dentro de ese grupo. Los grupos salen en el
/// orden fijo de `SpatialGroupId::ALL`, solo los que tienen objetos; los
/// clusters de cada grupo, ordenados por clave.
///
/// Devuelve `None` si la escena está vacía —una jerarquía sin caja
/// envolvente no tiene nada que podar— o si algún grupo supera
/// `MAX_CLUSTERS_PER_GROUP`.
pub fn partition(grupos: &[SpatialGroupId], claves: &[u16]) -> (r: Option<Vec<GroupClusters>>)
    requires
        grupos@.len() == claves@.len(),
    ensures
        r is None <==> (grupos@.len() == 0 || demasiados_clusters(grupos@, claves@)),
        r matches Some(v) ==> particion_correcta(v@, grupos@, claves@),
        r matches Some(v) ==> clusters_por_grupo_en_rango(v@),
{
    let mut groups: Vec<GroupClusters> = Vec::new();
    let mut idx: usize = 0;
    while idx < SpatialGroupId::COUNT
        invariant
            0 <= idx <= SpatialGroupId::COUNT,
            grupos@.len() == claves@.len(),
            forall|a: int, b: int| 0 <= a < b < groups@.len() ==> groups@[a].id.posicion() < groups@[b].id.posicion(),
            forall|j: int| 0 <= j < groups@.len() ==> groups@[j].id.posicion() < idx,
            forall|g: SpatialGroupId|
                g.posicion() < idx && grupo_presente(grupos@, g) <==> exists|j: int|
                    0 <= j < groups@.len() && #[trigger] groups@[j].id == g,
            forall|j: int| 0 <= j < groups@.len() ==> clusters_correctos(#[trigger] groups@[j].clusters@, grupos@, claves@, groups@[j].id),
            clusters_por_grupo_en_rango(groups@),
            forall|g: SpatialGroupId|
                g.posicion() < idx ==> #[trigger] claves_del_grupo(grupos@, claves@, g).len() <= MAX_CLUSTERS_PER_GROUP,
        decreases SpatialGroupId::COUNT - idx,
    {
        let g = SpatialGroupId::ALL[idx];
        assert(g.posicion() == idx);
        match agrupar(grupos, claves, g) {
            None => {
                return None;
            },
            Some(clusters) => {
                if clusters.len() > 0 {
                    let ghost antes = groups@;
                    groups.push(GroupClusters { id: g, clusters });
                    proof {
                        assert forall|h: SpatialGroupId|
                            h.posicion() < idx + 1 && grupo_presente(grupos@, h) <==> exists|j: int|
                                0 <= j < groups@.len() && #[trigger] groups@[j].id == h by {
                            if h.posicion() < idx + 1 && grupo_presente(grupos@, h) {
                                if h == g {
                                    assert(groups@[antes.len() as int].id == h);
                                } else {
                                    let j = choose|j: int| 0 <= j < antes.len() && #[trigger] antes[j].id == h;
                                    assert(groups@[j].id == h);
                                }
                            }
                            if exists|j: int| 0 <= j < groups@.len() && #[trigger] groups@[j].id == h {
                                let j = choose|j: int| 0 <= j < groups@.len() && #[trigger] groups@[j].id == h;
                                if j < antes.len() {
                                    assert(antes[j].id == h);
                                }
                            }
                        }
                    }
                } else {
                    proof {
                        assert forall|h: SpatialGroupId|
                            h.posicion() < idx + 1 && grupo_presente(grupos@, h) <==> exists|j: int|
                                0 <= j < groups@.len() && #[trigger] groups@[j].id == h by {
                            if h.posicion() < idx + 1 && grupo_presente(grupos@, h) {
                                assert(h != g);
                            }
                        }
                    }
                }
            },
        }
        idx = idx + 1;
    }
    proof {
        assert forall|g: SpatialGroupId| #[trigger] claves_del_grupo(grupos@, claves@, g).len() <= MAX_CLUSTERS_PER_GROUP by {
            assert(g.posicion() < SpatialGroupId::COUNT);
        }
    }
    if groups.len() == 0 {
        proof {
            if grupos@.len() > 0 {
                let g = grupos@[0];
                assert(g.posicion() < SpatialGroupId::COUNT);
                assert(grupo_presente(grupos@, g));
            }
        }
        return None;
    }
    proof {
        assert(groups@[0].id == groups@[0].id);
        let g0 = groups@[0].id;
        assert(grupo_presente(grupos@, g0));
        assert(!demasiados_clusters(grupos@, claves@));
    }
    Some(groups)
}

/// Las claves que declara un plan para los primeros `n` objetos.
pub open spec fn claves_del_plan(plan: ClusterPlan, n: int) -> Seq<u16> {
    Seq::new(n as nat, |i: int| plan.cluster_de(i))
}

/// La partición que sigue las claves declaradas en el plan.
pub fn partition_from_plan(grupos: &[SpatialGroupId], plan: &ClusterPlan) -> (r: Option<Vec<GroupClusters>>)
    ensures
        r is None <==> (grupos@.len() == 0 || demasiados_clusters(
            grupos@,
            claves_del_plan(*plan, grupos@.len() as int),
        )),
        r matches Some(v) ==> particion_correcta(v@, grupos@, claves_del_plan(*plan, grupos@.len() as int)),
        r matches Some(v) ==> clusters_por_grupo_en_rango(v@),
{
    let mut claves: Vec<u16> = Vec::new();
    let mut i: usize = 0;
    while i < grupos.len()
        invariant
            0 <= i <= grupos@.len(),
            claves@ == claves_del_plan(*plan, i as int),
        decreases grupos@.len() - i,
    {
        claves.push(plan.cluster_of(i));
        proof {
            assert(claves@ =~= claves_del_plan(*plan, i + 1));
        }
        i = i + 1;
    }
    partition(grupos, claves.as_slice())
}

/// Los objetos de una lista de clusters, uno detrás de otro.
pub open spec fn indices_de_clusters(cs: Seq<ClusterIndices>) -> Seq<usize>
    decreases cs.len(),
{
    if cs.len() == 0 {
        Seq::empty()
    } else {
        indices_de_clusters(cs.drop_last()) + cs.last().object_indices@
    }
}

/// Los objetos de toda la jerarquía, grupo a grupo y cluster a cluster.
pub open spec fn indices_de_grupos(v: Seq<GroupClusters>) -> Seq<usize>
    decreases v.len(),
{
    if v.len() == 0 {
        Seq::empty()
    } else {
        indices_de_grupos(v.drop_last()) + indices_de_clusters(v.last().clusters@)
    }
}

proof fn lema_concat(s: Seq<usize>, t: Seq<usize>)
    ensures
        forall|x: usize| (s + t).contains(x) <==> (s.contains(x) || t.contains(x)),
        s.no_duplicates() && t.no_duplicates() && (forall|x: usize| s.contains(x) ==> !t.contains(x))
            ==> (s + t).no_duplicates(),
{
    let u = s + t;
    assert forall|x: usize| u.contains(x) <==> (s.contains(x) || t.contains(x)) by {
        if u.contains(x) {
            let i = choose|i: int| 0 <= i < u.len() && u[i] == x;
            if i < s.len() {
                assert(s[i] == x);
            } else {
                assert(t[i - s.len()] == x);
            }
        }
        if s.contains(x) {
            let i = choose|i: int| 0 <= i < s.len() && s[i] == x;
            assert(u[i] == x);
        }
        if t.contains(x) {
            let i = choose|i: int| 0 <= i < t.len() && t[i] == x;
            assert(u[i + s.len()] == x);
        }
    }
    if s.no_duplicates() && t.no_duplicates() && (forall|x: usize| s.contains(x) ==> !t.contains(x)) {
        assert forall|i: int, j: int| 0 <= i < u.len() && 0 <= j < u.len() && i != j implies u[i] != u[j] by {
            if i < s.len() && j >= s.len() {
                assert(s.contains(u[i]));
                assert(t[j - s.len()] == u[j]);
            } else if j < s.len() && i >= s.len() {
                assert(s.contains(u[j]));
                assert(t[i - s.len()] == u[i]);
            } else if i >= s.len() {
                assert(t[i - s.len()] != t[j - s.len()]);
            }
        }
    }
}

proof fn lema_indices_de_clusters(
    cs: Seq<ClusterIndices>,
    grupos: Seq<SpatialGroupId>,
    claves: Seq<u16>,
    g: SpatialGroupId,
)
    requires
        forall|a: int, b: int| 0 <= a < b < cs.len() ==> cs[a].id < cs[b].id,
        forall|j: int| 0 <= j < cs.len() ==> cluster_correcto(#[trigger] cs[j], grupos, claves, g),
    ensures
        indices_de_clusters(cs).no_duplicates(),
        forall|x: usize|
            indices_de_clusters(cs).contains(x) <==> exists|j: int|
                0 <= j < cs.len() && #[trigger] es_de(grupos, claves, g, cs[j].id, x as int),
    decreases cs.len(),
{
    if cs.len() > 0 {
        let resto = cs.drop_last();
        let ultimo = cs.last();
        lema_indices_de_clusters(resto, grupos, claves, g);
        assert(cluster_correcto(cs[cs.len() - 1], grupos, claves, g));
        let objs = ultimo.object_indices@;
        assert(objs.no_duplicates()) by {
            assert forall|a: int, b: int| 0 <= a < objs.len() && 0 <= b < objs.len() && a != b implies objs[a]
                != objs[b] by {
                if a < b {
                    assert(objs[a] < objs[b]);
                } else {
                    assert(objs[b] < objs[a]);
                }
            }
        }
        assert forall|x: usize| indices_de_clusters(resto).contains(x) implies !objs.contains(x) by {
            let j = choose|j: int| 0 <= j < resto.len() && #[trigger] es_de(grupos, claves, g, resto[j].id, x as int);
            assert(cs[j].id < ultimo.id);
            if objs.contains(x) {
                assert(es_de(grupos, claves, g, ultimo.id, x as int));
            }
        }
        lema_concat(indices_de_clusters(resto), objs);
        assert(indices_de_clusters(cs) == indices_de_clusters(resto) + objs);
        assert forall|x: usize|
            indices_de_clusters(cs).contains(x) <==> exists|j: int|
                0 <= j < cs.len() && #[trigger] es_de(grupos, claves, g, cs[j].id, x as int) by {
            if indices_de_clusters(cs).contains(x) {
                if objs.contains(x) {
                    assert(objs.contains((x as int) as usize));
                    assert(es_de(grupos, claves, g, cs[cs.len() - 1].id, x as int));
                } else {
                    let j = choose|j: int| 0 <= j < resto.len() && #[trigger] es_de(grupos, claves, g, resto[j].id, x as int);
                    assert(es_de(grupos, claves, g, cs[j].id, x as int));
                }
            }
            if exists|j: int| 0 <= j < cs.len() && #[trigger] es_de(grupos, claves, g, cs[j].id, x as int) {
                let j = choose|j: int| 0 <= j < cs.len() && #[trigger] es_de(grupos, claves, g, cs[j].id, x as int);
                if j < resto.len() {
                    assert(resto[j] == cs[j]);
                    assert(es_de(grupos, claves, g, resto[j].id, x as int));
                    assert(indices_de_clusters(resto).contains(x));
                } else {
                    assert(cs[j] == ultimo);
                    assert(es_de(grupos, claves, g, ultimo.id, x as int));
                    assert(objs.contains((x as int) as usize));
                    assert(objs.contains(x));
                }
                assert(indices_de_clusters(cs).contains(x));
            }
        }
    }
}

/// Los objetos de una lista de clusters correcta son exactamente los del
/// grupo, sin repetir.
proof fn lema_objetos_del_grupo(
    cs: Seq<ClusterIndices>,
    grupos: Seq<SpatialGroupId>,
    claves: Seq<u16>,
    g: SpatialGroupId,
)
    requires
        clusters_correctos(cs, grupos, claves, g),
    ensures
        indices_de_clusters(cs).no_duplicates(),
        forall|x: usize|
            indices_de_clusters(cs).contains(x) <==> (x < grupos.len() && grupos[x as int] == g),
{
    lema_indices_de_clusters(cs, grupos, claves, g);
    assert forall|x: usize|
        indices_de_clusters(cs).contains(x) <==> (x < grupos.len() && grupos[x as int] == g) by {
        if x < grupos.len() && grupos[x as int] == g {
            let k = claves[x as int];
            assert(es_de(grupos, claves, g, k, x as int));
            assert(claves_del_grupo(grupos, claves, g).contains(k));
            let j = choose|j: int| 0 <= j < cs.len() && #[trigger] cs[j].id == k;
            assert(es_de(grupos, claves, g, cs[j].id, x as int));
        }
    }
}

proof fn lema_indices_de_grupos(v: Seq<GroupClusters>, grupos: Seq<SpatialGroupId>, claves: Seq<u16>)
    requires
        forall|a: int, b: int| 0 <= a < b < v.len() ==> v[a].id.posicion() < v[b].id.posicion(),
        forall|j: int| 0 <= j < v.len() ==> clusters_correctos(#[trigger] v[j].clusters@, grupos, claves, v[j].id),
    ensures
        indices_de_grupos(v).no_duplicates(),
        forall|x: usize|
            indices_de_grupos(v).contains(x) <==> (x < grupos.len() && exists|j: int|
                0 <= j < v.len() && #[trigger] v[j].id == grupos[x as int]),
    decreases v.len(),
{
    if v.len() > 0 {
        let resto = v.drop_last();
        let ultimo = v.last();
        lema_indices_de_grupos(resto, grupos, claves);
        assert(clusters_correctos(v[v.len() - 1].clusters@, grupos, claves, v[v.len() - 1].id));
        lema_objetos_del_grupo(ultimo.clusters@, grupos, claves, ultimo.id);
        let objs = indices_de_clusters(ultimo.clusters@);
        assert forall|x: usize| indices_de_grupos(resto).contains(x) implies !objs.contains(x) by {
            let j = choose|j: int| 0 <= j < resto.len() && #[trigger] resto[j].id == grupos[x as int];
            assert(v[j].id.posicion() < ultimo.id.posicion());
        }
        lema_concat(indices_de_grupos(resto), objs);
        assert forall|x: usize|
            indices_de_grupos(v).contains(x) <==> (x < grupos.len() && exists|j: int|
                0 <= j < v.len() && #[trigger] v[j].id == grupos[x as int]) by {
            if indices_de_grupos(v).contains(x) {
                if objs.contains(x) {
                    assert(v[v.len() - 1].id == grupos[x as int]);
                } else {
                    let j = choose|j: int| 0 <= j < resto.len() && #[trigger] resto[j].id == grupos[x as int];
                    assert(v[j].id == grupos[x as int]);
                }
            }
            if x < grupos.len() && exists|j: int| 0 <= j < v.len() && #[trigger] v[j].id == grupos[x as int] {
                let j = choose|j: int| 0 <= j < v.len() && #[trigger] v[j].id == grupos[x as int];
                if j < resto.len() {
                    assert(resto[j].id == grupos[x as int]);
                }
            }
        }
    }
}

/// No se pierde ninguna primitiva: en una partición correcta cada objeto
/// de la escena aparece exactamente una vez, así que la jerarquía
/// referencia tantas primitivas como objetos hay.
pub proof fn ley_no_se_pierde_ninguna_primitiva(
    v: Seq<GroupClusters>,
    grupos: Seq<SpatialGroupId>,
    claves: Seq<u16>,
)
    requires
        grupos.len() == claves.len(),
        grupos.len() <= usize::MAX,
        particion_correcta(v, grupos, claves),
    ensures
        indices_de_grupos(v).no_duplicates(),
        forall|x: usize| indices_de_grupos(v).contains(x) <==> x < grupos.len(),
        indices_de_grupos(v).len() == grupos.len(),
{
    lema_indices_de_grupos(v, grupos, claves);
    let plano = indices_de_grupos(v);
    assert forall|x: usize| plano.contains(x) <==> x < grupos.len() by {
        if x < grupos.len() {
            let g = grupos[x as int];
            assert(grupo_presente(grupos, g));
        }
    }
    let n = grupos.len();
    let todos = Seq::new(n, |i: int| i as usize);
    assert(todos.no_duplicates());
    assert(plano.to_set() =~= todos.to_set()) by {
        assert forall|x: usize| plano.to_set().contains(x) <==> todos.to_set().contains(x) by {
            if x < n {
                assert(todos[x as int] == x);
            }
            if todos.contains(x) {
                let i = choose|i: int| 0 <= i < todos.len() && todos[i] == x;
            }
        }
    }
    plano.unique_seq_to_set();
    todos.unique_seq_to_set();
}

/// Cuántas primitivas referencia la jerarquía.
pub fn primitive_count(groups: &[GroupClusters]) -> (n: usize)
    requires
        indices_de_grupos(groups@).len() <= usize::MAX,
    ensures
        n == indices_de_grupos(groups@).len(),
{
    let mut total: usize = 0;
    let mut j: usize = 0;
    while j < groups.len()
        invariant
            0 <= j <= groups@.len(),
            indices_de_grupos(groups@).len() <= usize::MAX,
            total == indices_de_grupos(groups@.subrange(0, j as int)).len(),
        decreases groups@.len() - j,
    {
        let ghost previos = groups@.subrange(0, j as int);
        proof {
            assert(groups@.subrange(0, j + 1).drop_last() == previos);
            lema_prefijo_grupos(groups@, j + 1);
        }
        let clusters = &groups[j].clusters;
        let mut c: usize = 0;
        let mut parcial: usize = 0;
        while c < clusters.len()
            invariant
                0 <= c <= clusters@.len(),
                clusters@ == groups@[j as int].clusters@,
                total + indices_de_clusters(clusters@).len() <= usize::MAX,
                parcial == indices_de_clusters(clusters@.subrange(0, c as int)).len(),
            decreases clusters@.len() - c,
        {
            proof {
                assert(clusters@.subrange(0, c + 1).drop_last() == clusters@.subrange(0, c as int));
                lema_prefijo_clusters(clusters@, c + 1);
            }
            parcial = parcial + clusters[c].object_indices.len();
            c = c + 1;
        }
        proof {
            assert(clusters@.subrange(0, clusters@.len() as int) == clusters@);
        }
        total = total + parcial;
        j = j + 1;
    }
    proof {
        assert(groups@.subrange(0, groups@.len() as int) == groups@);
    }
    total
}

proof fn lema_prefijo_clusters(cs: Seq<ClusterIndices>, c: int)
    requires
        0 < c <= cs.len(),
    ensures
        indices_de_clusters(cs.subrange(0, c)).len() == indices_de_clusters(cs.subrange(0, c - 1)).len()
            + cs[c - 1].object_indices@.len(),
        indices_de_clusters(cs.subrange(0, c - 1)).len() <= indices_de_clusters(cs).len(),
        indices_de_clusters(cs.subrange(0, c)).len() <= indices_de_clusters(cs).len(),
    decreases cs.len() - c,
{
    assert(cs.subrange(0, c).drop_last() == cs.subrange(0, c - 1));
    if c < cs.len() {
        lema_prefijo_clusters(cs, c + 1);
        assert(cs.subrange(0, c + 1).drop_last() == cs.subrange(0, c));
    } else {
        assert(cs.subrange(0, c) == cs);
    }
}

proof fn lema_prefijo_grupos(v: Seq<GroupClusters>, j: int)
    requires
        0 < j <= v.len(),
    ensures
        indices_de_grupos(v.subrange(0, j)).len() == indices_de_grupos(v.subrange(0, j - 1)).len()
            + indices_de_clusters(v[j - 1].clusters@).len(),
        indices_de_grupos(v.subrange(0, j)).len() <= indices_de_grupos(v).len(),
    decreases v.len() - j,
{
    assert(v.subrange(0, j).drop_last() == v.subrange(0, j - 1));
    if j < v.len() {
        lema_prefijo_grupos(v, j + 1);
        assert(v.subrange(0, j + 1).drop_last() == v.subrange(0, j));
    } else {
        assert(v.subrange(0, j) == v);
    }
}

} // verus!
