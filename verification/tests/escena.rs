use expedition33_continente_inacabado::revelation::{shadow_mode_of, ShadowMode};
use expedition33_continente_inacabado::accel::{
    partition, partition_from_plan, primitive_count, ClusterPlan, MAX_CLUSTERS_PER_GROUP,
};
use expedition33_continente_inacabado::brush::SurfaceKey;
use expedition33_continente_inacabado::hit::UvChart;
use expedition33_continente_inacabado::light::{GroupMask, LightLinks};
use expedition33_continente_inacabado::renderer::{
    plan_frame, FramePlan, InteractiveProfile, Shading, MAX_DEPTH,
};
use expedition33_continente_inacabado::scene::{RevealGroup, SpatialGroupId};

#[test]
fn dos_cartas_se_comparan_por_identidad() {
    assert_eq!(UvChart::new(2), UvChart::new(2));
    assert_ne!(UvChart::new(2), UvChart::new(3));
    assert_ne!(UvChart::new(1), UvChart::whole());
}

#[test]
fn la_carta_guarda_su_numero() {
    assert_eq!(UvChart::new(5).id(), 5);
    assert_eq!(UvChart::whole().id(), 0);
    assert_eq!(UvChart::default(), UvChart::whole());
}

#[test]
fn una_clave_es_el_objeto_y_la_carta() {
    let clave_a = SurfaceKey::new(7, UvChart::new(1));
    let otro_objeto = SurfaceKey::new(9, UvChart::new(1));
    let otra_carta = SurfaceKey::new(7, UvChart::new(2));

    assert_eq!(clave_a, SurfaceKey::new(7, UvChart::new(1)));
    assert_ne!(clave_a, otra_carta, "misma pieza, otra cara");
    assert_ne!(clave_a, otro_objeto, "misma cara, otra pieza");
}

#[test]
fn la_mascara_de_grupos_distingue_los_siete() {
    assert_eq!(GroupMask::none(), GroupMask::only(&[]));

    for grupo in SpatialGroupId::ALL {
        assert!(GroupMask::all().contains(grupo));
        assert!(!GroupMask::none().contains(grupo));

        let sola = GroupMask::only(&[grupo]);
        assert!(sola.contains(grupo));

        for otro in SpatialGroupId::ALL {
            if otro != grupo {
                assert!(!sola.contains(otro), "{grupo:?} colisiona con {otro:?}");
            }
        }
    }
}

#[test]
fn la_mascara_de_varios_grupos_contiene_exactamente_esos() {
    let m = GroupMask::only(&[SpatialGroupId::Meadows, SpatialGroupId::Monolith, SpatialGroupId::Meadows]);

    for grupo in SpatialGroupId::ALL {
        let esperado = grupo == SpatialGroupId::Meadows || grupo == SpatialGroupId::Monolith;
        assert_eq!(m.contains(grupo), esperado, "{grupo:?}");
    }
    assert_eq!(GroupMask::only(&SpatialGroupId::ALL), GroupMask::all());
}

#[test]
fn los_indices_de_los_grupos_siguen_su_orden() {
    for (i, grupo) in SpatialGroupId::ALL.iter().enumerate() {
        assert_eq!(grupo.index(), i);
    }
    for (i, grupo) in RevealGroup::ALL.iter().enumerate() {
        assert_eq!(grupo.index(), i);
    }
    assert_eq!(SpatialGroupId::Global.index(), 0);
    assert_eq!(SpatialGroupId::Monolith.index(), 5);
}

#[test]
fn la_profundidad_inicial_es_tres() {
    assert_eq!(MAX_DEPTH, 3);
}

#[test]
fn la_tabla_del_plan_de_cuadro_tiene_tres_filas() {
    assert_eq!(plan_frame(true, true), FramePlan::Interactive);
    assert_eq!(plan_frame(true, false), FramePlan::Interactive);
    assert_eq!(plan_frame(false, true), FramePlan::Final);
    assert_eq!(plan_frame(false, false), FramePlan::Reuse);
}

#[test]
fn en_reposo_no_se_traza_nada() {
    let plan = plan_frame(false, false);

    assert!(!plan.draws());
    assert!(plan.should_sleep());
}

#[test]
fn mientras_algo_se_mueve_se_traza_y_no_se_duerme() {
    let plan = plan_frame(true, false);

    assert!(plan.draws());
    assert!(!plan.should_sleep(), "dormir le quita cuadros a la animacion");
}

#[test]
fn el_cuadro_final_se_traza_una_sola_vez() {
    let mut pendiente = false;
    let mut planes = Vec::new();

    for sostenido in [true, true, false, false, false] {
        let plan = plan_frame(sostenido, pendiente);

        pendiente = match plan {
            FramePlan::Interactive => true,
            FramePlan::Final => false,
            FramePlan::Reuse => pendiente,
        };

        planes.push(plan);
    }

    assert_eq!(
        planes,
        vec![
            FramePlan::Interactive,
            FramePlan::Interactive,
            FramePlan::Final,
            FramePlan::Reuse,
            FramePlan::Reuse,
        ]
    );
}

#[test]
fn un_cambio_instantaneo_va_directo_al_cuadro_final() {
    let plan = plan_frame(false, true);

    assert_eq!(plan, FramePlan::Final);
    assert!(plan.draws());
    assert!(!plan.should_sleep());
}

#[test]
fn los_perfiles_interactivos_tienen_sus_medidas() {
    assert_eq!(InteractiveProfile::default(), InteractiveProfile::baja());
    assert_eq!(InteractiveProfile::baja().pixels(), 320 * 240);
    assert_eq!(InteractiveProfile::media().pixels(), 400 * 300);
    assert_eq!(Shading::default(), Shading::Material);
}

// ------------------------------------------------- jerarquia

/// Los grupos de la escena de prueba: dos piezas del Monolito, dos de
/// Praderas y una de Rompeolas.
fn grupos() -> Vec<SpatialGroupId> {
    vec![
        SpatialGroupId::Monolith,
        SpatialGroupId::Monolith,
        SpatialGroupId::Meadows,
        SpatialGroupId::Meadows,
        SpatialGroupId::Breakwater,
    ]
}

#[test]
fn no_se_pierde_ninguna_primitiva() {
    let grupos = grupos();
    let jerarquia = partition(&grupos, &[0; 5]).expect("hay geometria");

    assert_eq!(primitive_count(&jerarquia), grupos.len());

    let mut vistos: Vec<usize> = jerarquia
        .iter()
        .flat_map(|g| &g.clusters)
        .flat_map(|c| &c.object_indices)
        .copied()
        .collect();
    vistos.sort_unstable();

    assert_eq!(vistos, (0..grupos.len()).collect::<Vec<_>>());
}

#[test]
fn los_grupos_salen_en_el_orden_fijo_y_solo_los_presentes() {
    let jerarquia = partition(&grupos(), &[0; 5]).expect("hay geometria");
    let ids: Vec<SpatialGroupId> = jerarquia.iter().map(|g| g.id).collect();

    assert_eq!(
        ids,
        vec![SpatialGroupId::Meadows, SpatialGroupId::Breakwater, SpatialGroupId::Monolith]
    );
    assert_eq!(jerarquia[0].clusters[0].object_indices, vec![2, 3]);
    assert_eq!(jerarquia[2].clusters[0].object_indices, vec![0, 1]);
}

#[test]
fn se_rechaza_un_grupo_con_demasiados_clusters() {
    let n = MAX_CLUSTERS_PER_GROUP + 1;
    let grupos = vec![SpatialGroupId::Breakwater; n];

    let una_por_objeto: Vec<u16> = (0..n).map(|i| i as u16).collect();
    assert!(partition(&grupos, &una_por_objeto).is_none());

    let con_tope: Vec<u16> = (0..n).map(|i| (i % MAX_CLUSTERS_PER_GROUP) as u16).collect();
    assert!(partition(&grupos, &con_tope).is_some());
}

#[test]
fn build_with_reparte_un_grupo_en_varios_clusters() {
    let jerarquia = partition(&grupos(), &[0, 1, 0, 0, 0]).expect("hay geometria");

    let monolito = jerarquia
        .iter()
        .find(|g| g.id == SpatialGroupId::Monolith)
        .expect("existe el grupo");

    assert_eq!(monolito.clusters.len(), 2);
    assert_eq!(monolito.clusters[0].id, 0);
    assert_eq!(monolito.clusters[1].id, 1);
    assert_eq!(monolito.clusters[0].object_indices, vec![0]);
    assert_eq!(monolito.clusters[1].object_indices, vec![1]);
}

#[test]
fn los_clusters_se_ordenan_por_clave() {
    let grupos = vec![SpatialGroupId::Global; 4];
    let jerarquia = partition(&grupos, &[9, 3, 9, 7]).expect("hay geometria");

    let ids: Vec<u16> = jerarquia[0].clusters.iter().map(|c| c.id).collect();
    assert_eq!(ids, vec![3, 7, 9]);
    assert_eq!(jerarquia[0].clusters[2].object_indices, vec![0, 2]);
}

#[test]
fn una_escena_vacia_no_produce_jerarquia() {
    assert!(partition(&[], &[]).is_none());
}

#[test]
fn el_plan_decide_el_cluster_de_cada_objeto() {
    let mut plan = ClusterPlan::new();
    assert_eq!(plan.cluster_of(3), 0);

    plan.asignar(1, 1);
    plan.asignar(6, 4);
    assert_eq!(plan.cluster_of(1), 1);
    assert_eq!(plan.cluster_of(6), 4);
    assert_eq!(plan.cluster_of(0), 0);
    assert_eq!(plan.cluster_of(100), 0);

    plan.asignar(1, 2);
    assert_eq!(plan.cluster_of(1), 2);

    let jerarquia = partition_from_plan(&grupos(), &plan).expect("hay geometria");
    let monolito = jerarquia.iter().find(|g| g.id == SpatialGroupId::Monolith).expect("existe");
    let ids: Vec<u16> = monolito.clusters.iter().map(|c| c.id).collect();
    assert_eq!(ids, vec![0, 2]);
}

#[test]
fn el_modo_de_sombra_es_el_del_material_final() {
    // Lienzo opaco y agua que deja pasar la luz: el objeto que llega al
    // agua no sombrea, aunque todavía se vea como lienzo.
    let modos = [ShadowMode::Opaque, ShadowMode::Ignore];

    assert_eq!(shadow_mode_of(&modos, 1), ShadowMode::Ignore);
    assert_eq!(shadow_mode_of(&modos, 0), ShadowMode::Opaque);
}

#[test]
fn el_light_linking_filtra_por_grupo_y_por_sombras() {
    let agua = LightLinks {
        casts_shadows: true,
        affected_groups: GroupMask::only(&[SpatialGroupId::FlyingWaters]),
        occluder_groups: GroupMask::only(&[SpatialGroupId::FlyingWaters, SpatialGroupId::Monolith]),
    };

    assert!(agua.affects(SpatialGroupId::FlyingWaters));
    assert!(!agua.affects(SpatialGroupId::Meadows));
    assert!(agua.can_be_occluded_by(SpatialGroupId::Monolith));
    assert!(!agua.can_be_occluded_by(SpatialGroupId::Meadows));

    let sin_sombras = LightLinks { casts_shadows: false, ..agua };
    assert!(sin_sombras.affects(SpatialGroupId::FlyingWaters));
    assert!(!sin_sombras.can_be_occluded_by(SpatialGroupId::Monolith));
}

#[test]
fn una_mascara_no_depende_del_orden_ni_de_las_repeticiones() {
    assert_eq!(
        GroupMask::only(&[SpatialGroupId::Meadows, SpatialGroupId::Monolith]),
        GroupMask::only(&[SpatialGroupId::Monolith, SpatialGroupId::Meadows, SpatialGroupId::Meadows])
    );
    assert_eq!(GroupMask::only(&SpatialGroupId::ALL), GroupMask::all());
}

#[test]
fn cada_grupo_tiene_entre_uno_y_dieciseis_clusters() {
    let grupos = vec![SpatialGroupId::Meadows; 16];
    let claves: Vec<u16> = (0..16).collect();
    let jerarquia = partition(&grupos, &claves).expect("cabe justo");

    assert_eq!(jerarquia.len(), 1);
    assert_eq!(jerarquia[0].clusters.len(), MAX_CLUSTERS_PER_GROUP);
    for grupo in &jerarquia {
        assert!(!grupo.clusters.is_empty());
    }
}
