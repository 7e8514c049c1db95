use expedition33_continente_inacabado::light::{enlaces_del_diorama, LightLinks};
use expedition33_continente_inacabado::scene::SpatialGroupId;

fn luz(id: &str) -> LightLinks {
    enlaces_del_diorama()
        .iter()
        .find(|(nombre, _)| *nombre == id)
        .map(|(_, enlaces)| *enlaces)
        .expect("la luz existe")
}

#[test]
fn l02_ignora_receptores_fuera_de_aguas_voladoras() {
    let l02 = luz("L-02");

    assert!(l02.affects(SpatialGroupId::FlyingWaters));

    for grupo in SpatialGroupId::ALL {
        if grupo == SpatialGroupId::FlyingWaters {
            continue;
        }

        assert!(!l02.affects(grupo), "L-02 no debe iluminar {grupo:?}");
    }
}

#[test]
fn l02_solo_consulta_oclusores_de_aguas_voladoras() {
    let l02 = luz("L-02");

    assert!(l02.can_be_occluded_by(SpatialGroupId::FlyingWaters));

    for grupo in SpatialGroupId::ALL {
        if grupo == SpatialGroupId::FlyingWaters {
            continue;
        }

        assert!(
            !l02.can_be_occluded_by(grupo),
            "Praderas no debe proyectar sombras de una luz que no la ilumina: {grupo:?}"
        );
    }
}

#[test]
fn l01_ilumina_y_puede_ser_bloqueada_por_todo() {
    let l01 = luz("L-01");

    for grupo in SpatialGroupId::ALL {
        assert!(l01.affects(grupo));
        assert!(l01.can_be_occluded_by(grupo));
    }
}

#[test]
fn l03_ilumina_pero_no_proyecta_sombras() {
    let l03 = luz("L-03");

    assert!(!l03.casts_shadows);

    for grupo in SpatialGroupId::ALL {
        assert!(l03.affects(grupo), "L-03 si ilumina {grupo:?}");
        assert!(
            !l03.can_be_occluded_by(grupo),
            "una luz sin sombras no consulta oclusores"
        );
    }
}

#[test]
fn el_diorama_tiene_tres_luces_en_el_orden_del_inventario() {
    let ids: Vec<&str> = enlaces_del_diorama().iter().map(|(id, _)| *id).collect();

    assert_eq!(ids, vec!["L-01", "L-02", "L-03"]);
}
