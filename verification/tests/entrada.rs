use expedition33_continente_inacabado::framebuffer::Framebuffer;
use expedition33_continente_inacabado::input::{
    demo_action, demo_region, source_pixel_in_window, DemoAction, FrameIntent, DEMO_REGIONS,
};
use expedition33_continente_inacabado::scene::RevealGroup;

#[test]
fn el_fallback_mapea_los_tres_digitos_del_plan() {
    assert_eq!(demo_region(1), Some(RevealGroup::Meadows));
    assert_eq!(demo_region(2), Some(RevealGroup::Breakwater));
    assert_eq!(demo_region(3), Some(RevealGroup::FlyingWaters));
}

#[test]
fn el_fallback_no_incluye_el_finale_ni_desborda() {
    assert_eq!(demo_region(4), None);
    assert_eq!(demo_region(0), None, "el cero no debe restar por debajo");
    assert_eq!(demo_region(255), None);

    assert!(!DEMO_REGIONS.contains(&RevealGroup::Finale));
    assert_eq!(DEMO_REGIONS.len(), 3);
}

#[test]
fn las_teclas_de_la_demo_hacen_lo_que_anuncia_la_ventana() {
    assert_eq!(demo_action('1'), Some(DemoAction::Paint(RevealGroup::Meadows)));
    assert_eq!(demo_action('2'), Some(DemoAction::Paint(RevealGroup::Breakwater)));
    assert_eq!(demo_action('3'), Some(DemoAction::Paint(RevealGroup::FlyingWaters)));
    assert_eq!(demo_action('L'), Some(DemoAction::ResetCanvas));
    assert_eq!(demo_action('R'), Some(DemoAction::ResetCamera));
}

#[test]
fn las_teclas_no_distinguen_mayusculas() {
    assert_eq!(demo_action('l'), demo_action('L'));
    assert_eq!(demo_action('r'), demo_action('R'));
}

#[test]
fn ninguna_otra_tecla_hace_nada() {
    for tecla in ['0', '4', '9', 'a', 'W', 'S', ' ', 'ñ'] {
        assert_eq!(demo_action(tecla), None, "la tecla {tecla} no deberia actuar");
    }
}

#[test]
fn las_dos_teclas_de_reset_no_se_pisan() {
    assert_ne!(demo_action('L'), demo_action('R'));
    assert_eq!(demo_action('L'), Some(DemoAction::ResetCanvas));
    assert_eq!(demo_action('R'), Some(DemoAction::ResetCamera));
}

#[test]
fn reset_camera_no_transporta_ningun_encuadre() {
    assert_eq!(
        std::mem::size_of::<DemoAction>(),
        std::mem::size_of::<Option<RevealGroup>>(),
        "DemoAction crecio: alguien le colgo datos"
    );
}

#[test]
fn la_superficie_de_teclado_cubre_las_tres_regiones() {
    let alcanzables: Vec<RevealGroup> = ['1', '2', '3']
        .iter()
        .filter_map(|k| match demo_action(*k) {
            Some(DemoAction::Paint(grupo)) => Some(grupo),
            _ => None,
        })
        .collect();

    assert_eq!(alcanzables, DEMO_REGIONS.to_vec());
}

#[test]
fn reset_canvas_domina_sobre_pintar_en_el_mismo_cuadro() {
    let intent = FrameIntent::from_actions(&[
        DemoAction::Paint(RevealGroup::Meadows),
        DemoAction::ResetCanvas,
    ]);

    assert!(intent.reset_canvas);
    assert_eq!(intent.paints().len(), 0, "el pintado sobrevivio al reset");

    let alreves = FrameIntent::from_actions(&[
        DemoAction::ResetCanvas,
        DemoAction::Paint(RevealGroup::Meadows),
    ]);

    assert_eq!(alreves, intent);
}

#[test]
fn varias_selecciones_del_mismo_cuadro_se_conservan_todas() {
    let intent = FrameIntent::from_actions(&[
        DemoAction::Paint(RevealGroup::Meadows),
        DemoAction::Paint(RevealGroup::Breakwater),
        DemoAction::Paint(RevealGroup::FlyingWaters),
    ]);

    let grupos: Vec<RevealGroup> = intent.paints();

    assert_eq!(grupos.len(), 3, "se perdio alguna seleccion");
    assert_eq!(grupos, DEMO_REGIONS.to_vec());
}

#[test]
fn una_seleccion_repetida_no_se_duplica() {
    let intent = FrameIntent::from_actions(&[
        DemoAction::Paint(RevealGroup::Breakwater),
        DemoAction::Paint(RevealGroup::Breakwater),
    ]);

    assert_eq!(intent.paints().len(), 1);
}

#[test]
fn reset_camera_convive_con_todo() {
    let intent = FrameIntent::from_actions(&[
        DemoAction::Paint(RevealGroup::Meadows),
        DemoAction::ResetCamera,
    ]);

    assert!(intent.reset_camera);
    assert_eq!(intent.paints().len(), 1);

    let con_lienzo = FrameIntent::from_actions(&[
        DemoAction::Paint(RevealGroup::Meadows),
        DemoAction::ResetCanvas,
        DemoAction::ResetCamera,
    ]);

    assert!(con_lienzo.reset_camera, "el reset de camara sobrevive");
    assert!(con_lienzo.reset_canvas);
    assert_eq!(con_lienzo.paints().len(), 0);
}

#[test]
fn un_cuadro_sin_entrada_no_pide_nada() {
    let intent = FrameIntent::from_actions(&[]);

    assert!(intent.is_empty());
    assert_eq!(intent.paints().len(), 0);
    assert!(!intent.reset_canvas);
    assert!(!intent.reset_camera);

    assert!(!FrameIntent::from_actions(&[DemoAction::ResetCamera]).is_empty());
}

#[test]
fn el_reducer_no_desborda_con_mas_acciones_que_grupos() {
    let muchas: Vec<DemoAction> = (0..50)
        .map(|i| DemoAction::Paint(RevealGroup::ALL[i % RevealGroup::COUNT]))
        .collect();

    let intent = FrameIntent::from_actions(&muchas);

    assert_eq!(intent.paints().len(), RevealGroup::COUNT);
}

#[test]
fn el_orden_de_los_grupos_es_el_de_su_primer_pedido() {
    let mut intent = FrameIntent::default();
    intent.add_paint(RevealGroup::Finale);
    intent.add_paint(RevealGroup::Meadows);
    intent.add_paint(RevealGroup::Finale);

    assert_eq!(intent.paints(), vec![RevealGroup::Finale, RevealGroup::Meadows]);
    assert!(!intent.is_empty());
}

#[test]
fn el_pixel_fuente_sale_del_mismo_mapeo_que_dibuja() {
    // El perfil interactivo a la mitad: los pixeles 2k y 2k + 1 muestran el k.
    assert_eq!(source_pixel_in_window((800, 600), (400, 300), 0, 0), Some((0, 0)));
    assert_eq!(source_pixel_in_window((800, 600), (400, 300), 401, 203), Some((200, 101)));
    assert_eq!(source_pixel_in_window((800, 600), (400, 300), 799, 599), Some((399, 299)));
    // El borde derecho e inferior quedan fuera.
    assert_eq!(source_pixel_in_window((800, 600), (400, 300), 800, 10), None);
    assert_eq!(source_pixel_in_window((800, 600), (400, 300), 10, 600), None);
    // Sin escalado, el pixel es el mismo.
    assert_eq!(source_pixel_in_window((800, 600), (800, 600), 123, 456), Some((123, 456)));
}

/// El píxel de ventana bajo un cursor: la ventana entrega coordenadas
/// reales y el binario las trunca al píxel que las contiene.
fn bajo_el_cursor(
    ventana: (usize, usize),
    fuente: (usize, usize),
    cursor: (f32, f32),
) -> Option<(usize, usize)> {
    if !cursor.0.is_finite() || !cursor.1.is_finite() || cursor.0 < 0.0 || cursor.1 < 0.0 {
        return None;
    }
    source_pixel_in_window(ventana, fuente, cursor.0 as usize, cursor.1 as usize)
}

#[test]
fn el_borde_derecho_e_inferior_estan_excluidos() {
    let completo = ((800, 600), (800, 600));

    assert!(bajo_el_cursor(completo.0, completo.1, (799.999, 300.0)).is_some());
    assert!(bajo_el_cursor(completo.0, completo.1, (800.0, 300.0)).is_none());
    assert!(bajo_el_cursor(completo.0, completo.1, (400.0, 599.999)).is_some());
    assert!(bajo_el_cursor(completo.0, completo.1, (400.0, 600.0)).is_none());
}

#[test]
fn una_ventana_degenerada_no_divide_entre_cero_ni_con_escalado() {
    assert!(bajo_el_cursor((0, 600), (0, 600), (0.0, 0.0)).is_none());
    assert!(source_pixel_in_window((0, 600), (400, 300), 0, 0).is_none());
}

#[test]
fn un_bloque_de_dos_por_dos_elige_el_mismo_pixel_fuente() {
    for (bx, by) in [(0, 0), (7, 13), (199, 149), (399, 299)] {
        let esperado = (bx, by);

        for (dx, dy) in [(0, 0), (1, 0), (0, 1), (1, 1)] {
            let cursor = ((bx * 2 + dx) as f32 + 0.5, (by * 2 + dy) as f32 + 0.5);

            assert_eq!(
                bajo_el_cursor((800, 600), (400, 300), cursor),
                Some(esperado),
                "el bloque ({bx}, {by}) difiere en el offset ({dx}, {dy})"
            );
        }
    }
}

#[test]
fn el_pixel_fuente_del_picking_es_el_que_dibuja_el_escalado() {
    let (fuente_ancho, fuente_alto) = (7, 5);
    let (ventana_ancho, ventana_alto) = (31, 17);

    let mut fuente = Framebuffer::new(fuente_ancho, fuente_alto);
    for y in 0..fuente_alto {
        for x in 0..fuente_ancho {
            fuente.set_current_color((y * fuente_ancho + x) as u32 + 1);
            fuente.point(x, y);
        }
    }

    let mut ventana = Framebuffer::new(ventana_ancho, ventana_alto);
    ventana.blit_upscaled(&fuente);

    for y in 0..ventana_alto {
        for x in 0..ventana_ancho {
            let cursor = (x as f32 + 0.5, y as f32 + 0.5);
            let (sx, sy) = bajo_el_cursor(
                (ventana_ancho, ventana_alto),
                (fuente_ancho, fuente_alto),
                cursor,
            )
            .expect("dentro");

            assert_eq!(
                ventana.buffer[y * ventana_ancho + x],
                fuente.buffer[sy * fuente_ancho + sx],
                "el pixel de ventana ({x}, {y}) muestra otro pixel fuente"
            );
        }
    }
}

#[test]
fn lo_que_se_pinta_no_se_repite_ni_pasa_de_cuatro() {
    let intent = FrameIntent::from_actions(&[
        DemoAction::Paint(RevealGroup::Finale),
        DemoAction::Paint(RevealGroup::Meadows),
        DemoAction::Paint(RevealGroup::Finale),
        DemoAction::Paint(RevealGroup::Breakwater),
        DemoAction::Paint(RevealGroup::FlyingWaters),
        DemoAction::Paint(RevealGroup::Meadows),
    ]);

    assert_eq!(
        intent.paints(),
        vec![
            RevealGroup::Finale,
            RevealGroup::Meadows,
            RevealGroup::Breakwater,
            RevealGroup::FlyingWaters
        ]
    );
}
