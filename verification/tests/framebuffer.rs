use expedition33_continente_inacabado::framebuffer::{canales, empaquetar, source_pixel, Framebuffer};

fn con_patron(ancho: usize, alto: usize) -> Framebuffer {
    let mut fb = Framebuffer::new(ancho, alto);

    for y in 0..alto {
        for x in 0..ancho {
            fb.set_current_color((y * ancho + x) as u32);
            fb.point(x, y);
        }
    }

    fb
}

#[test]
fn escalar_conserva_las_dimensiones_del_destino() {
    let origen = con_patron(4, 3);
    let mut destino = Framebuffer::new(8, 6);

    destino.blit_upscaled(&origen);

    assert_eq!(destino.width, 8);
    assert_eq!(destino.height, 6);
    assert_eq!(destino.buffer.len(), 48);
}

#[test]
fn al_doble_cada_pixel_se_convierte_en_un_bloque_de_dos_por_dos() {
    let origen = con_patron(2, 2);
    let mut destino = Framebuffer::new(4, 4);

    destino.blit_upscaled(&origen);

    for (x, y) in [(0, 0), (1, 0), (0, 1), (1, 1)] {
        assert_eq!(destino.buffer[y * 4 + x], 0, "({x}, {y})");
    }
    for (x, y) in [(2, 2), (3, 2), (2, 3), (3, 3)] {
        assert_eq!(destino.buffer[y * 4 + x], 3, "({x}, {y})");
    }
}

#[test]
fn al_mismo_tamano_es_una_copia_exacta() {
    let origen = con_patron(5, 4);
    let mut destino = Framebuffer::new(5, 4);

    destino.blit_upscaled(&origen);

    assert_eq!(destino.buffer, origen.buffer);
}

#[test]
fn funciona_con_proporciones_no_enteras() {
    let origen = con_patron(320, 240);
    let mut destino = Framebuffer::new(800, 600);

    destino.blit_upscaled(&origen);

    assert!(destino.buffer.iter().all(|p| (*p as usize) < 320 * 240));
}

#[test]
fn un_origen_vacio_no_entra_en_panico() {
    let origen = Framebuffer::new(0, 0);
    let mut destino = Framebuffer::new(4, 4);

    destino.blit_upscaled(&origen);

    assert_eq!(destino.buffer.len(), 16);
}

#[test]
fn el_mapeo_trunca_hacia_el_pixel_fuente() {
    assert_eq!(source_pixel(0, 800, 400), 0);
    assert_eq!(source_pixel(1, 800, 400), 0);
    assert_eq!(source_pixel(2, 800, 400), 1);
    assert_eq!(source_pixel(799, 800, 320), 319);
    assert_eq!(source_pixel(7, 0, 320), 0);
}

#[test]
fn clear_rellena_con_el_fondo_y_point_con_el_color_actual() {
    let mut fb = Framebuffer::new(3, 2);
    fb.set_background_color(0x00112233);
    fb.clear();
    assert!(fb.buffer.iter().all(|p| *p == 0x00112233));

    fb.set_current_color(0x00ABCDEF);
    fb.point(2, 1);
    fb.point(3, 0);
    fb.point(0, 2);
    assert_eq!(fb.buffer[5], 0x00ABCDEF);
    assert_eq!(fb.buffer.iter().filter(|p| **p == 0x00ABCDEF).count(), 1);
}

#[test]
fn fill_rect_se_recorta_contra_el_buffer() {
    let mut fb = Framebuffer::new(4, 3);
    fb.fill_rect(2, 1, 10, 10, 9);

    let pintados: Vec<usize> = (0..12).filter(|i| fb.buffer[*i] == 9).collect();
    assert_eq!(pintados, vec![6, 7, 10, 11]);

    fb.fill_rect(usize::MAX, 0, 5, 5, 1);
    fb.fill_rect(0, 0, 0, 3, 1);
    assert!(!fb.buffer.contains(&1));
}

#[test]
fn stroke_rect_dibuja_solo_el_marco() {
    let mut fb = Framebuffer::new(5, 5);
    fb.stroke_rect(0, 0, 5, 5, 1);

    for y in 0..5 {
        for x in 0..5 {
            let borde = x == 0 || y == 0 || x == 4 || y == 4;
            assert_eq!(fb.buffer[y * 5 + x] == 1, borde, "({x}, {y})");
        }
    }

    let mut lejano = Framebuffer::new(3, 3);
    lejano.stroke_rect(usize::MAX - 1, usize::MAX - 1, 10, 10, 1);
    assert!(!lejano.buffer.contains(&1));
}

#[test]
fn empaquetar_y_desempaquetar_son_inversos() {
    assert_eq!(empaquetar(0x12, 0x34, 0x56), 0x0012_3456);
    assert_eq!(canales(0x0012_3456), (0x12, 0x34, 0x56));
    // El byte alto no es de ningún canal.
    assert_eq!(canales(0xFF00_00FF), (0x00, 0x00, 0xFF));
    for byte in [0u8, 1, 127, 128, 254, 255] {
        assert_eq!(canales(empaquetar(byte, 255 - byte, byte / 2)), (byte, 255 - byte, byte / 2));
    }
}

#[test]
fn los_bytes_rgb_salen_en_el_orden_del_buffer() {
    let mut fb = Framebuffer::new(2, 1);
    fb.set_current_color(0x00AA_BBCC);
    fb.point(0, 0);
    fb.set_current_color(0x0001_0203);
    fb.point(1, 0);

    assert_eq!(fb.bytes_rgb(), vec![0xAA, 0xBB, 0xCC, 0x01, 0x02, 0x03]);
    assert!(Framebuffer::new(0, 5).bytes_rgb().is_empty());
}

#[test]
fn los_campos_publicos_son_el_estado_del_framebuffer() {
    let mut fb = Framebuffer::new(3, 2);
    assert_eq!((fb.width, fb.height, fb.buffer.len()), (3, 2, 6));
    assert_eq!((fb.background_color, fb.current_color), (0x000000, 0xFFFFFF));

    fb.set_background_color(0x0012_3456);
    fb.clear();
    assert!(fb.buffer.iter().all(|&p| p == 0x0012_3456));
    assert_eq!(fb.background_color, 0x0012_3456);
}
