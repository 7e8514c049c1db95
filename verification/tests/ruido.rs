use expedition33_continente_inacabado::ruido::{envolver, valor_entero};

#[test]
fn el_valor_de_una_celda_es_el_del_hash() {
    assert_eq!(valor_entero(0, 0, 0), 0);
    assert_eq!(valor_entero(1, 2, 7), 12_320_043);
    assert_eq!(valor_entero(-1, 3, 42), 5_564_032);
    assert_eq!(valor_entero(5, -9, 3), 16_360_921);
}

#[test]
fn el_valor_cabe_en_veinticuatro_bits_y_se_repite() {
    for x in -20..20 {
        for y in -20..20 {
            let v = valor_entero(x, y, 11);
            assert!(v < 1 << 24);
            assert_eq!(v, valor_entero(x, y, 11));
        }
    }
    assert_ne!(valor_entero(1, 2, 7), valor_entero(2, 1, 7));
    assert_ne!(valor_entero(1, 2, 7), valor_entero(1, 2, 8));
}

#[test]
fn la_rejilla_envuelve_en_los_dos_sentidos() {
    assert_eq!(envolver(0, 8), 0);
    assert_eq!(envolver(8, 8), 0);
    assert_eq!(envolver(9, 8), 1);
    assert_eq!(envolver(-1, 8), 7);
    assert_eq!(envolver(-8, 8), 0);
    assert_eq!(envolver(-9, 8), 7);
    for i in -40..40 {
        assert_eq!(envolver(i + 3 * 5, 5), envolver(i, 5));
        assert_eq!(
            valor_entero(envolver(i + 5, 5), envolver(i - 5, 5), 3),
            valor_entero(envolver(i, 5), envolver(i, 5), 3)
        );
    }
}
