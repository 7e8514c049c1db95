use expedition33_continente_inacabado::brush_palette::{
    ancho_de_texto, dibujar_paleta, dibujar_texto, etiqueta_de_la_capsula, glifo,
    herramienta_de_tecla, herramienta_elegible_de_tecla, pigmento, tela, Disposicion, Herramienta, Impacto, Paleta, Rect,
    ALTO_GLIFO, ANCHO_GLIFO, ESCALA_DE_LA_ETIQUETA, NUM_PIGMENTOS, NUM_TEXTURAS,
    TECLA_DE_LA_PALETA,
};
use expedition33_continente_inacabado::framebuffer::Framebuffer;

const ANCHO: usize = 800;
const ALTO: usize = 600;

/// Todas las telas disponibles, que es el caso normal del diorama.
fn todas() -> [bool; NUM_TEXTURAS] {
    [true; NUM_TEXTURAS]
}

fn centro(r: Rect) -> (usize, usize) {
    (r.x + r.ancho / 2, r.y + r.alto / 2)
}

#[test]
fn la_capsula_esta_siempre_disponible_aunque_el_panel_este_plegado() {
    let plegado = Disposicion::calcular(false, ANCHO, ALTO, &todas());

    assert!(plegado.panel.is_none(), "plegado no dibuja panel");
    assert!(plegado.celdas.is_empty(), "plegado no ofrece celdas");

    let capsula = plegado.capsula;
    assert!(capsula.ancho > 0 && capsula.alto > 0);
    assert!(
        capsula.x + capsula.ancho <= ANCHO && capsula.y + capsula.alto <= ALTO,
        "la capsula se sale del cuadro: {capsula:?}"
    );
    assert!(
        capsula.x > ANCHO / 2 && capsula.y > ALTO / 2,
        "la capsula deberia caer abajo a la derecha: {capsula:?}"
    );
}

#[test]
fn abierto_el_panel_ofrece_revelar_los_pigmentos_y_las_telas() {
    let abierto = Disposicion::calcular(true, ANCHO, ALTO, &todas());
    let panel = abierto.panel.expect("abierto dibuja panel");

    assert_eq!(abierto.celdas.len(), 1 + NUM_PIGMENTOS + NUM_TEXTURAS, "faltan celdas");

    assert_eq!(abierto.celdas[0].herramienta, Herramienta::Revelar);
    for i in 0..NUM_PIGMENTOS {
        assert_eq!(
            abierto.celdas[1 + i].herramienta,
            Herramienta::Pigmento(i),
            "celda {i} de pigmento"
        );
    }
    for i in 0..NUM_TEXTURAS {
        assert_eq!(
            abierto.celdas[1 + NUM_PIGMENTOS + i].herramienta,
            Herramienta::Textura(i),
            "celda {i} de textura"
        );
    }

    assert!(panel.x + panel.ancho <= ANCHO && panel.y + panel.alto <= ALTO);

    for celda in &abierto.celdas {
        let r = celda.rect;

        assert!(
            r.x >= panel.x
                && r.y >= panel.y
                && r.x + r.ancho <= panel.x + panel.ancho
                && r.y + r.alto <= panel.y + panel.alto,
            "la celda {:?} se sale del panel {panel:?}",
            celda.herramienta
        );
    }
}

#[test]
fn las_celdas_no_se_solapan() {
    let abierto = Disposicion::calcular(true, ANCHO, ALTO, &todas());

    for (i, a) in abierto.celdas.iter().enumerate() {
        for b in abierto.celdas.iter().skip(i + 1) {
            let solapa = a.rect.x < b.rect.x + b.rect.ancho
                && b.rect.x < a.rect.x + a.rect.ancho
                && a.rect.y < b.rect.y + b.rect.alto
                && b.rect.y < a.rect.y + a.rect.alto;

            assert!(!solapa, "{:?} y {:?} se solapan", a.herramienta, b.herramienta);
        }
    }
}

#[test]
fn el_hit_test_distingue_capsula_celda_y_fuera() {
    let abierto = Disposicion::calcular(true, ANCHO, ALTO, &todas());

    let (x, y) = centro(abierto.capsula);
    assert_eq!(abierto.impacto_en(x, y), Impacto::Capsula, "el centro de la capsula");

    for (i, celda) in abierto.celdas.iter().enumerate() {
        let (x, y) = centro(celda.rect);
        assert_eq!(abierto.impacto_en(x, y), Impacto::Celda(i), "el centro de la celda {i}");
    }

    // Arriba a la izquierda no hay interfaz: ahi se pinta.
    assert_eq!(abierto.impacto_en(10, 10), Impacto::Fuera);
    // Y tampoco fuera de la ventana.
    assert_eq!(abierto.impacto_en(5000, 300), Impacto::Fuera);
}

#[test]
fn plegado_solo_la_capsula_consume_el_clic() {
    let plegado = Disposicion::calcular(false, ANCHO, ALTO, &todas());
    let (x, y) = centro(plegado.capsula);

    assert_eq!(plegado.impacto_en(x, y), Impacto::Capsula);

    let abierto = Disposicion::calcular(true, ANCHO, ALTO, &todas());
    let panel = abierto.panel.expect("abierto tiene panel");
    let (x, y) = (panel.x + 5, panel.y + 5);

    assert_eq!(plegado.impacto_en(x, y), Impacto::Fuera);
    assert_ne!(abierto.impacto_en(x, y), Impacto::Fuera);
}

#[test]
fn el_hueco_entre_celdas_lo_consume_el_panel() {
    let abierto = Disposicion::calcular(true, ANCHO, ALTO, &todas());
    let primera = abierto.celdas[0].rect;

    // Justo a la derecha de la primera celda hay hueco, no celda.
    let x = primera.x + primera.ancho + 1;
    let y = primera.y + 1;

    assert_eq!(abierto.impacto_en(x, y), Impacto::Celda(usize::MAX));
}

#[test]
fn una_tela_que_falta_no_se_puede_elegir() {
    let mut disponibles = todas();
    disponibles[2] = false;

    let abierto = Disposicion::calcular(true, ANCHO, ALTO, &disponibles);
    let celda = abierto
        .celdas
        .iter()
        .find(|c| c.herramienta == Herramienta::Textura(2))
        .expect("la celda existe aunque la tela falte");

    assert!(!celda.activable, "la celda de una tela ausente no se elige");

    for celda in &abierto.celdas {
        if celda.herramienta != Herramienta::Textura(2) {
            assert!(celda.activable, "{:?} deberia activarse", celda.herramienta);
        }
    }
}

#[test]
fn una_lista_de_telas_corta_deja_las_demas_sin_activar() {
    let abierto = Disposicion::calcular(true, ANCHO, ALTO, &[true, true]);

    for i in 0..NUM_TEXTURAS {
        assert_eq!(abierto.celdas[1 + NUM_PIGMENTOS + i].activable, i < 2, "tela {i}");
    }
}

#[test]
fn la_disposicion_tiene_las_medidas_del_panel() {
    let abierto = Disposicion::calcular(true, ANCHO, ALTO, &todas());
    let panel = abierto.panel.expect("abierto");

    assert_eq!(abierto.capsula, Rect { x: 660, y: 562, ancho: 128, alto: 26 });
    assert_eq!(panel, Rect { x: 530, y: 434, ancho: 258, alto: 116 });
    assert_eq!(abierto.celdas[0].rect, Rect { x: 542, y: 464, ancho: 34, alto: 34 });
    assert_eq!(abierto.celdas[7].rect, Rect { x: 582, y: 504, ancho: 34, alto: 34 });
}

#[test]
fn en_una_ventana_diminuta_todo_se_apoya_en_el_origen() {
    let plegado = Disposicion::calcular(false, 50, 20, &todas());

    assert_eq!(plegado.capsula, Rect { x: 0, y: 0, ancho: 50, alto: 20 });
}

#[test]
fn el_estado_recuerda_la_herramienta_y_el_plegado() {
    let mut estado = Paleta::default();

    assert!(!estado.abierta(), "arranca plegada");
    assert_eq!(estado.herramienta(), Herramienta::Revelar);

    estado.alternar();
    assert!(estado.abierta(), "P la abre");

    assert!(estado.elegir(Herramienta::Pigmento(3)));
    assert_eq!(estado.herramienta(), Herramienta::Pigmento(3));
    assert!(estado.abierta(), "elegir no pliega el panel");

    assert!(!estado.elegir(Herramienta::Pigmento(3)));

    estado.alternar();
    assert!(!estado.abierta(), "P la pliega");
}

#[test]
fn las_teclas_y_la_interfaz_leen_la_misma_tabla() {
    for i in 0..NUM_PIGMENTOS {
        let pigmento = pigmento(i);
        assert_eq!(
            herramienta_de_tecla(pigmento.tecla),
            Some(Herramienta::Pigmento(i)),
            "la tecla {} del pigmento {}",
            pigmento.tecla,
            pigmento.nombre
        );
    }

    for i in 0..NUM_TEXTURAS {
        let tela = tela(i);
        assert_eq!(
            herramienta_de_tecla(tela.tecla),
            Some(Herramienta::Textura(i)),
            "la tecla {} de la tela {}",
            tela.tecla,
            tela.nombre
        );
    }

    assert_eq!(herramienta_de_tecla('q'), Some(Herramienta::Revelar));
    assert_eq!(herramienta_de_tecla('k'), None, "una tecla ajena no elige");
}

#[test]
fn las_teclas_de_la_paleta_no_distinguen_mayusculas() {
    assert_eq!(herramienta_de_tecla('Q'), Some(Herramienta::Revelar));
    assert_eq!(herramienta_de_tecla('Z'), Some(Herramienta::Textura(2)));
    assert_eq!(herramienta_de_tecla('V'), Some(Herramienta::Textura(5)));
}

#[test]
fn cada_herramienta_sabe_su_nombre_y_su_tecla() {
    assert_eq!(Herramienta::Revelar.nombre(), "revelar");
    assert_eq!(Herramienta::Revelar.tecla(), 'q');
    assert_eq!(Herramienta::Pigmento(0).nombre(), "Carmesi");
    assert_eq!(Herramienta::Pigmento(4).tecla(), '8');
    assert_eq!(Herramienta::Textura(1).nombre(), "Pradera");
    assert_eq!(Herramienta::Textura(3).tecla(), 'x');
    assert_eq!(tela(1).indice, 4);
}

#[test]
fn ninguna_tecla_de_la_paleta_choca_con_las_de_la_demo() {
    const RESERVADAS: [char; 9] = ['1', '2', '3', 'l', 'r', 'w', 's', 'm', 'n'];

    for reservada in RESERVADAS {
        assert_eq!(herramienta_de_tecla(reservada), None, "la tecla {reservada} ya tiene dueno");
    }

    assert_eq!(
        herramienta_de_tecla(TECLA_DE_LA_PALETA),
        None,
        "la tecla de la paleta no puede elegir herramienta"
    );
}

const LETRAS_NECESARIAS: [char; 7] = ['P', 'A', 'B', 'R', 'I', 'C', 'E'];

#[test]
fn hay_glifo_para_cada_letra_de_la_capsula() {
    for texto in [etiqueta_de_la_capsula(false), etiqueta_de_la_capsula(true)] {
        for letra in texto.chars() {
            let trazo = glifo(letra)
                .unwrap_or_else(|| panic!("no hay glifo para {letra:?}, que aparece en {texto:?}"));

            if letra != ' ' {
                assert!(trazo.iter().any(|fila| *fila != 0), "el glifo de {letra:?} esta vacio");
            }
        }
    }

    for letra in LETRAS_NECESARIAS {
        assert!(glifo(letra).is_some(), "falta el glifo de {letra:?}");
    }
}

#[test]
fn los_glifos_no_distinguen_mayusculas_y_las_letras_ajenas_no_tienen() {
    assert_eq!(glifo('p'), glifo('P'));
    assert_eq!(glifo('e'), Some([0b11111, 0b10000, 0b10000, 0b11110, 0b10000, 0b10000, 0b11111]));
    assert_eq!(glifo('Z'), None);
    assert_eq!(glifo('1'), None);
}

#[test]
fn el_texto_dibuja_la_huella_exacta_de_sus_glifos() {
    const ESCALA: usize = 2;
    const TINTA_DE_PRUEBA: u32 = 0x00ABCDEF;

    let texto = etiqueta_de_la_capsula(false);
    let mut fb = Framebuffer::new(300, 40);
    let ancho = dibujar_texto(&mut fb, 4, 5, texto, ESCALA, TINTA_DE_PRUEBA);

    assert!(ancho > 0, "no se dibujo nada");

    let mut avance = 4usize;

    for letra in texto.chars() {
        let trazo = glifo(letra).expect("la letra tiene glifo");

        for (fila, bits) in trazo.iter().enumerate() {
            for columna in 0..ANCHO_GLIFO {
                let encendido = bits & (1 << (ANCHO_GLIFO - 1 - columna)) != 0;

                for dy in 0..ESCALA {
                    for dx in 0..ESCALA {
                        let x = avance + columna * ESCALA + dx;
                        let y = 5 + fila * ESCALA + dy;
                        let pixel = fb.buffer[y * 300 + x];

                        assert_eq!(
                            pixel == TINTA_DE_PRUEBA,
                            encendido,
                            "{letra:?} fila {fila} columna {columna} en ({x}, {y})"
                        );
                    }
                }
            }
        }

        avance += (ANCHO_GLIFO + 1) * ESCALA;
    }
}

#[test]
fn las_dos_etiquetas_se_distinguen_en_pantalla() {
    const ESCALA: usize = 2;

    let mut plegada = Framebuffer::new(300, 40);
    let mut abierta = Framebuffer::new(300, 40);

    dibujar_texto(&mut plegada, 4, 5, etiqueta_de_la_capsula(false), ESCALA, 0x00FFFFFF);
    dibujar_texto(&mut abierta, 4, 5, etiqueta_de_la_capsula(true), ESCALA, 0x00FFFFFF);

    assert_ne!(plegada.buffer, abierta.buffer, "las dos etiquetas pintan lo mismo");
}

#[test]
fn la_etiqueta_cabe_dentro_de_la_capsula() {
    let disposicion = Disposicion::calcular(false, ANCHO, ALTO, &todas());
    let capsula = disposicion.capsula;

    let mut fb = Framebuffer::new(ANCHO, ALTO);
    let ancho = dibujar_texto(
        &mut fb,
        0,
        0,
        etiqueta_de_la_capsula(true),
        ESCALA_DE_LA_ETIQUETA,
        0x00FFFFFF,
    );
    let alto = ALTO_GLIFO * ESCALA_DE_LA_ETIQUETA;

    assert!(ancho < capsula.ancho, "la etiqueta mide {ancho} px y la capsula {}", capsula.ancho);
    assert!(alto < capsula.alto, "la etiqueta mide {alto} px de alto y la capsula {}", capsula.alto);
}

#[test]
fn el_texto_se_recorta_contra_el_framebuffer() {
    let mut fb = Framebuffer::new(20, 12);

    dibujar_texto(&mut fb, 15, 8, etiqueta_de_la_capsula(true), 2, 0x00FFFFFF);

    assert_eq!(fb.buffer.len(), 20 * 12, "el buffer cambio de tamano");
}

#[test]
fn el_ancho_de_un_texto_no_arrastra_la_ultima_separacion() {
    assert_eq!(ancho_de_texto("", 3), 0);
    assert_eq!(ancho_de_texto("P", 1), 5);
    assert_eq!(ancho_de_texto("P ABRIR", 2), (7 * 6 - 1) * 2);
    assert_eq!(dibujar_texto(&mut Framebuffer::new(4, 4), 0, 0, "P ABRIR", 2, 1), 82);
    assert_eq!(dibujar_texto(&mut Framebuffer::new(4, 4), 0, 0, "P ABRIR", 0, 1), 0);
}

#[test]
fn una_letra_sin_glifo_deja_su_hueco() {
    let mut con_hueco = Framebuffer::new(40, 10);
    let mut sola = Framebuffer::new(40, 10);

    dibujar_texto(&mut con_hueco, 0, 0, "ZP", 1, 7);
    dibujar_texto(&mut sola, 6, 0, "P", 1, 7);

    assert_eq!(con_hueco.buffer, sola.buffer);
}

#[test]
fn la_paleta_abierta_marca_la_herramienta_activa_y_escribe_su_etiqueta() {
    let disposicion = Disposicion::calcular(true, ANCHO, ALTO, &todas());
    let mut paleta = Paleta::default();
    paleta.alternar();
    paleta.elegir(Herramienta::Pigmento(1));

    let colores = [0x00AA0000, 0x00BB0000, 0x00CC0000, 0x00DD0000, 0x00EE0000];
    let miniaturas: Vec<Option<Vec<u32>>> = (0..NUM_TEXTURAS)
        .map(|i| if i == 0 { Some(vec![0x00123456; 34 * 34]) } else { None })
        .collect();

    let mut fb = Framebuffer::new(ANCHO, ALTO);
    dibujar_paleta(&mut fb, &disposicion, &paleta, &colores, &miniaturas);

    let pixel = |x: usize, y: usize| fb.buffer[y * ANCHO + x];

    // El pigmento activo lleva su color por dentro y el marco de seleccion.
    let activa = disposicion.celdas[2].rect;
    assert_eq!(pixel(activa.x + 10, activa.y + 10), 0x00BB0000);
    assert_eq!(pixel(activa.x, activa.y), 0x00F0C86A);
    assert_eq!(pixel(activa.x + 2, activa.y + 5), 0x00F0C86A);

    // Un pigmento inactivo lleva el marco normal.
    let otra = disposicion.celdas[1].rect;
    assert_eq!(pixel(otra.x, otra.y), 0x00C8B489);
    assert_eq!(pixel(otra.x + 10, otra.y + 10), 0x00AA0000);

    // La primera tela muestra su miniatura; la segunda, ausente, va tachada.
    let lienzo = disposicion.celdas[6].rect;
    assert_eq!(pixel(lienzo.x + 10, lienzo.y + 5), 0x00123456);
    let ausente = disposicion.celdas[7].rect;
    assert_eq!(pixel(ausente.x + 10, ausente.y + 10), 0x00E8DFC8);
    assert_eq!(pixel(ausente.x + 20, ausente.y + 5), 0x003A3542);

    // Lejos de la interfaz no se toca nada.
    assert_eq!(pixel(10, 10), 0);

    // La etiqueta de la capsula se escribe con tinta.
    let c = disposicion.capsula;
    let tinta = (c.y..c.y + c.alto)
        .flat_map(|y| (c.x..c.x + c.ancho).map(move |x| (x, y)))
        .filter(|&(x, y)| pixel(x, y) == 0x00E8DFC8)
        .count();
    assert!(tinta > 0, "la etiqueta no se escribio");
}

#[test]
fn la_paleta_plegada_solo_dibuja_la_capsula() {
    let disposicion = Disposicion::calcular(false, ANCHO, ALTO, &todas());
    let paleta = Paleta::default();
    let mut fb = Framebuffer::new(ANCHO, ALTO);

    dibujar_paleta(&mut fb, &disposicion, &paleta, &[0; 5], &[]);

    let c = disposicion.capsula;
    let fuera = fb
        .buffer
        .iter()
        .enumerate()
        .filter(|(i, p)| {
            let (x, y) = (i % ANCHO, i / ANCHO);
            let dentro = x >= c.x && x < c.x + c.ancho && y >= c.y && y < c.y + c.alto;
            !dentro && **p != 0
        })
        .count();

    assert_eq!(fuera, 0, "se pinto fuera de la capsula");
    assert_eq!(fb.buffer[(c.y + 1) * ANCHO + c.x + 1], 0x00272231);
}

#[test]
fn una_tela_sin_cargar_no_se_elige_por_teclado() {
    let mut disponibles = [true; NUM_TEXTURAS];
    disponibles[2] = false;

    assert_eq!(herramienta_elegible_de_tecla('z', &disponibles), None);
    assert_eq!(herramienta_elegible_de_tecla('x', &disponibles), Some(Herramienta::Textura(3)));
    assert_eq!(herramienta_elegible_de_tecla('4', &disponibles), Some(Herramienta::Pigmento(0)));
    assert_eq!(herramienta_elegible_de_tecla('q', &disponibles), Some(Herramienta::Revelar));
    assert_eq!(herramienta_elegible_de_tecla('k', &disponibles), None);
    assert_eq!(
        herramienta_elegible_de_tecla('Z', &[true; NUM_TEXTURAS]),
        Some(Herramienta::Textura(2))
    );
}
