use expedition33_continente_inacabado::cli::{elegir_preset, numero, parsear, Opciones, Preset, Revelacion};
use expedition33_continente_inacabado::renderer::Shading;
use expedition33_continente_inacabado::scene::RevealGroup;

/// Los argumentos tal como llegan de la línea de órdenes, ya sin el nombre
/// del programa.
fn args(v: &[&str]) -> Vec<String> {
    v.iter().map(|s| s.to_string()).collect()
}

/// Lo que el binario calcula de cada argumento: si es el texto de un real.
fn reales(a: &[String]) -> Vec<bool> {
    a.iter().map(|s| s.parse::<f32>().is_ok()).collect()
}

fn leer(v: &[&str]) -> Result<Option<Opciones>, String> {
    let a = args(v);
    let r = reales(&a);
    parsear(&a, &r)
}

/// Las opciones leídas, o el mensaje de error.
fn opciones(v: &[&str]) -> Result<Opciones, String> {
    Ok(leer(v)?.expect("no es --help"))
}

/// Progreso de los cuatro grupos, en el orden de `RevealGroup::ALL`.
fn progresos(revelacion: &Revelacion) -> [f32; 4] {
    match revelacion {
        Revelacion::Global(texto) => {
            let p: f32 = texto.parse().expect("el texto es un real");
            [p, p, p, p]
        }
        Revelacion::PorRegion(grupos) => {
            let mut p = [0.0f32; 4];
            for (k, g) in RevealGroup::ALL.iter().enumerate() {
                if grupos.contains(g) {
                    p[k] = 1.0;
                }
            }
            p
        }
    }
}

fn estado(v: &[&str]) -> Result<[f32; 4], String> {
    Ok(progresos(&opciones(v)?.revelacion))
}

#[test]
fn sin_banderas_se_pinta_todo() {
    let reveal = estado(&[]).expect("sin banderas parsea");

    assert_eq!(reveal, [1.0, 1.0, 1.0, 1.0]);
}

#[test]
fn paint_de_una_region_deja_el_resto_en_lienzo() {
    let reveal = estado(&["--paint", "meadows"]).expect("parsea");

    assert_eq!(reveal, [1.0, 0.0, 0.0, 0.0]);
}

#[test]
fn paint_acumula_las_tres_regiones() {
    let reveal = estado(&[
        "--paint",
        "waters",
        "--paint",
        "meadows",
        "--paint",
        "breakwater",
    ])
    .expect("parsea");

    assert_eq!(reveal, [1.0, 1.0, 1.0, 0.0]);
}

#[test]
fn paint_con_las_cuatro_pinta_el_diorama_entero() {
    let reveal = estado(&[
        "--paint",
        "meadows",
        "--paint",
        "breakwater",
        "--paint",
        "waters",
        "--paint",
        "finale",
    ])
    .expect("parsea");

    assert_eq!(reveal, [1.0, 1.0, 1.0, 1.0]);
}

#[test]
fn paint_y_reveal_no_se_combinan_en_ningun_orden() {
    let primero = estado(&["--reveal", "0.5", "--paint", "meadows"]).unwrap_err();
    let segundo = estado(&["--paint", "meadows", "--reveal", "0.5"]).unwrap_err();

    assert!(primero.contains("no se combinan"), "{primero}");
    assert!(segundo.contains("no se combinan"), "{segundo}");
}

#[test]
fn el_finale_sin_las_tres_regiones_es_un_error() {
    let solo = estado(&["--paint", "finale"]).unwrap_err();

    assert!(solo.contains("meadows"), "{solo}");
    assert!(solo.contains("breakwater"), "{solo}");
    assert!(solo.contains("waters"), "{solo}");

    let casi = estado(&[
        "--paint",
        "meadows",
        "--paint",
        "breakwater",
        "--paint",
        "finale",
    ])
    .unwrap_err();

    assert!(casi.contains("waters"), "{casi}");
    assert!(
        !casi.contains("meadows"),
        "no deberia pedir lo ya pintado: {casi}"
    );
}

#[test]
fn un_grupo_repetido_es_un_error() {
    let error = estado(&["--paint", "meadows", "--paint", "meadows"]).unwrap_err();

    assert!(error.contains("repetido"), "{error}");
    assert!(error.contains("meadows"), "{error}");
}

#[test]
fn un_grupo_desconocido_lista_los_validos() {
    let error = estado(&["--paint", "flying_waters"]).unwrap_err();

    assert!(error.contains("flying_waters"), "{error}");
    for nombre in ["meadows", "breakwater", "waters", "finale"] {
        assert!(error.contains(nombre), "falta {nombre} en: {error}");
    }
}

#[test]
fn reveal_global_sigue_llegando_a_los_cuatro_grupos() {
    let reveal = estado(&["--reveal", "0.25"]).expect("parsea");

    assert_eq!(reveal, [0.25, 0.25, 0.25, 0.25]);
}

#[test]
fn la_ayuda_no_devuelve_opciones() {
    assert!(leer(&["--help"]).unwrap().is_none());
    assert!(leer(&["--width", "10", "-h"]).unwrap().is_none());
    // La ayuda manda aunque lo que siga estuviera mal escrito.
    assert!(leer(&["-h", "--width", "diez"]).unwrap().is_none());
}

#[test]
fn los_valores_por_defecto() {
    let o = opciones(&[]).unwrap();

    assert_eq!(o.preset, "blockout");
    assert_eq!(o.width, 800);
    assert_eq!(o.height, 600);
    assert_eq!(o.yaw, None);
    assert_eq!(o.elevation, None);
    assert_eq!(o.benchmark, 1);
    assert!(o.texturas);
    assert_eq!(o.shading, Shading::Material);
    assert_eq!(o.output, "evidence/renders/hero.png");
    assert!(matches!(o.revelacion, Revelacion::Global(ref t) if t == "1"));
}

#[test]
fn cada_bandera_llega_a_su_opcion() {
    let o = opciones(&[
        "--preset",
        "cubo",
        "--width",
        "320",
        "--height",
        "+240",
        "--yaw",
        "-12.5",
        "--elevation",
        "40",
        "--benchmark",
        "5",
        "--no-textures",
        "--shading",
        "normals",
        "--output",
        "salida.png",
    ])
    .unwrap();

    assert_eq!(o.preset, "cubo");
    assert_eq!(o.width, 320);
    assert_eq!(o.height, 240);
    assert_eq!(o.yaw.as_deref(), Some("-12.5"));
    assert_eq!(o.elevation.as_deref(), Some("40"));
    assert_eq!(o.benchmark, 5);
    assert!(!o.texturas);
    assert_eq!(o.shading, Shading::Normals);
    assert_eq!(o.output, "salida.png");
}

#[test]
fn la_ultima_aparicion_de_una_bandera_manda() {
    let o = opciones(&["--width", "10", "--width", "20", "--shading", "albedo"]).unwrap();

    assert_eq!(o.width, 20);
    assert_eq!(o.shading, Shading::Albedo);
}

#[test]
fn benchmark_cero_cuenta_como_una_pasada() {
    assert_eq!(opciones(&["--benchmark", "0"]).unwrap().benchmark, 1);
}

#[test]
fn una_bandera_sin_valor_es_un_error() {
    assert_eq!(
        leer(&["--width"]).unwrap_err(),
        "--width necesita un valor"
    );
}

#[test]
fn un_numero_mal_escrito_se_cita() {
    assert_eq!(
        leer(&["--width", "ancho"]).unwrap_err(),
        "--width espera un entero, no \"ancho\""
    );
    assert_eq!(
        leer(&["--benchmark", "-3"]).unwrap_err(),
        "--benchmark espera un entero, no \"-3\""
    );
}

#[test]
fn los_reales_mal_escritos_se_rechazan() {
    assert_eq!(
        leer(&["--yaw", "norte"]).unwrap_err(),
        "--yaw espera grados, no \"norte\""
    );
    assert_eq!(
        leer(&["--elevation", "alto"]).unwrap_err(),
        "--elevation espera grados, no \"alto\""
    );
    assert_eq!(
        leer(&["--reveal", "medio"]).unwrap_err(),
        "--reveal espera 0..1, no \"medio\""
    );
}

#[test]
fn un_tamano_nulo_es_un_error() {
    assert_eq!(
        leer(&["--width", "0"]).unwrap_err(),
        "el ancho y el alto deben ser mayores que cero"
    );
    assert_eq!(
        leer(&["--height", "0"]).unwrap_err(),
        "el ancho y el alto deben ser mayores que cero"
    );
}

#[test]
fn lo_desconocido_se_nombra() {
    assert_eq!(
        leer(&["--zoom", "2"]).unwrap_err(),
        "bandera desconocida: --zoom"
    );
    assert_eq!(
        leer(&["--shading", "toon"]).unwrap_err(),
        "shading desconocido: toon"
    );
}

#[test]
fn los_mensajes_de_combinacion_son_exactos() {
    assert_eq!(
        leer(&["--paint", "meadows", "--reveal", "0.5"]).unwrap_err(),
        "--reveal y --paint no se combinan: uno pinta los cuatro grupos a la vez y el otro elige cuales"
    );
    assert_eq!(
        leer(&["--reveal", "0.5", "--paint", "meadows"]).unwrap_err(),
        "--paint y --reveal no se combinan: uno elige que grupos se pintan y el otro los pinta todos"
    );
    assert_eq!(
        leer(&["--paint", "finale"]).unwrap_err(),
        "--paint finale exige pintar antes meadows, breakwater, waters: el Monolito se revela al completarse el Continente, no se elige"
    );
    assert_eq!(
        leer(&["--paint", "nube"]).unwrap_err(),
        "--paint no conoce \"nube\"; los grupos son meadows, breakwater, waters, finale"
    );
    assert_eq!(
        leer(&["--paint", "waters", "--paint", "waters"]).unwrap_err(),
        "--paint waters esta repetido"
    );
}

#[test]
fn el_orden_de_paint_se_conserva() {
    let o = opciones(&["--paint", "waters", "--paint", "meadows"]).unwrap();

    match o.revelacion {
        Revelacion::PorRegion(grupos) => {
            assert_eq!(grupos, vec![RevealGroup::FlyingWaters, RevealGroup::Meadows]);
        }
        otra => panic!("se esperaba una revelación por regiones: {otra:?}"),
    }
}

#[test]
fn reveal_repetido_se_queda_con_el_ultimo() {
    assert_eq!(
        estado(&["--reveal", "0.25", "--reveal", "0.75"]).unwrap(),
        [0.75, 0.75, 0.75, 0.75]
    );
}

#[test]
fn los_nombres_de_los_grupos_van_y_vuelven() {
    for g in RevealGroup::ALL {
        assert_eq!(Revelacion::grupo(Revelacion::nombre(g)), Ok(g));
    }
    assert_eq!(Revelacion::nombre(RevealGroup::FlyingWaters), "waters");
}

#[test]
fn numero_acepta_un_mas_y_rechaza_espacios() {
    assert_eq!(numero("--width", "+7"), Ok(7));
    assert_eq!(numero("--width", "007"), Ok(7));
    assert_eq!(
        numero("--width", " 7"),
        Err("--width espera un entero, no \" 7\"".to_string())
    );
    assert_eq!(
        numero("--height", ""),
        Err("--height espera un entero, no \"\"".to_string())
    );
}

#[test]
fn cada_preset_se_elige_por_su_nombre() {
    assert_eq!(elegir_preset("safe-refractive-water"), Ok(Preset::SafeRefractiveWater));
    assert_eq!(elegir_preset("safe-interior-visible"), Ok(Preset::SafeInteriorVisible));
    assert_eq!(elegir_preset("safe-opaque-water"), Ok(Preset::SafeOpaqueWater));
    assert_eq!(elegir_preset("blockout"), Ok(Preset::Blockout));
    assert_eq!(elegir_preset("cubo"), Ok(Preset::Cubo));
    assert_eq!(
        elegir_preset("cubito"),
        Err("preset desconocido: cubito".to_string())
    );
}
