use expedition33_continente_inacabado::revelation::{
    all_regions_painted, arranca_el_finale, avanzan, se_activa, RevealPhase,
};

use RevealPhase::{Painted, Revealing, Unpainted};

#[test]
fn solo_un_grupo_en_lienzo_se_activa() {
    assert!(se_activa(Unpainted));
    assert!(!se_activa(Revealing), "no deberia reactivar");
    assert!(!se_activa(Painted), "ni sobre una region ya pintada");
}

#[test]
fn el_finale_espera_a_las_tres_regiones_pintadas() {
    assert!(!all_regions_painted(&[Unpainted; 4]));
    assert!(!all_regions_painted(&[Painted, Painted, Unpainted, Unpainted]), "falta Aguas");
    assert!(!all_regions_painted(&[Painted, Painted, Revealing, Unpainted]));
    assert!(all_regions_painted(&[Painted, Painted, Painted, Unpainted]));
    // El finale no cuenta para su propia condicion.
    assert!(!all_regions_painted(&[Unpainted, Unpainted, Unpainted, Painted]));
}

#[test]
fn el_avance_no_toca_lo_que_nadie_activo() {
    assert_eq!(
        avanzan(&[Revealing, Unpainted, Painted, Revealing]),
        [true, false, false, true]
    );
    assert_eq!(avanzan(&[Unpainted; 4]), [false; 4]);
}

#[test]
fn el_finale_arranca_solo_al_terminar_las_tres_regiones() {
    assert!(!arranca_el_finale(&[Painted, Painted, Revealing, Unpainted]));
    assert!(arranca_el_finale(&[Painted, Painted, Painted, Unpainted]));
    // Una vez en curso, no se vuelve a arrancar.
    assert!(!arranca_el_finale(&[Painted, Painted, Painted, Revealing]));
    assert!(!arranca_el_finale(&[Painted, Painted, Painted, Painted]));
    // Ni se arranca a si mismo sin las regiones.
    assert!(!arranca_el_finale(&[Unpainted, Unpainted, Unpainted, Unpainted]));
}
