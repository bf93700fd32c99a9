use notificador::texto::{cual_es_tu_nombre, evaluar_longitud};

#[test]
fn test_juan_perez() {
    assert_eq!(cual_es_tu_nombre("Juan", "Pérez"), "Hola Juan Pérez!");
}

#[test]
fn test_ana_gomez() {
    assert_eq!(cual_es_tu_nombre("Ana", "Gómez"), "Hola Ana Gómez!");
}

#[test]
fn test_evaluar_longitud() {
    assert_eq!(evaluar_longitud("Ada"), "El texto 'Ada' es corto");
    assert_eq!(evaluar_longitud("Lovelace"), "El texto 'Lovelace' es largo");
}

#[test]
fn saludo_con_nombres_vacios() {
    assert_eq!(cual_es_tu_nombre("", ""), "Hola  !");
}

#[test]
fn saludo_de_paola_nava() {
    assert_eq!(cual_es_tu_nombre("Paola", "Nava"), "Hola Paola Nava!");
}

#[test]
fn cinco_caracteres_es_corto_y_seis_es_largo() {
    assert_eq!(evaluar_longitud("abcde"), "El texto 'abcde' es corto");
    assert_eq!(evaluar_longitud("abcdef"), "El texto 'abcdef' es largo");
    assert_eq!(evaluar_longitud(""), "El texto '' es corto");
}

#[test]
fn la_longitud_se_cuenta_en_caracteres() {
    assert_eq!("Pérez".len(), 6);
    assert_eq!(evaluar_longitud("Pérez"), "El texto 'Pérez' es corto");
    assert_eq!(evaluar_longitud("Gómezz"), "El texto 'Gómezz' es largo");
}
