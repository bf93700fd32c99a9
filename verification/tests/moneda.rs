use notificador::moneda::convertir_cents_a_moneda;

#[test]
fn test_valor_invalido() {
    let resultado = convertir_cents_a_moneda(-100, "USD");
    assert_eq!(resultado, "Valor invalido");
}

#[test]
fn test_codigo_moneda_invalido() {
    let resultado = convertir_cents_a_moneda(200, "ABC");
    assert_eq!(resultado, "Codigo de moneda invalido");
}

#[test]
fn test_conversion_usd() {
    let resultado = convertir_cents_a_moneda(1234, "USD");
    assert_eq!(resultado, "$12.34");
}

#[test]
fn test_conversion_eur() {
    let resultado = convertir_cents_a_moneda(50, "EUR");
    assert_eq!(resultado, "€0.50");
}

#[test]
fn test_conversion_otro_ejemplo() {
    let resultado = convertir_cents_a_moneda(2000, "USD");
    assert_eq!(resultado, "$20.00");
}

#[test]
fn conversion_gbp() {
    assert_eq!(convertir_cents_a_moneda(995, "GBP"), "£9.95");
}

#[test]
fn conversion_de_cero() {
    assert_eq!(convertir_cents_a_moneda(0, "USD"), "$0.00");
}

#[test]
fn conversion_de_un_centavo() {
    assert_eq!(convertir_cents_a_moneda(1, "EUR"), "€0.01");
    assert_eq!(convertir_cents_a_moneda(9, "EUR"), "€0.09");
    assert_eq!(convertir_cents_a_moneda(10, "EUR"), "€0.10");
}

#[test]
fn conversion_del_mayor_valor() {
    assert_eq!(convertir_cents_a_moneda(i32::MAX, "USD"), "$21474836.47");
}

#[test]
fn conversion_con_centenas_exactas() {
    assert_eq!(convertir_cents_a_moneda(100, "USD"), "$1.00");
    assert_eq!(convertir_cents_a_moneda(100000, "GBP"), "£1000.00");
}

#[test]
fn valor_negativo_antes_que_codigo_desconocido() {
    assert_eq!(convertir_cents_a_moneda(-1, "ABC"), "Valor invalido");
    assert_eq!(convertir_cents_a_moneda(i32::MIN, "GBP"), "Valor invalido");
}

#[test]
fn codigo_en_minusculas_es_desconocido() {
    assert_eq!(convertir_cents_a_moneda(1000, "usd"), "Codigo de moneda invalido");
    assert_eq!(convertir_cents_a_moneda(1000, "EURR"), "Codigo de moneda invalido");
    assert_eq!(convertir_cents_a_moneda(1000, ""), "Codigo de moneda invalido");
}

#[test]
fn conversion_coincide_con_el_formato_decimal() {
    for centavos in [0, 5, 99, 101, 1999, 123456, 99999999] {
        let esperado = format!("${:.2}", centavos as f64 / 100.0);
        assert_eq!(convertir_cents_a_moneda(centavos, "USD"), esperado);
    }
}
