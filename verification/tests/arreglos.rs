use notificador::arreglos::{
    acceder_array, generar_rango, manipula_array, mi_filter, mi_mapa, mi_reduce,
    organizar_por_tipo, sumar_elementos, usa_filter, usa_map, usa_reduce, Organizado, Valor,
    RANGO_NEGATIVO,
};

#[test]
fn acceder_array_devuelve_el_elemento() {
    let arr = vec!['a', 'b', 'c'];
    assert_eq!(acceder_array(&arr, 2), Some('c'));
    assert_eq!(acceder_array(&arr, 0), Some('a'));
}

#[test]
fn acceder_array_fuera_de_rango() {
    let arr = vec!['a', 'b', 'c'];
    assert_eq!(acceder_array(&arr, 3), None);
    assert_eq!(acceder_array(&arr, usize::MAX), None);
    let vacio: Vec<String> = Vec::new();
    assert_eq!(acceder_array(&vacio, 0), None);
}

#[test]
fn manipula_array_devuelve_el_segundo() {
    assert_eq!(manipula_array(1, 2, 3), 2);
    assert_eq!(manipula_array("x".to_string(), "y".to_string(), "z".to_string()), "y");
}

#[test]
fn sumar_elementos_suma_todo() {
    assert_eq!(sumar_elementos(&vec![200, 200, 20]), Ok(420));
    assert_eq!(sumar_elementos(&vec![]), Ok(0));
    assert_eq!(sumar_elementos(&vec![-5, 5, -7]), Ok(-7));
}

#[test]
fn sumar_elementos_con_sumas_parciales_grandes() {
    assert_eq!(sumar_elementos(&vec![i32::MAX, i32::MAX, i32::MIN, i32::MIN]), Ok(-2));
    assert_eq!(sumar_elementos(&vec![i32::MAX, 1, -1]), Ok(i32::MAX));
}

#[test]
fn generar_rango_incluye_los_extremos() {
    assert_eq!(generar_rango(10), Ok(vec![0, 1, 2, 3, 4, 5, 6, 7, 8, 9, 10]));
    assert_eq!(generar_rango(0), Ok(vec![0]));
}

#[test]
fn generar_rango_negativo_es_error() {
    assert_eq!(generar_rango(-1), Err(RANGO_NEGATIVO));
    assert_eq!(generar_rango(i32::MIN), Err("n no puede ser negativo"));
}

#[test]
fn organizar_por_tipo_separa_numeros_y_textos() {
    let entrada = vec![
        Valor::Numero(1),
        Valor::Texto(String::from("hola")),
        Valor::Numero(3),
        Valor::Texto(String::from("mundo")),
    ];
    let esperado = Organizado {
        numbers: vec![1, 3],
        strings: vec!["hola".to_string(), "mundo".to_string()],
    };
    assert_eq!(organizar_por_tipo(&entrada), esperado);
}

#[test]
fn organizar_por_tipo_sin_valores() {
    let organizado = organizar_por_tipo(&Vec::new());
    assert_eq!(organizado, Organizado { numbers: vec![], strings: vec![] });
    let solo_textos = organizar_por_tipo(&vec![Valor::Texto("a".to_string())]);
    assert_eq!(solo_textos, Organizado { numbers: vec![], strings: vec!["a".to_string()] });
}

#[test]
fn mi_mapa_aplica_la_funcion() {
    assert_eq!(mi_mapa(&vec![1, 2, 3, 4], |x| x * 2), vec![2, 4, 6, 8]);
    let vacio: Vec<i32> = Vec::new();
    assert_eq!(mi_mapa(&vacio, |x| x * 2), Vec::<i32>::new());
}

#[test]
fn mi_mapa_llama_en_orden_y_una_vez() {
    let mut vistos = Vec::new();
    let largos = mi_mapa(&vec!["a", "bb", "ccc"], |t: &&str| {
        vistos.push(t.to_string());
        t.len()
    });
    assert_eq!(largos, vec![1, 2, 3]);
    assert_eq!(vistos, vec!["a", "bb", "ccc"]);
}

#[test]
fn mi_filter_conserva_los_elegidos() {
    assert_eq!(mi_filter(&vec![1, 2, 3, 4, 5, 6], |x| x % 2 == 0), vec![2, 4, 6]);
    assert_eq!(mi_filter(&vec![1, 3, 5], |x| x % 2 == 0), Vec::<i32>::new());
}

#[test]
fn mi_filter_pregunta_una_vez_por_elemento() {
    let mut preguntas = 0;
    let pares = mi_filter(&vec![2, 2, 3, 2], |x| {
        preguntas += 1;
        *x == 2
    });
    assert_eq!(pares, vec![2, 2, 2]);
    assert_eq!(preguntas, 4);
}

#[test]
fn mi_reduce_acumula() {
    assert_eq!(mi_reduce(&vec![1, 2, 3, 4], |acc, x| acc + x, 0), 10);
    assert_eq!(mi_reduce(&Vec::<i32>::new(), |acc, x| acc + x, 7), 7);
}

#[test]
fn mi_reduce_va_de_izquierda_a_derecha() {
    let frase = mi_reduce(
        &vec!["a", "b", "c"],
        |acc: String, x: &&str| format!("({}{})", acc, x),
        String::from("-"),
    );
    assert_eq!(frase, "(((-a)b)c)");
}

#[test]
fn usa_map_aplica_la_funcion() {
    assert_eq!(usa_map(vec![1, 2, 3, 4], |x| x * 3), vec![3, 6, 9, 12]);
    assert_eq!(usa_map(vec!["a".to_string()], |t| t + "!"), vec!["a!"]);
}

#[test]
fn usa_filter_conserva_los_elegidos() {
    assert_eq!(usa_filter(vec![1, 2, 3, 4, 5, 6], |x| x % 2 != 0), vec![1, 3, 5]);
    assert_eq!(usa_filter(Vec::<i32>::new(), |_| true), Vec::<i32>::new());
}

#[test]
fn usa_reduce_acumula() {
    assert_eq!(usa_reduce(vec![1, 2, 3, 4], |acc, x| acc * x, 1), 24);
    assert_eq!(
        usa_reduce(vec!["a", "b", "c"], |acc: String, x| format!("({}{})", acc, x), String::new()),
        "(((a)b)c)"
    );
}

#[test]
fn la_copia_de_un_valor_es_igual_al_valor() {
    let numero = Valor::Numero(-7);
    let texto = Valor::Texto("hola".to_string());
    assert_eq!(numero.clone(), Valor::Numero(-7));
    assert_eq!(texto.clone(), Valor::Texto("hola".to_string()));
    assert_ne!(texto.clone(), numero);
}
