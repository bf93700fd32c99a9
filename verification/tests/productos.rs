use notificador::productos::{
    get_product_handles, get_product_handles_and_ids, get_product_ids, Product,
};

fn catalogo() -> Vec<Product> {
    vec![
        Product { id: 42, handle: "simple-tee".to_string() },
        Product { id: 256, handle: "casual-tee".to_string() },
    ]
}

#[test]
fn handles_en_el_orden_de_la_lista() {
    assert_eq!(get_product_handles(&catalogo()), vec!["simple-tee", "casual-tee"]);
}

#[test]
fn ids_en_el_orden_de_la_lista() {
    assert_eq!(get_product_ids(&catalogo()), vec![42, 256]);
}

#[test]
fn ids_con_sus_handles() {
    assert_eq!(
        get_product_handles_and_ids(&catalogo()),
        vec![(42, "simple-tee".to_string()), (256, "casual-tee".to_string())]
    );
}

#[test]
fn lista_vacia_de_productos() {
    let ninguno: Vec<Product> = Vec::new();
    assert!(get_product_handles(&ninguno).is_empty());
    assert!(get_product_ids(&ninguno).is_empty());
    assert!(get_product_handles_and_ids(&ninguno).is_empty());
}

#[test]
fn productos_repetidos_se_conservan() {
    let lista = vec![
        Product { id: 7, handle: "a".to_string() },
        Product { id: 7, handle: "a".to_string() },
        Product { id: u32::MAX, handle: String::new() },
    ];
    assert_eq!(get_product_ids(&lista), vec![7, 7, u32::MAX]);
    assert_eq!(get_product_handles(&lista), vec!["a", "a", ""]);
    assert_eq!(
        get_product_handles_and_ids(&lista),
        vec![(7, "a".to_string()), (7, "a".to_string()), (u32::MAX, String::new())]
    );
}
