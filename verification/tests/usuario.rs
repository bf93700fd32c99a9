use notificador::usuario::{crear_usuario_con_factory, Usuario};

#[test]
fn test_usuario_saludar() {
    let usuario = crear_usuario_con_factory("Luis", "admin");
    assert_eq!(usuario.saludar(), "Hola, soy Luis y soy admin");
}

#[test]
fn usuario_nuevo_guarda_nombre_y_rol() {
    let usuario = Usuario::new("Ana", "editora");
    assert_eq!(usuario.nombre, "Ana");
    assert_eq!(usuario.rol, "editora");
    assert_eq!(usuario.saludar(), "Hola, soy Ana y soy editora");
}

#[test]
fn la_factory_hace_lo_que_hace_new() {
    let a = crear_usuario_con_factory("Inés", "invitada");
    let b = Usuario::new("Inés", "invitada");
    assert_eq!(a.nombre, b.nombre);
    assert_eq!(a.rol, b.rol);
    assert_eq!(a.saludar(), b.saludar());
}

#[test]
fn saludo_de_usuario_sin_nombre_ni_rol() {
    assert_eq!(Usuario::new("", "").saludar(), "Hola, soy  y soy ");
}
