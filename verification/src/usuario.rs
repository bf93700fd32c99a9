//! Users and the factory that makes them.

use vstd::prelude::*;
use vstd::string::StringExecFns;

verus! {

/// A user: a name and a role.
pub struct Usuario {
    pub nombre: String,
    pub rol: String,
}

impl Usuario {
    /// The user with the given name and role.
    pub fn new(nombre: &str, rol: &str) -> (usuario: Self)
        ensures
            usuario.nombre@ == nombre@,
            usuario.rol@ == rol@,
    {
        Usuario { nombre: nombre.to_owned(), rol: rol.to_owned() }
    }

    /// The user's greeting: `Hola, soy <nombre> y soy <rol>`.
    pub fn saludar(&self) -> (saludo: String)
        ensures
            saludo@ == "Hola, soy "@ + self.nombre@ + " y soy "@ + self.rol@,
    {
        let mut saludo = "Hola, soy ".to_owned();
        saludo.append(self.nombre.as_str());
        saludo.append(" y soy ");
        saludo.append(self.rol.as_str());
        saludo
    }
}

/// Makes a user from a name and a role.
pub fn crear_usuario_con_factory(nombre: &str, rol: &str) -> (usuario: Usuario)
    ensures
        usuario.nombre@ == nombre@,
        usuario.rol@ == rol@,
{
    Usuario::new(nombre, rol)
}

} // verus!
