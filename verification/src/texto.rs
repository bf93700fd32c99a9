//! Sentences built around a text.

use vstd::prelude::*;
use vstd::string::{StrSliceExecFns, StringExecFns};

verus! {

/// From how many characters on a text counts as long.
pub const LONGITUD_CORTA: usize = 5;

/// The greeting for a person: `Hola <primer_nombre> <apellido>!`.
pub fn cual_es_tu_nombre(primer_nombre: &str, apellido: &str) -> (saludo: String)
    ensures
        saludo@ == "Hola"@ + " "@ + primer_nombre@ + " "@ + apellido@ + "!"@,
{
    let mut saludar = "Hola".to_owned();
    saludar.append(" ");
    saludar.append(primer_nombre);
    saludar.append(" ");
    saludar.append(apellido);
    saludar.append("!");
    saludar
}

/// Says whether `texto` is long, with more than five characters, or short:
/// `El texto '<texto>' es largo`, or `... es corto`.
pub fn evaluar_longitud(texto: &str) -> (frase: String)
    ensures
        frase@ == "El texto '"@ + texto@ + "' es "@ + if texto@.len() > LONGITUD_CORTA {
            "largo"@
        } else {
            "corto"@
        },
{
    let mut frase = "El texto '".to_owned();
    frase.append(texto);
    frase.append("' es ");
    if texto.unicode_len() > LONGITUD_CORTA {
        frase.append("largo");
    } else {
        frase.append("corto");
    }
    frase
}

} // verus!
