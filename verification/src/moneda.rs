//! Amounts of money written out from cents.

use vstd::prelude::*;
use vstd::string::{StrSliceExecFns, StringExecFns};

verus! {

/// The character of the decimal digit `d`.
pub open spec fn digito(d: int) -> char
    recommends
        0 <= d < 10,
{
    "0123456789"@[d]
}

/// `n` written in decimal, without leading zeros.
pub open spec fn decimal(n: nat) -> Seq<char>
    decreases n,
{
    if n < 10 {
        seq![digito(n as int)]
    } else {
        decimal(n / 10).push(digito((n % 10) as int))
    }
}

/// The symbol of the currency with code `codigo`, where the code is a known one.
pub open spec fn simbolo(codigo: Seq<char>) -> Option<Seq<char>> {
    if codigo == "USD"@ {
        Some("$"@)
    } else if codigo == "EUR"@ {
        Some("€"@)
    } else if codigo == "GBP"@ {
        Some("£"@)
    } else {
        None
    }
}

/// `centavos` as units of currency with two decimals: `1234` is `12.34`.
pub open spec fn importe(centavos: nat) -> Seq<char> {
    decimal(centavos / 100) + "."@ + seq![
        digito((centavos % 100 / 10) as int),
        digito((centavos % 10) as int),
    ]
}

/// What `convertir_cents_a_moneda` answers: the amount behind its currency's symbol, or the
/// reason why there is none. A negative amount is reported before an unknown code.
pub open spec fn conversion(centavos: int, codigo: Seq<char>) -> Seq<char> {
    if centavos < 0 {
        "Valor invalido"@
    } else {
        match simbolo(codigo) {
            Some(signo) => signo + importe(centavos as nat),
            None => "Codigo de moneda invalido"@,
        }
    }
}

/// Whether two texts are the same.
fn mismo_texto(a: &str, b: &str) -> (iguales: bool)
    ensures
        iguales == (a@ == b@),
{
    a.to_owned() == b.to_owned()
}

/// Appends the digit `d` to `texto`.
fn agregar_digito(texto: &mut String, d: u32)
    requires
        d < 10,
    ensures
        final(texto)@ == old(texto)@.push(digito(d as int)),
{
    let digitos = "0123456789";
    proof {
        reveal_strlit("0123456789");
        assert(digitos.is_ascii()) by {
            assert forall|i: int| 0 <= i < digitos@.len() implies (digitos@[i] as u32) < 128 by {}
        }
    }
    let uno = digitos.substring_ascii(d as usize, d as usize + 1);
    assert(uno@ =~= seq![digito(d as int)]);
    texto.append(uno);
    assert(texto@ =~= old(texto)@.push(digito(d as int)));
}

/// Appends `n`, written in decimal, to `texto`.
fn agregar_decimal(texto: &mut String, n: u32)
    ensures
        final(texto)@ == old(texto)@ + decimal(n as nat),
    decreases n,
{
    if n >= 10 {
        agregar_decimal(texto, n / 10);
    }
    agregar_digito(texto, n % 10);
    assert(texto@ =~= old(texto)@ + decimal(n as nat));
}

/// Writes an amount given in cents as units of its currency, with the currency's symbol
/// and two decimals: `1234` in `USD` is `$12.34`.
///
/// A negative amount gives `Valor invalido`; otherwise a code other than `USD`, `EUR` and
/// `GBP` gives `Codigo de moneda invalido`.
pub fn convertir_cents_a_moneda(centavos: i32, codigo_moneda: &str) -> (texto: String)
    ensures
        texto@ == conversion(centavos as int, codigo_moneda@),
{
    if centavos < 0 {
        return "Valor invalido".to_owned();
    }
    let mut texto = if mismo_texto(codigo_moneda, "USD") {
        "$".to_owned()
    } else if mismo_texto(codigo_moneda, "EUR") {
        "€".to_owned()
    } else if mismo_texto(codigo_moneda, "GBP") {
        "£".to_owned()
    } else {
        return "Codigo de moneda invalido".to_owned();
    };
    let cantidad = centavos as u32;
    let ghost signo = texto@;
    agregar_decimal(&mut texto, cantidad / 100);
    texto.append(".");
    agregar_digito(&mut texto, cantidad % 100 / 10);
    agregar_digito(&mut texto, cantidad % 10);
    assert(texto@ =~= signo + importe(centavos as nat));
    texto
}

} // verus!
