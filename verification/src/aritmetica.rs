//! Small sums.

use vstd::prelude::*;

verus! {

/// Days in a year; leap years are not counted.
pub const DIAS_POR_ANIO: u32 = 365;

/// The age in days of someone `anios` years old.
pub fn edad_en_dias(anios: u32) -> (dias: u32)
    requires
        anios * DIAS_POR_ANIO <= u32::MAX,
    ensures
        dias == anios * DIAS_POR_ANIO,
{
    anios * DIAS_POR_ANIO
}

/// Twice `numero`.
pub fn doble(numero: i32) -> (resultado: i32)
    requires
        i32::MIN <= 2 * numero <= i32::MAX,
    ensures
        resultado == 2 * numero,
{
    numero * 2
}

/// Three times `numero`.
pub fn triple(numero: i32) -> (resultado: i32)
    requires
        i32::MIN <= 3 * numero <= i32::MAX,
    ensures
        resultado == 3 * numero,
{
    numero * 3
}

/// The double of `numero` plus its triple.
pub fn doble_mas_triple(numero: i32) -> (resultado: i32)
    requires
        i32::MIN <= 5 * numero <= i32::MAX,
    ensures
        resultado == 2 * numero + 3 * numero,
{
    doble(numero) + triple(numero)
}

} // verus!
