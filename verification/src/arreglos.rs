//! Helpers over vectors: access, sums, ranges, sorting by kind, and the three classic
//! higher-order functions, each once over a borrowed vector and once over an owned one.

use vstd::prelude::*;

verus! {

/// What `generar_rango` answers to a negative bound.
pub const RANGO_NEGATIVO: &'static str = "n no puede ser negativo";

/// A value that is either a number or a text.
#[derive(Debug, PartialEq)]
pub enum Valor {
    Numero(i32),
    Texto(String),
}

impl Clone for Valor {
    fn clone(&self) -> (copia: Self)
        ensures
            copia == *self,
    {
        match self {
            Valor::Numero(n) => Valor::Numero(*n),
            Valor::Texto(t) => Valor::Texto(t.clone()),
        }
    }
}

/// The values of a list sorted by kind, each kind in the order of the list.
#[derive(Debug, PartialEq)]
pub struct Organizado {
    pub numbers: Vec<i32>,
    pub strings: Vec<String>,
}

/// The sum of `numeros`.
pub open spec fn suma(numeros: Seq<i32>) -> int
    decreases numeros.len(),
{
    if numeros.len() == 0 {
        0
    } else {
        suma(numeros.drop_last()) + numeros.last()
    }
}

/// The numbers among `valores`, in order.
pub open spec fn numeros_de(valores: Seq<Valor>) -> Seq<i32>
    decreases valores.len(),
{
    if valores.len() == 0 {
        Seq::empty()
    } else {
        let antes = numeros_de(valores.drop_last());
        match valores.last() {
            Valor::Numero(n) => antes.push(n),
            Valor::Texto(_) => antes,
        }
    }
}

/// The texts among `valores`, in order.
pub open spec fn textos_de(valores: Seq<Valor>) -> Seq<String>
    decreases valores.len(),
{
    if valores.len() == 0 {
        Seq::empty()
    } else {
        let antes = textos_de(valores.drop_last());
        match valores.last() {
            Valor::Numero(_) => antes,
            Valor::Texto(t) => antes.push(t),
        }
    }
}

/// The items of `elementos` whose mark in `elegidos` is set, in order.
pub open spec fn filtrados<T>(elementos: Seq<T>, elegidos: Seq<bool>) -> Seq<T>
    recommends
        elegidos.len() == elementos.len(),
    decreases elementos.len(),
{
    if elementos.len() == 0 || elegidos.len() != elementos.len() {
        Seq::empty()
    } else {
        let antes = filtrados(elementos.drop_last(), elegidos.drop_last());
        if elegidos.last() {
            antes.push(elementos.last())
        } else {
            antes
        }
    }
}

/// Whether `traza` records a fold over the first items of `elementos`: it starts with
/// `inicial`, and each later entry is what `fnc` gave for the entry before it and the next
/// item. `fnc` receives each item by reference.
pub open spec fn es_plegado<T, U, F: FnMut(U, &T) -> U>(
    fnc: F,
    elementos: Seq<T>,
    inicial: U,
    traza: Seq<U>,
) -> bool {
    &&& 1 <= traza.len() <= elementos.len() + 1
    &&& traza[0] == inicial
    &&& forall|j: int|
        1 <= j < traza.len() ==> call_ensures(
            fnc,
            (traza[j - 1], &elementos[j - 1]),
            #[trigger] traza[j],
        )
}

/// Whether `traza` records a fold over the first items of `elementos`: it starts with
/// `inicial`, and each later entry is what `fnc` gave for the entry before it and the next
/// item. `fnc` receives each item by value.
pub open spec fn es_plegado_por_valor<T, U, F: FnMut(U, T) -> U>(
    fnc: F,
    elementos: Seq<T>,
    inicial: U,
    traza: Seq<U>,
) -> bool {
    &&& 1 <= traza.len() <= elementos.len() + 1
    &&& traza[0] == inicial
    &&& forall|j: int|
        1 <= j < traza.len() ==> call_ensures(
            fnc,
            (traza[j - 1], elementos[j - 1]),
            #[trigger] traza[j],
        )
}

/// A copy of the item at `index`, or `None` where the vector has no such position.
pub fn acceder_array<T: Clone>(arr: &Vec<T>, index: usize) -> (elemento: Option<T>)
    ensures
        match elemento {
            Some(copia) => index < arr@.len() && cloned(arr@[index as int], copia),
            None => index >= arr@.len(),
        },
{
    if index < arr.len() {
        Some(arr[index].clone())
    } else {
        None
    }
}

/// Puts the three items into a new vector and returns the one at position 1.
pub fn manipula_array<T: Clone>(primer_elemento: T, segundo_elemento: T, tercer_elemento: T) -> (elemento: T)
    ensures
        elemento == segundo_elemento,
{
    let mut arreglo: Vec<T> = Vec::new();
    arreglo.push(primer_elemento);
    arreglo.push(segundo_elemento);
    arreglo.push(tercer_elemento);
    arreglo.remove(1)
}

/// The partial sums of a list of `i32` stay within its length times the range of `i32`.
proof fn lema_suma_acotada(numeros: Seq<i32>)
    ensures
        -0x8000_0000 * numeros.len() <= suma(numeros) <= 0x8000_0000 * numeros.len(),
    decreases numeros.len(),
{
    if numeros.len() > 0 {
        lema_suma_acotada(numeros.drop_last());
    }
}

/// The sum of the numbers. It is always `Ok`: a vector of numbers holds nothing else.
pub fn sumar_elementos(numeros: &Vec<i32>) -> (resultado: Result<i32, &'static str>)
    requires
        i32::MIN <= suma(numeros@) <= i32::MAX,
    ensures
        resultado == Ok::<i32, &'static str>(suma(numeros@) as i32),
{
    let mut total: i128 = 0;
    for i in 0..numeros.len()
        invariant
            total == suma(numeros@.take(i as int)),
    {
        proof {
            lema_suma_acotada(numeros@.take(i as int));
            assert(numeros@.take(i + 1).drop_last() =~= numeros@.take(i as int));
        }
        total = total + numeros[i] as i128;
    }
    proof {
        assert(numeros@.take(numeros@.len() as int) =~= numeros@);
    }
    Ok(total as i32)
}

/// The numbers from 0 up to and including `n`; a negative `n` is refused.
pub fn generar_rango(n: i32) -> (resultado: Result<Vec<i32>, &'static str>)
    ensures
        match resultado {
            Ok(rango) => n >= 0 && rango@ == Seq::new((n + 1) as nat, |k: int| k as i32),
            Err(mensaje) => n < 0 && mensaje@ == RANGO_NEGATIVO@,
        },
{
    if n < 0 {
        return Err(RANGO_NEGATIVO);
    }
    let mut rango: Vec<i32> = Vec::new();
    let mut i: i32 = 0;
    while i < n
        invariant
            0 <= i <= n,
            rango@ == Seq::new(i as nat, |k: int| k as i32),
        decreases n - i,
    {
        rango.push(i);
        i += 1;
    }
    rango.push(n);
    Ok(rango)
}

/// Sorts the values by kind: the numbers into `numbers`, the texts into `strings`, each in
/// the order in which the list holds them.
pub fn organizar_por_tipo(arr: &Vec<Valor>) -> (organizado: Organizado)
    ensures
        organizado.numbers@ == numeros_de(arr@),
        organizado.strings@ == textos_de(arr@),
{
    let mut numbers: Vec<i32> = Vec::new();
    let mut strings: Vec<String> = Vec::new();
    for i in 0..arr.len()
        invariant
            numbers@ == numeros_de(arr@.take(i as int)),
            strings@ == textos_de(arr@.take(i as int)),
    {
        proof {
            assert(arr@.take(i + 1).drop_last() =~= arr@.take(i as int));
        }
        match &arr[i] {
            Valor::Numero(n) => numbers.push(*n),
            Valor::Texto(t) => strings.push(t.clone()),
        }
    }
    proof {
        assert(arr@.take(arr@.len() as int) =~= arr@);
    }
    Organizado { numbers, strings }
}

/// Applies `fnc` to each item, first to last, and returns what it gave, in the same order.
pub fn mi_mapa<T, U, F>(arreglo: &Vec<T>, fnc: F) -> (resultado: Vec<U>) where
    F: FnMut(&T) -> U,

    requires
        forall|i: int| 0 <= i < arreglo@.len() ==> call_requires(fnc, (&#[trigger] arreglo@[i],)),
    ensures
        resultado@.len() == arreglo@.len(),
        forall|i: int|
            0 <= i < arreglo@.len() ==> call_ensures(fnc, (&arreglo@[i],), #[trigger] resultado@[i]),
{
    let mut aplicar = fnc;
    let mut resultado: Vec<U> = Vec::new();
    for i in 0..arreglo.len()
        invariant
            aplicar == fnc,
            resultado@.len() == i,
            forall|j: int| 0 <= j < arreglo@.len() ==> call_requires(fnc, (&#[trigger] arreglo@[j],)),
            forall|j: int|
                0 <= j < i ==> call_ensures(fnc, (&arreglo@[j],), #[trigger] resultado@[j]),
    {
        resultado.push(aplicar(&arreglo[i]));
    }
    resultado
}

/// Copies of the items for which `predicado` answered `true`, in the order of the vector.
/// The predicate is asked once about each item, first to last.
pub fn mi_filter<T: Clone, F>(arreglo: &Vec<T>, predicado: F) -> (resultado: Vec<T>) where
    F: FnMut(&T) -> bool,

    requires
        forall|i: int|
            0 <= i < arreglo@.len() ==> call_requires(predicado, (&#[trigger] arreglo@[i],)),
    ensures
        exists|elegidos: Seq<bool>|
            {
                &&& elegidos.len() == arreglo@.len()
                &&& forall|i: int|
                    0 <= i < arreglo@.len() ==> call_ensures(
                        predicado,
                        (&arreglo@[i],),
                        #[trigger] elegidos[i],
                    )
                &&& resultado@.len() == (#[trigger] filtrados(arreglo@, elegidos)).len()
                &&& forall|k: int|
                    0 <= k < resultado@.len() ==> cloned(
                        filtrados(arreglo@, elegidos)[k],
                        #[trigger] resultado@[k],
                    )
            },
{
    let mut elegir = predicado;
    let mut resultado: Vec<T> = Vec::new();
    let ghost mut elegidos: Seq<bool> = Seq::empty();
    for i in 0..arreglo.len()
        invariant
            elegir == predicado,
            forall|j: int|
                0 <= j < arreglo@.len() ==> call_requires(predicado, (&#[trigger] arreglo@[j],)),
            elegidos.len() == i,
            forall|j: int|
                0 <= j < i ==> call_ensures(predicado, (&arreglo@[j],), #[trigger] elegidos[j]),
            resultado@.len() == filtrados(arreglo@.take(i as int), elegidos).len(),
            forall|k: int|
                0 <= k < resultado@.len() ==> cloned(
                    filtrados(arreglo@.take(i as int), elegidos)[k],
                    #[trigger] resultado@[k],
                ),
    {
        let elegido = elegir(&arreglo[i]);
        proof {
            assert(arreglo@.take(i + 1).drop_last() =~= arreglo@.take(i as int));
            assert(elegidos.push(elegido).drop_last() =~= elegidos);
            elegidos = elegidos.push(elegido);
        }
        if elegido {
            resultado.push(arreglo[i].clone());
        }
    }
    proof {
        assert(arreglo@.take(arreglo@.len() as int) =~= arreglo@);
    }
    resultado
}

/// Folds the items into `valor_inicial`, first to last: each call of `fnc` receives what the
/// call before it gave, and the last one gives the result.
///
/// `fnc` has to accept every accumulated value that the items before can lead to.
pub fn mi_reduce<T, U, F>(arreglo: &Vec<T>, fnc: F, valor_inicial: U) -> (resultado: U) where
    F: FnMut(U, &T) -> U,

    requires
        forall|traza: Seq<U>|
            #[trigger] es_plegado(fnc, arreglo@, valor_inicial, traza) && traza.len()
                <= arreglo@.len() ==> call_requires(
                fnc,
                (traza.last(), &arreglo@[traza.len() - 1]),
            ),
    ensures
        exists|traza: Seq<U>|
            #[trigger] es_plegado(fnc, arreglo@, valor_inicial, traza) && traza.len()
                == arreglo@.len() + 1 && traza.last() == resultado,
{
    let mut plegar = fnc;
    let mut acumulado = valor_inicial;
    let ghost mut traza: Seq<U> = seq![valor_inicial];
    for i in 0..arreglo.len()
        invariant
            plegar == fnc,
            forall|previa: Seq<U>|
                #[trigger] es_plegado(fnc, arreglo@, valor_inicial, previa) && previa.len()
                    <= arreglo@.len() ==> call_requires(
                    fnc,
                    (previa.last(), &arreglo@[previa.len() - 1]),
                ),
            es_plegado(fnc, arreglo@, valor_inicial, traza),
            traza.len() == i + 1,
            traza.last() == acumulado,
    {
        acumulado = plegar(acumulado, &arreglo[i]);
        proof {
            traza = traza.push(acumulado);
        }
    }
    acumulado
}

/// Applies `fnc` to each item, first to last, and returns what it gave, in the same order.
pub fn usa_map<T, U, F>(arreglo: Vec<T>, fnc: F) -> (resultado: Vec<U>) where
    F: FnMut(T) -> U,

    requires
        forall|i: int| 0 <= i < arreglo@.len() ==> call_requires(fnc, (#[trigger] arreglo@[i],)),
    ensures
        resultado@.len() == arreglo@.len(),
        forall|i: int|
            0 <= i < arreglo@.len() ==> call_ensures(fnc, (arreglo@[i],), #[trigger] resultado@[i]),
{
    let mut aplicar = fnc;
    let mut resultado: Vec<U> = Vec::new();
    for elemento in it: arreglo
        invariant
            aplicar == fnc,
            it.seq() == arreglo@,
            resultado@.len() == it.index(),
            forall|j: int| 0 <= j < arreglo@.len() ==> call_requires(fnc, (#[trigger] arreglo@[j],)),
            forall|j: int|
                0 <= j < it.index() ==> call_ensures(fnc, (arreglo@[j],), #[trigger] resultado@[j]),
    {
        resultado.push(aplicar(elemento));
    }
    resultado
}

/// The items for which `fnc` answered `true`, in the order of the vector. The predicate is
/// asked once about each item, first to last.
pub fn usa_filter<T, F>(arreglo: Vec<T>, fnc: F) -> (resultado: Vec<T>) where
    F: FnMut(&T) -> bool,

    requires
        forall|i: int| 0 <= i < arreglo@.len() ==> call_requires(fnc, (&#[trigger] arreglo@[i],)),
    ensures
        exists|elegidos: Seq<bool>|
            {
                &&& elegidos.len() == arreglo@.len()
                &&& forall|i: int|
                    0 <= i < arreglo@.len() ==> call_ensures(
                        fnc,
                        (&arreglo@[i],),
                        #[trigger] elegidos[i],
                    )
                &&& resultado@ == #[trigger] filtrados(arreglo@, elegidos)
            },
{
    let mut elegir = fnc;
    let mut resultado: Vec<T> = Vec::new();
    let ghost mut elegidos: Seq<bool> = Seq::empty();
    for elemento in it: arreglo
        invariant
            elegir == fnc,
            it.seq() == arreglo@,
            forall|j: int| 0 <= j < arreglo@.len() ==> call_requires(fnc, (&#[trigger] arreglo@[j],)),
            elegidos.len() == it.index(),
            forall|j: int|
                0 <= j < it.index() ==> call_ensures(fnc, (&arreglo@[j],), #[trigger] elegidos[j]),
            resultado@ == filtrados(arreglo@.take(it.index()), elegidos),
    {
        let elegido = elegir(&elemento);
        proof {
            assert(arreglo@.take(it.index() + 1).drop_last() =~= arreglo@.take(it.index()));
            assert(elegidos.push(elegido).drop_last() =~= elegidos);
            elegidos = elegidos.push(elegido);
        }
        if elegido {
            resultado.push(elemento);
        }
    }
    proof {
        assert(arreglo@.take(arreglo@.len() as int) =~= arreglo@);
    }
    resultado
}

/// Folds the items into `valor_inicial`, first to last: each call of `fnc` receives what the
/// call before it gave, and the last one gives the result.
///
/// `fnc` has to accept every accumulated value that the items before can lead to.
pub fn usa_reduce<T, U, F>(arreglo: Vec<T>, fnc: F, valor_inicial: U) -> (resultado: U) where
    F: FnMut(U, T) -> U,

    requires
        forall|traza: Seq<U>|
            #[trigger] es_plegado_por_valor(fnc, arreglo@, valor_inicial, traza) && traza.len()
                <= arreglo@.len() ==> call_requires(
                fnc,
                (traza.last(), arreglo@[traza.len() - 1]),
            ),
    ensures
        exists|traza: Seq<U>|
            #[trigger] es_plegado_por_valor(fnc, arreglo@, valor_inicial, traza) && traza.len()
                == arreglo@.len() + 1 && traza.last() == resultado,
{
    let mut plegar = fnc;
    let mut acumulado = valor_inicial;
    let ghost mut traza: Seq<U> = seq![valor_inicial];
    for elemento in it: arreglo
        invariant
            plegar == fnc,
            it.seq() == arreglo@,
            forall|previa: Seq<U>|
                #[trigger] es_plegado_por_valor(fnc, arreglo@, valor_inicial, previa)
                    && previa.len() <= arreglo@.len() ==> call_requires(
                    fnc,
                    (previa.last(), arreglo@[previa.len() - 1]),
                ),
            es_plegado_por_valor(fnc, arreglo@, valor_inicial, traza),
            traza.len() == it.index() + 1,
            traza.last() == acumulado,
    {
        acumulado = plegar(acumulado, elemento);
        proof {
            traza = traza.push(acumulado);
        }
    }
    acumulado
}

} // verus!
