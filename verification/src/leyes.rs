//! What holds of every bus, proved from the model alone.

use crate::tablero::{sin_revocaciones, suscritos, vivos, Operacion, Tablero};
use vstd::prelude::*;

verus! {

/// The live listeners of two slot sequences laid end to end are those of the first followed
/// by those of the second.
pub proof fn lema_vivos_concatenados<F>(a: Seq<Option<F>>, b: Seq<Option<F>>)
    ensures
        vivos(a + b) == vivos(a) + vivos(b),
    decreases b.len(),
{
    if b.len() == 0 {
        assert(a + b =~= a);
        assert(vivos(a) + vivos(b) =~= vivos(a));
    } else {
        assert((a + b).drop_last() =~= a + b.drop_last());
        lema_vivos_concatenados(a, b.drop_last());
        match b.last() {
            Some(escuchador) => {
                assert(vivos(a + b) =~= vivos(a) + vivos(b));
            },
            None => {},
        }
    }
}

/// Whoever is among the live listeners holds one of the slots.
pub proof fn lema_vivo_ocupa_ranura<F>(ranuras: Seq<Option<F>>, escuchador: F)
    requires
        vivos(ranuras).contains(escuchador),
    ensures
        exists|i: int| 0 <= i < ranuras.len() && ranuras[i] == Some(escuchador),
    decreases ranuras.len(),
{
    if ranuras.len() > 0 {
        let antes = ranuras.drop_last();
        if ranuras.last() == Some(escuchador) {
            assert(ranuras[ranuras.len() - 1] == Some(escuchador));
        } else {
            let k = choose|k: int| 0 <= k < vivos(ranuras).len() && vivos(ranuras)[k] == escuchador;
            assert(vivos(antes)[k] == escuchador);
            lema_vivo_ocupa_ranura(antes, escuchador);
            let i = choose|i: int| 0 <= i < antes.len() && antes[i] == Some(escuchador);
            assert(ranuras[i] == Some(escuchador));
        }
    }
}

/// Delivery order. A subscription puts its listener behind every listener that the event
/// already reaches, and changes nothing else about whom it reaches.
pub proof fn ley_suscripcion_al_final<F>(t: Tablero<F>, evento: Seq<char>, escuchador: F)
    ensures
        t.suscribir(evento, escuchador).ranuras(evento) == t.ranuras(evento).push(Some(escuchador)),
        t.suscribir(evento, escuchador).destinatarios(evento) == t.destinatarios(evento).push(
            escuchador,
        ),
{
    assert(t.ranuras(evento).push(Some(escuchador)).drop_last() =~= t.ranuras(evento));
}

/// Delivery order. After any number of listeners have subscribed to an event one after
/// another, a publication reaches those it reached before and then each of the new ones, in
/// the order of their subscription, once each. On a bus that was empty it reaches exactly them.
pub proof fn ley_orden_de_entrega<F>(t: Tablero<F>, evento: Seq<char>, escuchadores: Seq<F>)
    ensures
        t.suscribir_todos(evento, escuchadores).destinatarios(evento) == t.destinatarios(evento)
            + escuchadores,
        Tablero::<F>::vacio().suscribir_todos(evento, escuchadores).destinatarios(evento)
            == escuchadores,
    decreases escuchadores.len(),
{
    let vacio = Tablero::<F>::vacio();
    if escuchadores.len() == 0 {
        assert(t.destinatarios(evento) + escuchadores =~= t.destinatarios(evento));
        assert(vacio.destinatarios(evento) =~= escuchadores);
    } else {
        let antes = escuchadores.drop_last();
        ley_orden_de_entrega(t, evento, antes);
        ley_suscripcion_al_final(t.suscribir_todos(evento, antes), evento, escuchadores.last());
        ley_suscripcion_al_final(vacio.suscribir_todos(evento, antes), evento, escuchadores.last());
        assert((t.destinatarios(evento) + antes).push(escuchadores.last()) =~= t.destinatarios(
            evento,
        ) + escuchadores);
        assert(antes.push(escuchadores.last()) =~= escuchadores);
    }
}

/// Delivery order. However subscriptions to an event are mixed with subscriptions and
/// revocations under other events, a publication to it reaches those it reached before and
/// then each new subscriber, in the order of the subscriptions, once for each subscription.
pub proof fn ley_entrega_en_orden_de_suscripcion<F>(
    t: Tablero<F>,
    operaciones: Seq<Operacion<F>>,
    evento: Seq<char>,
)
    requires
        sin_revocaciones(operaciones, evento),
    ensures
        t.aplicar_todas(operaciones).destinatarios(evento) == t.destinatarios(evento) + suscritos(
            operaciones,
            evento,
        ),
    decreases operaciones.len(),
{
    if operaciones.len() == 0 {
        assert(t.destinatarios(evento) + suscritos(operaciones, evento) =~= t.destinatarios(
            evento,
        ));
    } else {
        let antes = operaciones.drop_last();
        let previo = t.aplicar_todas(antes);
        assert forall|k: int| 0 <= k < antes.len() implies match #[trigger] antes[k] {
            Operacion::Suscribir { .. } => true,
            Operacion::Remover { evento: suyo, .. } => suyo != evento,
        } by {
            assert(antes[k] == operaciones[k]);
        }
        ley_entrega_en_orden_de_suscripcion(t, antes, evento);
        let ultima = operaciones[operaciones.len() - 1];
        match ultima {
            Operacion::Suscribir { evento: suyo, escuchador } => {
                if suyo == evento {
                    ley_suscripcion_al_final(previo, evento, escuchador);
                    assert((t.destinatarios(evento) + suscritos(antes, evento)).push(escuchador)
                        =~= t.destinatarios(evento) + suscritos(antes, evento).push(escuchador));
                } else {
                    ley_otros_temas_intactos(previo, ultima, evento);
                }
            },
            Operacion::Remover { .. } => {
                ley_otros_temas_intactos(previo, ultima, evento);
            },
        }
    }
}

/// Topic isolation. A publication to an event reaches only listeners that hold a slot of
/// that event: one registered under other events alone is never among them.
pub proof fn ley_aislamiento_de_temas<F>(t: Tablero<F>, evento: Seq<char>, escuchador: F)
    requires
        forall|i: int| 0 <= i < t.ranuras(evento).len() ==> t.ranuras(evento)[i] != Some(escuchador),
    ensures
        !t.destinatarios(evento).contains(escuchador),
{
    if t.destinatarios(evento).contains(escuchador) {
        lema_vivo_ocupa_ranura(t.ranuras(evento), escuchador);
    }
}

/// Topic isolation. A subscription or a revocation under one event leaves the slots of
/// every other event, and so whom a publication to it reaches, as they were.
pub proof fn ley_otros_temas_intactos<F>(t: Tablero<F>, operacion: Operacion<F>, evento: Seq<char>)
    requires
        match operacion {
            Operacion::Suscribir { evento: otro, .. } => otro != evento,
            Operacion::Remover { evento: otro, .. } => otro != evento,
        },
    ensures
        t.aplicar(operacion).ranuras(evento) == t.ranuras(evento),
        t.aplicar(operacion).destinatarios(evento) == t.destinatarios(evento),
{
}

/// Revocation. Emptying a slot takes the listener of that slot, and no other, out of the
/// deliveries of its event; the listeners before and behind it keep their order.
pub proof fn ley_revocacion<F>(t: Tablero<F>, evento: Seq<char>, indice: int)
    requires
        0 <= indice < t.ranuras(evento).len(),
    ensures
        t.remover(evento, indice).ranuras(evento) == t.ranuras(evento).update(indice, None),
        t.destinatarios(evento) == vivos(t.ranuras(evento).take(indice)) + vivos(
            seq![t.ranuras(evento)[indice]],
        ) + vivos(t.ranuras(evento).skip(indice + 1)),
        t.remover(evento, indice).destinatarios(evento) == vivos(t.ranuras(evento).take(indice))
            + vivos(t.ranuras(evento).skip(indice + 1)),
{
    let ranuras = t.ranuras(evento);
    let antes = ranuras.take(indice);
    let detras = ranuras.skip(indice + 1);
    let vacia = seq![None::<F>];
    assert(ranuras =~= antes + seq![ranuras[indice]] + detras);
    assert(ranuras.update(indice, None) =~= antes + vacia + detras);
    lema_vivos_concatenados(antes, seq![ranuras[indice]]);
    lema_vivos_concatenados(antes + seq![ranuras[indice]], detras);
    lema_vivos_concatenados(antes, vacia);
    lema_vivos_concatenados(antes + vacia, detras);
    assert(vacia.drop_last() =~= Seq::<Option<F>>::empty());
    assert(vivos(vacia.drop_last()) =~= Seq::<F>::empty());
    assert(vivos(vacia) =~= Seq::<F>::empty());
    assert(vivos(antes) + vivos(vacia) =~= vivos(antes));
}

/// Revocation. Revoking a registration with the token that the subscription returned undoes
/// what the subscription did to the deliveries of its event.
pub proof fn ley_revocar_lo_suscrito<F>(t: Tablero<F>, evento: Seq<char>, escuchador: F)
    ensures
        t.suscribir(evento, escuchador).remover(
            evento,
            t.ranuras(evento).len() as int,
        ).destinatarios(evento) == t.destinatarios(evento),
{
    let indice = t.ranuras(evento).len() as int;
    let suscrito = t.suscribir(evento, escuchador);
    ley_revocacion(suscrito, evento, indice);
    assert(suscrito.ranuras(evento).take(indice) =~= t.ranuras(evento));
    assert(suscrito.ranuras(evento).skip(indice + 1) =~= Seq::<Option<F>>::empty());
    assert(vivos(t.ranuras(evento)) + vivos(Seq::<Option<F>>::empty()) =~= vivos(
        t.ranuras(evento),
    ));
}

/// Revocation. Once a registration is revoked, a publication does not reach its listener,
/// unless the listener holds another slot of the same event.
pub proof fn ley_revocado_no_recibe<F>(t: Tablero<F>, evento: Seq<char>, indice: int, escuchador: F)
    requires
        forall|j: int|
            0 <= j < t.ranuras(evento).len() && j != indice ==> t.ranuras(evento)[j] != Some(
                escuchador,
            ),
    ensures
        !t.remover(evento, indice).destinatarios(evento).contains(escuchador),
{
    ley_aislamiento_de_temas(t.remover(evento, indice), evento, escuchador);
}

/// Revocation. From the moment a registration is revoked with the token that its
/// subscription returned, its slot is empty and stays empty, whatever was subscribed or
/// revoked in between and whatever is afterwards: no later publication goes through it.
pub proof fn ley_revocacion_permanente<F>(
    t: Tablero<F>,
    evento: Seq<char>,
    escuchador: F,
    entre_tanto: Seq<Operacion<F>>,
    despues: Seq<Operacion<F>>,
)
    ensures
        ({
            let indice = t.ranuras(evento).len() as int;
            let al_final = t.suscribir(evento, escuchador).aplicar_todas(entre_tanto).remover(
                evento,
                indice,
            ).aplicar_todas(despues);
            indice < al_final.ranuras(evento).len() && al_final.ranuras(evento)[indice] is None
        }),
{
    let indice = t.ranuras(evento).len() as int;
    let suscrito = t.suscribir(evento, escuchador);
    ley_ranuras_estables(suscrito, entre_tanto, evento, indice);
    let revocado = suscrito.aplicar_todas(entre_tanto).remover(evento, indice);
    ley_ranuras_estables(revocado, despues, evento, indice);
}

/// Idempotent revocation. Revoking a registration a second time changes nothing.
pub proof fn ley_revocar_dos_veces<F>(t: Tablero<F>, evento: Seq<char>, indice: int)
    ensures
        t.remover(evento, indice).remover(evento, indice) == t.remover(evento, indice),
{
    let una = t.remover(evento, indice);
    if 0 <= indice < t.ranuras(evento).len() {
        assert(una.ranuras(evento).update(indice, None) =~= una.ranuras(evento));
        assert(una.remover(evento, indice).temas =~= una.temas);
    }
}

/// Publication without listeners. An event whose slots are all empty, or that has none,
/// reaches nobody.
pub proof fn ley_sin_destinatarios<F>(t: Tablero<F>, evento: Seq<char>)
    requires
        forall|i: int| 0 <= i < t.ranuras(evento).len() ==> t.ranuras(evento)[i] is None,
    ensures
        t.destinatarios(evento) == Seq::<F>::empty(),
{
    if t.destinatarios(evento).len() > 0 {
        let escuchador = t.destinatarios(evento)[0];
        assert(t.destinatarios(evento).contains(escuchador));
        lema_vivo_ocupa_ranura(t.ranuras(evento), escuchador);
    }
}

/// Slot stability. No operation drops a slot, moves one, or hands one to another listener:
/// each slot holds what it held before, or is empty.
pub proof fn ley_ranuras_estables<F>(
    t: Tablero<F>,
    operaciones: Seq<Operacion<F>>,
    evento: Seq<char>,
    indice: int,
)
    requires
        0 <= indice < t.ranuras(evento).len(),
    ensures
        indice < t.aplicar_todas(operaciones).ranuras(evento).len(),
        t.aplicar_todas(operaciones).ranuras(evento)[indice] == t.ranuras(evento)[indice]
            || t.aplicar_todas(operaciones).ranuras(evento)[indice] is None,
        t.ranuras(evento)[indice] is None ==> t.aplicar_todas(operaciones).ranuras(
            evento,
        )[indice] is None,
    decreases operaciones.len(),
{
    if operaciones.len() > 0 {
        ley_ranuras_estables(t, operaciones.drop_last(), evento, indice);
    }
}

} // verus!
