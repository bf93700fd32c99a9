//! The executable bus: a registry of listeners by event name, the handle that revokes one
//! registration, and the snapshot through which a publication is delivered.

use crate::tablero::{vivos, Tablero};
use std::collections::HashMap;
use std::rc::Rc;
use vstd::prelude::*;

verus! {

/// What a publication carries: string fields by name. The bus hands it on unread.
pub type Info = HashMap<String, String>;

/// Conventional name of the event that announces a failure. The bus gives it no special meaning.
pub const MOSTRAR_NOTIFICACION_ERROR: &'static str = "MOSTRAR_NOTIFICACION_ERROR";

/// Conventional name of the event that announces a success. The bus gives it no special meaning.
pub const MOSTRAR_NOTIFICACION_EXITO: &'static str = "MOSTRAR_NOTIFICACION_EXITO";

/// The slots of one event. A revoked slot stays in place, empty, so that the indices of the
/// slots after it never move.
struct Tema<F> {
    nombre: String,
    ranuras: Vec<Option<Rc<F>>>,
}

/// The registry. `F` is the type of its listeners: anything callable with one payload.
pub struct PubSub<F> {
    temas: Vec<Tema<F>>,
}

/// The token of one registration: the event and the slot that the listener took.
pub struct Suscripcion {
    evento: String,
    indice: usize,
}

/// The listeners of one event as they stood when the snapshot was taken. It shares the
/// listeners with the registry but not the slots, so that nothing done to the registry
/// afterwards changes whom the snapshot reaches.
pub struct Despacho<F> {
    destinatarios: Vec<Rc<F>>,
}

/// The slots of a topic without their reference counting.
spec fn plano<F>(ranuras: Seq<Option<Rc<F>>>) -> Seq<Option<F>> {
    Seq::new(
        ranuras.len(),
        |i: int|
            match ranuras[i] {
                Some(compartido) => Some(*compartido),
                None => None,
            },
    )
}

/// Whether a topic carries the name `evento`.
spec fn presente<F>(temas: Seq<Tema<F>>, evento: Seq<char>) -> bool {
    exists|i: int| 0 <= i < temas.len() && (#[trigger] temas[i]).nombre@ == evento
}

/// Where the topic named `evento` stands, where there is one.
spec fn posicion<F>(temas: Seq<Tema<F>>, evento: Seq<char>) -> int {
    choose|i: int| 0 <= i < temas.len() && (#[trigger] temas[i]).nombre@ == evento
}

/// Whether no two topics carry the same name.
spec fn sin_repetidos<F>(temas: Seq<Tema<F>>) -> bool {
    forall|i: int, j: int|
        0 <= i < j < temas.len() ==> (#[trigger] temas[i]).nombre@ != (#[trigger] temas[j]).nombre@
}

/// The board that a list of topics stands for: each name with the slots of its topic.
spec fn tablero_de<F>(temas: Seq<Tema<F>>) -> Tablero<F> {
    Tablero {
        temas: Map::new(
            |evento: Seq<char>| presente(temas, evento),
            |evento: Seq<char>| plano(temas[posicion(temas, evento)].ranuras@),
        ),
    }
}

/// Among topics with distinct names, a name is found where its topic stands.
proof fn lema_posicion<F>(temas: Seq<Tema<F>>, i: int)
    requires
        sin_repetidos(temas),
        0 <= i < temas.len(),
    ensures
        presente(temas, temas[i].nombre@),
        posicion(temas, temas[i].nombre@) == i,
{
    let j = posicion(temas, temas[i].nombre@);
    assert(0 <= j < temas.len() && temas[j].nombre@ == temas[i].nombre@);
}

/// Adding a topic under a name that no topic carries adds that one entry to the board.
proof fn lema_tema_nuevo<F>(antes: Seq<Tema<F>>, tema: Tema<F>)
    requires
        sin_repetidos(antes),
        !presente(antes, tema.nombre@),
    ensures
        sin_repetidos(antes.push(tema)),
        tablero_de(antes.push(tema)).temas =~= tablero_de(antes).temas.insert(
            tema.nombre@,
            plano(tema.ranuras@),
        ),
{
    let despues = antes.push(tema);
    assert forall|i: int, j: int| 0 <= i < j < despues.len() implies (#[trigger] despues[i]).nombre@
        != (#[trigger] despues[j]).nombre@ by {
        if j == antes.len() {
            assert(antes[i].nombre@ != tema.nombre@);
        } else {
            assert(antes[i].nombre@ != antes[j].nombre@);
        }
    }
    let viejo = tablero_de(antes).temas;
    let nuevo = tablero_de(despues).temas;
    assert forall|evento: Seq<char>| nuevo.dom().contains(evento) <==> viejo.insert(
        tema.nombre@,
        plano(tema.ranuras@),
    ).dom().contains(evento) by {
        if presente(antes, evento) {
            let i = posicion(antes, evento);
            assert(despues[i].nombre@ == evento);
        }
        if evento == tema.nombre@ {
            assert(despues[antes.len() as int].nombre@ == evento);
        }
        if presente(despues, evento) {
            let i = posicion(despues, evento);
            if i < antes.len() {
                assert(antes[i].nombre@ == evento);
            }
        }
    }
    assert forall|evento: Seq<char>| #[trigger] nuevo.dom().contains(evento) implies nuevo[evento]
        == viejo.insert(tema.nombre@, plano(tema.ranuras@))[evento] by {
        let i = posicion(despues, evento);
        lema_posicion(despues, i);
        if i < antes.len() {
            lema_posicion(antes, i);
        }
    }
}

/// Changing the slots of one topic changes that one entry of the board.
proof fn lema_tema_cambiado<F>(antes: Seq<Tema<F>>, despues: Seq<Tema<F>>, lugar: int)
    requires
        sin_repetidos(antes),
        0 <= lugar < antes.len(),
        despues.len() == antes.len(),
        forall|j: int| 0 <= j < antes.len() ==> (#[trigger] despues[j]).nombre@ == antes[j].nombre@,
        forall|j: int|
            0 <= j < antes.len() && j != lugar ==> (#[trigger] despues[j]).ranuras@
                == antes[j].ranuras@,
    ensures
        sin_repetidos(despues),
        tablero_de(despues).temas =~= tablero_de(antes).temas.insert(
            antes[lugar].nombre@,
            plano(despues[lugar].ranuras@),
        ),
{
    assert forall|i: int, j: int| 0 <= i < j < despues.len() implies (#[trigger] despues[i]).nombre@
        != (#[trigger] despues[j]).nombre@ by {
        assert(antes[i].nombre@ != antes[j].nombre@);
    }
    let viejo = tablero_de(antes).temas;
    let nuevo = tablero_de(despues).temas;
    let cambiado = viejo.insert(antes[lugar].nombre@, plano(despues[lugar].ranuras@));
    assert forall|evento: Seq<char>| nuevo.dom().contains(evento) <==> cambiado.dom().contains(
        evento,
    ) by {
        if presente(antes, evento) {
            let i = posicion(antes, evento);
            assert(despues[i].nombre@ == evento);
        }
        if evento == antes[lugar].nombre@ {
            assert(despues[lugar].nombre@ == evento);
        }
        if presente(despues, evento) {
            let i = posicion(despues, evento);
            assert(antes[i].nombre@ == evento);
        }
    }
    assert forall|evento: Seq<char>| #[trigger] nuevo.dom().contains(evento) implies nuevo[evento]
        == cambiado[evento] by {
        let i = posicion(despues, evento);
        lema_posicion(despues, i);
        lema_posicion(antes, i);
    }
}

/// Another reference to the listener that `compartido` points to.
///
/// Calls `Rc::clone`, which makes a second pointer to the same allocation: the value seen
/// through the new pointer is the value seen through the old one.
#[verifier::external_body]
fn compartir<F>(compartido: &Rc<F>) -> (otro: Rc<F>)
    ensures
        *otro == **compartido,
{
    Rc::clone(compartido)
}

impl<F> View for PubSub<F> {
    type V = Tablero<F>;

    closed spec fn view(&self) -> Tablero<F> {
        tablero_de(self.temas@)
    }
}

impl<F> View for Despacho<F> {
    type V = Seq<F>;

    closed spec fn view(&self) -> Seq<F> {
        Seq::new(self.destinatarios@.len(), |i: int| *self.destinatarios@[i])
    }
}

impl<F> PubSub<F> {
    /// The registry's invariant: no two topics carry the same name.
    pub closed spec fn bien_formado(&self) -> bool {
        sin_repetidos(self.temas@)
    }

    /// A bus with no subscriptions.
    pub fn new() -> (bus: Self)
        ensures
            bus.bien_formado(),
            bus@ == Tablero::<F>::vacio(),
    {
        let bus = PubSub { temas: Vec::new() };
        assert(bus@.temas =~= Map::empty());
        bus
    }

    /// Where the topic named `evento` stands, if there is one.
    fn buscar(&self, evento: &String) -> (lugar: Option<usize>)
        ensures
            match lugar {
                Some(i) => i < self.temas@.len() && self.temas@[i as int].nombre@ == evento@,
                None => !presente(self.temas@, evento@),
            },
    {
        let mut i: usize = 0;
        while i < self.temas.len()
            invariant
                i <= self.temas@.len(),
                forall|j: int| 0 <= j < i ==> (#[trigger] self.temas@[j]).nombre@ != evento@,
            decreases self.temas@.len() - i,
        {
            if self.temas[i].nombre == *evento {
                return Some(i);
            }
            i += 1;
        }
        None
    }

    /// Registers `escuchador` under `evento` and returns the token of the registration.
    ///
    /// The listener takes the next free slot of the event, behind every listener subscribed
    /// before it; the slots of other events are untouched.
    pub fn suscribirse(&mut self, evento: &str, escuchador: F) -> (suscripcion: Suscripcion)
        requires
            old(self).bien_formado(),
        ensures
            final(self).bien_formado(),
            final(self)@ == old(self)@.suscribir(evento@, escuchador),
            suscripcion.evento() == evento@,
            suscripcion.indice() == old(self)@.ranuras(evento@).len(),
    {
        let nombre = evento.to_owned();
        let lugar = match self.buscar(&nombre) {
            Some(i) => i,
            None => {
                let tema = Tema { nombre: nombre.clone(), ranuras: Vec::new() };
                proof {
                    lema_tema_nuevo(self.temas@, tema);
                    assert(plano(tema.ranuras@) =~= Seq::empty());
                }
                self.temas.push(tema);
                self.temas.len() - 1
            },
        };
        let ghost medio = self.temas@;
        proof {
            lema_posicion(medio, lugar as int);
        }
        let indice = self.temas[lugar].ranuras.len();
        self.temas[lugar].ranuras.push(Some(Rc::new(escuchador)));
        proof {
            lema_tema_cambiado(medio, self.temas@, lugar as int);
            assert(plano(self.temas@[lugar as int].ranuras@) =~= plano(
                medio[lugar as int].ranuras@,
            ).push(Some(escuchador)));
            assert(self@.temas =~= old(self)@.suscribir(evento@, escuchador).temas);
        }
        Suscripcion { evento: nombre, indice }
    }

    /// The listeners that a publication to `evento` reaches at this moment: those subscribed
    /// to it and not revoked, in the order of their subscription.
    pub fn instantanea(&self, evento: &str) -> (despacho: Despacho<F>)
        requires
            self.bien_formado(),
        ensures
            despacho@ == self@.destinatarios(evento@),
    {
        let nombre = evento.to_owned();
        let mut destinatarios: Vec<Rc<F>> = Vec::new();
        match self.buscar(&nombre) {
            Some(lugar) => {
                proof {
                    lema_posicion(self.temas@, lugar as int);
                }
                let ranuras = &self.temas[lugar].ranuras;
                let mut i: usize = 0;
                while i < ranuras.len()
                    invariant
                        i <= ranuras@.len(),
                        Seq::new(destinatarios@.len(), |k: int| *destinatarios@[k]) == vivos(
                            plano(ranuras@).take(i as int),
                        ),
                    decreases ranuras@.len() - i,
                {
                    proof {
                        assert(plano(ranuras@).take(i + 1).drop_last() =~= plano(ranuras@).take(
                            i as int,
                        ));
                    }
                    let ghost antes = destinatarios@;
                    match &ranuras[i] {
                        Some(escuchador) => {
                            destinatarios.push(compartir(escuchador));
                            assert(Seq::new(destinatarios@.len(), |k: int| *destinatarios@[k])
                                =~= Seq::new(antes.len(), |k: int| *antes[k]).push(**escuchador));
                        },
                        None => {},
                    }
                    i += 1;
                }
                proof {
                    assert(plano(ranuras@).take(i as int) =~= plano(ranuras@));
                }
            },
            None => {
                assert(Seq::new(destinatarios@.len(), |k: int| *destinatarios@[k])
                    =~= Seq::<F>::empty());
            },
        }
        Despacho { destinatarios }
    }
}

impl<F: Fn(&Info)> Despacho<F> {
    /// Hands `info` to every listener of the snapshot, first to last.
    ///
    /// The caller vouches that each of them accepts `info`; each has then been called with it.
    /// Whom the delivery reaches was settled when the snapshot was taken: a listener that
    /// subscribes or revokes while it runs changes the registry, not this delivery.
    pub fn entregar(&self, info: &Info)
        requires
            forall|k: int| 0 <= k < self@.len() ==> call_requires(#[trigger] self@[k], (info,)),
        ensures
            forall|k: int| 0 <= k < self@.len() ==> call_ensures(#[trigger] self@[k], (info,), ()),
    {
        let mut i: usize = 0;
        while i < self.destinatarios.len()
            invariant
                i <= self.destinatarios@.len(),
                self@.len() == self.destinatarios@.len(),
                forall|k: int| 0 <= k < self@.len() ==> call_requires(#[trigger] self@[k], (info,)),
                forall|k: int| 0 <= k < i ==> call_ensures(#[trigger] self@[k], (info,), ()),
            decreases self.destinatarios@.len() - i,
        {
            assert(*self.destinatarios@[i as int] == self@[i as int]);
            (self.destinatarios[i])(info);
            i += 1;
        }
    }
}

impl<F: Fn(&Info)> PubSub<F> {
    /// Delivers `info` to every listener subscribed to `evento` and not revoked, in the
    /// order of their subscription. An event without listeners is no error: nothing is called.
    ///
    /// The listeners are fixed when the call begins, and the registry stays borrowed until
    /// the last of them has run. Where a listener has to reach the registry itself, take the
    /// snapshot with `instantanea`, let go of the registry, and deliver with `entregar`.
    pub fn publicar(&self, evento: &str, info: &Info)
        requires
            self.bien_formado(),
            forall|k: int|
                0 <= k < self@.destinatarios(evento@).len() ==> call_requires(
                    #[trigger] self@.destinatarios(evento@)[k],
                    (info,),
                ),
        ensures
            forall|k: int|
                0 <= k < self@.destinatarios(evento@).len() ==> call_ensures(
                    #[trigger] self@.destinatarios(evento@)[k],
                    (info,),
                    (),
                ),
    {
        let despacho = self.instantanea(evento);
        despacho.entregar(info);
    }
}

impl Suscripcion {
    /// The event that the listener was subscribed to.
    pub closed spec fn evento(&self) -> Seq<char> {
        self.evento@
    }

    /// The slot that the listener took among those of its event.
    pub closed spec fn indice(&self) -> int {
        self.indice as int
    }

    /// Revokes the registration: empties its slot in `bus`.
    ///
    /// Every other slot keeps its place and its listener. Where the slot is already empty,
    /// or `bus` has no such slot, nothing changes.
    pub fn remover<F>(&self, bus: &mut PubSub<F>)
        requires
            old(bus).bien_formado(),
        ensures
            final(bus).bien_formado(),
            final(bus)@ == old(bus)@.remover(self.evento(), self.indice()),
    {
        match bus.buscar(&self.evento) {
            Some(lugar) => {
                let ghost antes = bus.temas@;
                proof {
                    lema_posicion(antes, lugar as int);
                }
                if self.indice < bus.temas[lugar].ranuras.len() {
                    bus.temas[lugar].ranuras[self.indice] = None;
                    proof {
                        lema_tema_cambiado(antes, bus.temas@, lugar as int);
                        assert(plano(bus.temas@[lugar as int].ranuras@) =~= plano(
                            antes[lugar as int].ranuras@,
                        ).update(self.indice as int, None));
                        assert(bus@.temas =~= old(bus)@.remover(self.evento(), self.indice()).temas);
                    }
                }
            },
            None => {},
        }
    }
}

} // verus!
