//! The mathematical model of a bus.

use vstd::prelude::*;

verus! {

/// What a bus holds, seen from outside: for every event that was ever subscribed to, its
/// slots in the order of subscription. A slot holds its listener until the registration is
/// revoked and is empty from then on; no slot is ever dropped or handed to another listener.
#[verifier::ext_equal]
pub struct Tablero<F> {
    pub temas: Map<Seq<char>, Seq<Option<F>>>,
}

/// One change to a board: a subscription, or the revocation of one slot.
pub enum Operacion<F> {
    Suscribir { evento: Seq<char>, escuchador: F },
    Remover { evento: Seq<char>, indice: int },
}

/// The listeners that `ranuras` still holds, in slot order.
pub open spec fn vivos<F>(ranuras: Seq<Option<F>>) -> Seq<F>
    decreases ranuras.len(),
{
    if ranuras.len() == 0 {
        Seq::empty()
    } else {
        let antes = vivos(ranuras.drop_last());
        match ranuras.last() {
            Some(escuchador) => antes.push(escuchador),
            None => antes,
        }
    }
}

/// The listeners that `operaciones` subscribe to `evento`, in the order of the subscriptions.
pub open spec fn suscritos<F>(operaciones: Seq<Operacion<F>>, evento: Seq<char>) -> Seq<F>
    decreases operaciones.len(),
{
    if operaciones.len() == 0 {
        Seq::empty()
    } else {
        let antes = suscritos(operaciones.drop_last(), evento);
        match operaciones.last() {
            Operacion::Suscribir { evento: suyo, escuchador } => if suyo == evento {
                antes.push(escuchador)
            } else {
                antes
            },
            Operacion::Remover { .. } => antes,
        }
    }
}

/// Whether none of `operaciones` revokes a slot of `evento`.
pub open spec fn sin_revocaciones<F>(operaciones: Seq<Operacion<F>>, evento: Seq<char>) -> bool {
    forall|k: int|
        0 <= k < operaciones.len() ==> match #[trigger] operaciones[k] {
            Operacion::Suscribir { .. } => true,
            Operacion::Remover { evento: suyo, .. } => suyo != evento,
        }
}

impl<F> Tablero<F> {
    /// The board of a bus that nobody has subscribed to.
    pub open spec fn vacio() -> Self {
        Tablero { temas: Map::empty() }
    }

    /// The slots of `evento`; an event that was never subscribed to has none.
    pub open spec fn ranuras(self, evento: Seq<char>) -> Seq<Option<F>> {
        if self.temas.dom().contains(evento) {
            self.temas[evento]
        } else {
            Seq::empty()
        }
    }

    /// The board after `escuchador` took the next free slot of `evento`.
    pub open spec fn suscribir(self, evento: Seq<char>, escuchador: F) -> Self {
        Tablero { temas: self.temas.insert(evento, self.ranuras(evento).push(Some(escuchador))) }
    }

    /// The board after slot `indice` of `evento` was emptied. A slot that does not exist
    /// leaves the board as it is.
    pub open spec fn remover(self, evento: Seq<char>, indice: int) -> Self {
        if 0 <= indice < self.ranuras(evento).len() {
            Tablero { temas: self.temas.insert(evento, self.ranuras(evento).update(indice, None)) }
        } else {
            self
        }
    }

    /// The listeners that a publication to `evento` reaches, in delivery order.
    pub open spec fn destinatarios(self, evento: Seq<char>) -> Seq<F> {
        vivos(self.ranuras(evento))
    }

    /// The board after `operacion`.
    pub open spec fn aplicar(self, operacion: Operacion<F>) -> Self {
        match operacion {
            Operacion::Suscribir { evento, escuchador } => self.suscribir(evento, escuchador),
            Operacion::Remover { evento, indice } => self.remover(evento, indice),
        }
    }

    /// The board after each of `operaciones`, first to last.
    pub open spec fn aplicar_todas(self, operaciones: Seq<Operacion<F>>) -> Self
        decreases operaciones.len(),
    {
        if operaciones.len() == 0 {
            self
        } else {
            self.aplicar_todas(operaciones.drop_last()).aplicar(operaciones.last())
        }
    }

    /// The board after each of `escuchadores` subscribed to `evento`, first to last.
    pub open spec fn suscribir_todos(self, evento: Seq<char>, escuchadores: Seq<F>) -> Self
        decreases escuchadores.len(),
    {
        if escuchadores.len() == 0 {
            self
        } else {
            self.suscribir_todos(evento, escuchadores.drop_last()).suscribir(
                evento,
                escuchadores.last(),
            )
        }
    }
}

} // verus!
