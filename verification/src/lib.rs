//! An in-process notification bus keyed by event name, together with a handful of small
//! utilities (users, products, greetings, currency, arithmetic and vector helpers).
//!
//! The bus is described twice: `tablero` is its mathematical model, a map from event names to
//! slot sequences, and `bus` is the executable registry whose contracts are stated over that
//! model. `leyes` proves what follows for every bus from the model alone.

pub mod aritmetica;
pub mod arreglos;
pub mod bus;
pub mod leyes;
pub mod moneda;
pub mod productos;
pub mod tablero;
pub mod texto;
pub mod usuario;
