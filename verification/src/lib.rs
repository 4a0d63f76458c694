//! Core types of the kitsune peer-to-peer layer and of holochain clone
//! cells: process tick arithmetic, TLS certificate digests with their text
//! forms and order, the kitsune error types, clone-cell identifiers, and the
//! decimal text of their indices.

pub mod cell;
pub mod cert;
pub mod cert_order;
pub mod decimal;
pub mod error;
pub mod proc_count;
