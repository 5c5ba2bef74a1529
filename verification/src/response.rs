use vstd::prelude::*;

use crate::model::Port;

verus! {

/// A response that carries only a status word and a message.
pub struct GenericResponse {
    pub status: String,
    pub message: String,
}

/// The response to a listing request: a status word, the number of stored
/// ports, and every stored port value.
pub struct PortListResponse {
    pub status: String,
    pub results: usize,
    pub ports: Vec<Port>,
}

} // verus!
