//! Search for Cunningham chains of the first and second kind and for
//! bi-twin chains, with every step of the search proved against its
//! contract.

pub mod bignat;
pub mod kind;
pub mod primality;
pub mod generator;
pub mod chain;
pub mod findings;
pub mod coordinator;
pub mod laws;
