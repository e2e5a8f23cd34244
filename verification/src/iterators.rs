//! The dispensers: structures that hand the items of one source out to many
//! consumers, one at a time or in bounded chunks, together with the traits
//! that tie them to the engine and to the source collections.

pub mod fetch;
pub mod fetchdirect;
pub mod implementations;
pub mod iterator;
pub mod queued;
