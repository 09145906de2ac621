//! What the library promises, said of the bytes that go in and come out and of
//! the primitives, without the terms in which the contracts are put.

pub mod bytes;
pub mod ciphers;
pub mod conversation;
pub mod exchanges;
pub mod handshakes;
pub mod lists;
pub mod packets;
pub mod sealing;
