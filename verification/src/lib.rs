//! The protocol side of a small SSH client: wire encoding, packet framing,
//! algorithm negotiation, key exchange, packet ciphers and the client's
//! conversation with the server. Sockets, terminal and prompts are left to
//! the program that uses the library.

pub mod algorithms;
pub mod cipher;
pub mod destination;
pub mod exchange;
pub mod handshake;
pub mod kex;
pub mod keys;
pub mod laws;
pub mod message;
pub mod packet;
pub mod primitives;
pub mod sealing;
pub mod session;
pub mod text;
pub mod wire;
