//! Clarity Share: rooms, presence, signaling and the client state machines
//! around them, as one verified library.
pub mod client;
pub mod clock;
pub mod crypto;
pub mod desktop;
pub mod laws;
pub mod presence;
pub mod protocol;
pub mod room;
pub mod seqs;
pub mod sorting;
pub mod text;
pub mod text_laws;
pub mod textset;
pub mod turn;
