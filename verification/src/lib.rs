//! A terminal chat: the login handshake between client and server, the
//! server's chat room, and the client's input and display state.

pub mod text;
pub mod protocol;
pub mod login;
pub mod room;
pub mod view;
pub mod screen;
