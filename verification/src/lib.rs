//! Protocol stack of a remote-controlled rover: the request codec, the
//! challenge-response handshake and the media-stream demultiplexer.

pub mod bytes;
pub mod command;
pub mod handshake;
pub mod media;
pub mod request;
pub mod session;

pub use command::{Camera, Command, Direction, HorizontalDirection, Speed, VerticalDirection};
pub use media::StreamPacket;
pub use request::Request;
