//! The chunk stream of RTMP: the layer that carries messages over one
//! connection in chunks, each behind a compressed header.
//!
//! Everything here works on bytes in memory. A caller reads from its
//! socket into a buffer, hands the buffer to a [`slicereader::SliceReader`],
//! and writes to its socket what the library has appended to a `Vec<u8>`.
//!
//! - [`handshaking`]: the exchange of version and random packets that opens
//!   a connection.
//! - [`header`]: the chunk header in its four formats.
//! - [`connection`]: what a connection remembers: the last header of each
//!   chunk stream, and the chunk sizes and limits that control messages set.
//! - [`message`]: the control messages, the dispatch of a payload by its
//!   type, and `Message::read` and `Message::send`, which put a message
//!   together from its chunks and cut it into chunks.
//! - [`usercontrolmessage`], [`commandemessage`], [`datamessage`],
//!   [`audiodata`], [`videodata`]: the other kinds of message.
//! - [`amf`]: the boundary to the AMF codec, which command and data
//!   messages are made of.
//! - [`bytes`]: integers in network byte order.

pub mod error;
pub mod bytes;
pub mod slicereader;
pub mod header;
pub mod messageinterface;
pub mod message;
pub mod usercontrolmessage;
pub mod audiodata;
pub mod videodata;
pub mod connection;
pub mod amf;
pub mod datamessage;
pub mod commandemessage;
pub mod handshaking;
