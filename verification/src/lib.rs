//! LChat: a peer-to-peer chat for a local network, without the sockets and the
//! window. This library holds what the program decides and computes; the
//! program around it reads, writes and draws.

pub mod frame;
pub mod hosts;
pub mod laws;
pub mod message;
pub mod names;
pub mod net;
pub mod peers;
pub mod size;
pub mod text;
pub mod window;
