//! Local inter-process byte streams with ancillary data.
//!
//! A local socket carries two things: a stream of payload bytes, and beside it control
//! messages that the kernel mediates, such as passed descriptors or credentials. This library
//! holds the rules of such a transport, and proves them: how buffers for ancillary data
//! behave, how the derived reads and writes proceed call by call, how a non-blocking transfer
//! moves between attempting and waiting, how a name resolves to an address, and which halves
//! of a split connection belong together. The transfers themselves are made by whoever owns
//! the descriptor, through the traits [`ReadAncillary`](ancillary_io::ReadAncillary) and
//! [`WriteAncillary`](ancillary_io::WriteAncillary).
//!
//! - [`cmsg`]: buffers for ancillary data, fixed and growable.
//! - [`ancillary_io`]: the reading and writing primitives and the operations derived from
//!   them.
//! - [`partial`]: the steps that the derived operations are made of.
//! - [`runs`]: what the calls of a derived operation look like, and the laws that follow.
//! - [`vectored`]: lists of buffers, and the emulation of vectored transfers.
//! - [`traced`]: a wrapper that keeps a transcript of the calls made through it.
//! - [`readiness`]: the retry loop of non-blocking transfers.
//! - [`local_socket`]: socket names and their resolution.
//! - [`stream`]: a connection, its halves, and their reunion.
//! - [`error`]: the error value of stream operations.

pub mod ancillary_io;
pub mod cmsg;
pub mod error;
pub mod local_socket;
pub mod partial;
pub mod readiness;
pub mod runs;
pub mod stream;
pub mod traced;
pub mod vectored;
