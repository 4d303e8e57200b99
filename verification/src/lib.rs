//! Asset redirection for a game client's native asset API.
//!
//! A client opens its assets by logical path and reads them through opaque
//! handles. This library decides which of those opens are answered from a
//! resource pack instead, keeps the in-memory buffers that stand in for the
//! redirected files, and adapts compiled shader containers to the format
//! version that the running client reads.
//!
//! - [`buffer`]: the named, seekable byte source behind a redirected handle.
//! - [`registry`]: the table from open handles to their buffers.
//! - [`redirect`]: the redirect rules and the one-slot cache of the buffer
//!   that was closed last.
//! - [`version`]: the format versions and the once-only detection of the
//!   client's version.
//! - [`material`]: the shader container as the fixes see it, and the fixes.
//! - [`aasset`]: what each intercepted entry point answers.
//! - [`bytes`]: searching, comparing and splicing byte strings.
//!
//! The library performs no input or output and holds no global state. The
//! program around it owns the locks, calls the real asset API and the pack
//! loader, and reads and writes the container format; it hands the library
//! plain values and acts on what comes back.

pub mod aasset;
pub mod buffer;
pub mod bytes;
pub mod material;
pub mod redirect;
pub mod registry;
pub mod version;
