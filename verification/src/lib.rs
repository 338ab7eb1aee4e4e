//! Wire-format codec for the base unit of a Tor-like link protocol: the cell.
//!
//! A cell is a circuit identifier (whose width on the wire depends on the
//! negotiated link-protocol version), a one-byte command, and a body that is
//! either a fixed 509-byte block or a length-prefixed variable block.  The
//! `certs` module decodes the TLV certificate list carried inside one of the
//! variable-body cells, and `temp_vars` offers a small TTL-guarded container
//! used alongside the codec.

pub mod cell;
pub mod certs;
pub mod temp_vars;
