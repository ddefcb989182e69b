//! What the command line names: the metainfo file and the port to advertise.

pub mod metainfo_file_path;

use vstd::prelude::*;

verus! {

/// The port advertised to the tracker unless another is given.
pub const DEFAULT_PORT: u16 = 8860;

} // verus!
