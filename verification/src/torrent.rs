//! Identity and bookkeeping types shared by every component.

pub mod bitfield;
pub mod info_hash;
pub mod peer_id;

pub use bitfield::Bitfield;
pub use info_hash::InfoHash;
pub use peer_id::PeerId;
