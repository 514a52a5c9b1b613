//! The run-length codec and the four segment decoders.

pub mod ods;
pub mod pcs;
pub mod pds;
pub mod rle;
pub mod wds;

pub use ods::decode_ods as ods;
pub use pcs::decode_pcs as pcs;
pub use pds::decode_pds as pds;
pub use rle::decode_rle as rle;
pub use wds::decode_wds as wds;
