//! One NFT instance of a collection that enforces a royalty on every
//! secondary transfer, with its storage layout, metadata and transfer rules
//! stated as contracts and proved.
pub mod alkane;
pub mod encoding;
pub mod instance;

pub use alkane::{AlkaneId, AlkaneTransfer};
pub use instance::{CallResponse, Cellpack, Context, InstanceError, RoyaltyNFTOrbitalInstance};
