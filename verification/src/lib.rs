//! A fixed-capacity, append-mostly time series of per-epoch operational
//! metrics for a single validator.
//!
//! The store never grows or shrinks: history lives in a circular buffer of
//! fixed-width records, each field of which uses its type's maximum value as
//! the "not yet observed" sentinel. Partial updates arrive out of order and
//! from independent sources; the update operations route each field into the
//! right record and guarantee that stale or conflicting data never corrupts
//! already-recorded epochs.

mod circbuf;
mod entry;
mod errors;
mod gossip;
mod history;

pub use circbuf::BufState;
pub use circbuf::CircBuf;
pub use circbuf::MAX_ITEMS;
pub use entry::ClientVersion;
pub use entry::ValidatorHistoryEntry;
pub use errors::ValidatorHistoryError;
pub use gossip::ContactInfo;
pub use gossip::GossipVersion;
pub use gossip::IpAddress;
pub use gossip::LegacyContactInfo;
pub use gossip::LegacyVersion;
pub use gossip::SemanticVersion;
pub use gossip::SocketAddress;
pub use gossip::Version2;
pub use history::Config;
pub use history::StoreState;
pub use history::ValidatorHistory;
pub use history::ValidatorHistoryVersion;
pub use history::cast_epoch;
