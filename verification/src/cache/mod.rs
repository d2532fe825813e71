//! The on-disk scan cache: its framing, its metadata and the freshness policy.

pub mod frame;
pub mod fresh;
pub mod metadata;

pub use frame::{decode_frame, encode_frame, Frame, FrameError};
pub use fresh::{
    cache_path_for, hash_path, is_cache_valid, spot_check_mtimes, spot_check_targets, SpotCheck,
};
pub use metadata::{CacheMetadata, CachedScanConfig, CACHE_MAGIC, CACHE_VERSION};
