//! Views derived from the tree: the large files and the build-artifact roots.

pub mod artifact;
pub mod computed;
pub mod stale;

pub use artifact::{classify_artifact, ArtifactKind};
pub use computed::{BuildArtifactEntry, ComputedViews, LargeFileEntry};
pub use stale::{is_stale, StaleThreshold};
