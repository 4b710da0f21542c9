//! The traits through which assets are located and decoded.
use crate::error::KaadanError;
use vstd::prelude::*;

verus! {

/// Type-specific asset loading: turns raw bytes into a concrete asset.
pub trait AssetLoader: Send + Sync + 'static {
    type Output: Send + Sync + 'static;

    /// What loading `bytes` found at `path` may give. A loader that says
    /// nothing more admits any result.
    closed spec fn loads(&self, bytes: Seq<u8>, path: Seq<char>, result: Result<Self::Output, KaadanError>) -> bool {
        true
    }

    /// Parse raw bytes into the target asset type.
    fn load(&self, bytes: &[u8], path: &str) -> (r: Result<Self::Output, KaadanError>)
        ensures
            self.loads(bytes@, path@, r),
    ;

    /// File extensions this loader handles (e.g., `&["png", "jpg"]`).
    fn extensions(&self) -> &[&str];
}

/// How to locate and read raw bytes from the platform's asset storage.
pub trait AssetResolver: Send + Sync {
    /// What reading `path` may give. A resolver that says nothing more
    /// admits any result.
    closed spec fn reads(&self, path: Seq<char>, result: Result<Seq<u8>, KaadanError>) -> bool {
        true
    }

    fn read_bytes(&self, path: &str) -> (r: Result<Vec<u8>, KaadanError>)
        ensures
            self.reads(
                path@,
                match r {
                    Ok(bytes) => Ok(bytes@),
                    Err(e) => Err(e),
                },
            ),
    ;

    /// Whether an asset exists at `path`.
    fn path_exists(&self, path: &str) -> bool;
}

} // verus!
