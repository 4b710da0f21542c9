//! Window configuration.
use vstd::prelude::*;

verus! {

/// Configuration for window creation.
pub struct WindowConfig {
    pub title: String,
    pub width: u32,
    pub height: u32,
    pub resizable: bool,
}

impl Default for WindowConfig {
    fn default() -> (c: Self)
        ensures
            c.title@ == "KaadanEngine"@,
            c.width == 800,
            c.height == 600,
            c.resizable,
    {
        WindowConfig { title: "KaadanEngine".to_owned(), width: 800, height: 600, resizable: true }
    }
}

} // verus!
