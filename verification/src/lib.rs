//! Verified core of the Kaadan game engine: generational handles, asset
//! storage and loading, frame timing and pacing, double-buffered events,
//! input action maps, lifecycle state and editor data.
pub mod clock;
pub mod color;
pub mod commands;
pub mod editor;
pub mod error;
pub mod events;
pub mod frame_pacer;
pub mod handle;
pub mod input;
pub mod lifecycle;
pub mod loader;
pub mod loaders;
pub mod physics;
pub mod platform;
pub mod stage;
pub mod storage;
mod strmap;
pub mod text;
pub mod time;

pub use error::{KaadanError, KaadanResult};
pub use events::Events;
pub use frame_pacer::{FramePacer, ThermalState};
pub use handle::{Handle, HandleAllocator};
pub use input::{InputBinding, InputMap, KeyCode, KeyEvent, SwipeDirection, TouchPhase};
pub use lifecycle::{AppLifecycleState, LifecycleManager};
pub use loader::{AssetLoader, AssetResolver};
pub use loaders::{AudioClip, AudioLoader, ImageAsset, ImageLoader};
pub use stage::Stage;
pub use storage::{AssetStorage, LoadState};
pub use time::Time;
