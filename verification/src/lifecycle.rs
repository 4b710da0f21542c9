//! Application lifecycle state (foreground, background, exiting).
use vstd::prelude::*;

verus! {

/// Application lifecycle state, especially important for mobile.
#[derive(Debug, Clone, Copy, PartialEq, Eq, Structural)]
pub enum AppLifecycleState {
    /// App is running in the foreground.
    Active,
    /// App is in the background: release GPU resources, pause audio.
    Suspended,
    /// App is about to be terminated.
    Exiting,
}

impl Default for AppLifecycleState {
    fn default() -> (s: Self)
        ensures
            s == AppLifecycleState::Active,
    {
        AppLifecycleState::Active
    }
}

/// Tracks application lifecycle transitions.
#[derive(Debug)]
pub struct LifecycleManager {
    state: AppLifecycleState,
}

impl LifecycleManager {
    pub closed spec fn spec_state(&self) -> AppLifecycleState {
        self.state
    }

    pub fn new() -> (m: Self)
        ensures
            m.spec_state() == AppLifecycleState::Active,
    {
        LifecycleManager { state: AppLifecycleState::Active }
    }

    pub fn state(&self) -> (s: AppLifecycleState)
        ensures
            s == self.spec_state(),
    {
        self.state
    }

    /// App moved to the background.
    pub fn on_suspend(&mut self)
        ensures
            final(self).spec_state() == AppLifecycleState::Suspended,
    {
        self.state = AppLifecycleState::Suspended;
    }

    /// App returned to the foreground.
    pub fn on_resume(&mut self)
        ensures
            final(self).spec_state() == AppLifecycleState::Active,
    {
        self.state = AppLifecycleState::Active;
    }

    /// OS low-memory warning: the state stays as it is.
    pub fn on_low_memory(&mut self)
        ensures
            final(self).spec_state() == old(self).spec_state(),
    {
    }

    pub fn on_exit(&mut self)
        ensures
            final(self).spec_state() == AppLifecycleState::Exiting,
    {
        self.state = AppLifecycleState::Exiting;
    }
}

impl Default for LifecycleManager {
    fn default() -> (m: Self)
        ensures
            m.spec_state() == AppLifecycleState::Active,
    {
        LifecycleManager::new()
    }
}

} // verus!
