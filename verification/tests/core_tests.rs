use std::time::Duration;

use kaadan::error::{KaadanError, KaadanResult};
use kaadan::events::Events;
use kaadan::frame_pacer::{FramePacer, ThermalState};
use kaadan::handle::HandleAllocator;
use kaadan::input::{InputBinding, InputMap, KeyCode};
use kaadan::lifecycle::{AppLifecycleState, LifecycleManager};
use kaadan::time::Time;

#[test]
fn thermal_state_lowers_target_fps() {
    let mut pacer = FramePacer::new(60);
    assert_eq!(pacer.target_fps(), 60);
    pacer.set_thermal_state(ThermalState::Serious);
    assert_eq!(pacer.target_fps(), 30);
    assert_eq!(pacer.thermal_state(), ThermalState::Serious);
    pacer.set_thermal_state(ThermalState::Critical);
    assert_eq!(pacer.target_fps(), 20);
}

#[test]
fn lifecycle_transitions() {
    let mut manager = LifecycleManager::new();
    assert_eq!(manager.state(), AppLifecycleState::Active);
    manager.on_suspend();
    assert_eq!(manager.state(), AppLifecycleState::Suspended);
    manager.on_resume();
    assert_eq!(manager.state(), AppLifecycleState::Active);
    manager.on_exit();
    assert_eq!(manager.state(), AppLifecycleState::Exiting);
}

#[test]
fn error_display_messages() {
    let err = KaadanError::AssetNotFound("hero.png".to_string());
    assert_eq!(err.message(), "Asset not found: hero.png");

    let err = KaadanError::InvalidHandle {
        index: 3,
        generation: 7,
    };
    assert_eq!(err.message(), "Invalid handle: index=3, generation=7");
}

#[test]
fn result_alias_propagates_io_error() {
    fn read() -> KaadanResult<()> {
        Err(std::io::Error::new(std::io::ErrorKind::NotFound, "nope"))?;
        Ok(())
    }
    assert!(matches!(read(), Err(KaadanError::Io(_))));
}

#[test]
fn send_and_read() {
    let mut events = Events::<u32>::new();
    events.send(1);
    events.send(2);
    let read: Vec<u32> = events.iter().into_iter().copied().collect();
    assert_eq!(read, vec![1, 2]);
}

#[test]
fn events_expire_after_two_updates() {
    let mut events = Events::<u32>::new();
    events.send(42);
    events.update(); // sent events still readable (one frame old)
    assert_eq!(events.len(), 1);
    events.update(); // now dropped
    assert!(events.is_empty());
}

#[test]
fn delta_is_clamped() {
    let mut time = Time::new();
    time.advance(Duration::from_secs(10)); // huge stall
    assert!(time.delta() <= Duration::from_millis(250));
}

#[test]
fn advance_increments_frame_count() {
    let mut time = Time::new();
    time.advance(Duration::from_millis(16));
    time.advance(Duration::from_millis(16));
    assert_eq!(time.frame_count(), 2);
}

#[test]
fn input_map_binds_action() {
    let mut map = InputMap::new();
    map.bind("jump", InputBinding::Key(KeyCode::Space));
    assert_eq!(map.bindings_for("jump").len(), 1);
    assert!(map.bindings_for("missing").is_empty());
}

#[test]
fn handle_generational_safety() {
    let mut alloc = HandleAllocator::<u32>::new();
    let h1 = alloc.allocate();
    assert!(alloc.is_valid(h1));

    alloc.free(h1);
    assert!(!alloc.is_valid(h1));

    let h2 = alloc.allocate();
    assert!(alloc.is_valid(h2));
    assert!(!alloc.is_valid(h1)); // Old handle still invalid — generation bumped
    assert_eq!(h2.index(), h1.index()); // Same slot reused
    assert_ne!(h2.generation(), h1.generation()); // Different generation
}

#[test]
fn handle_allocator_live_count() {
    let mut alloc = HandleAllocator::<u32>::new();
    let h1 = alloc.allocate();
    let h2 = alloc.allocate();
    assert_eq!(alloc.live_count(), 2);
    alloc.free(h1);
    assert_eq!(alloc.live_count(), 1);
    alloc.free(h2);
    assert_eq!(alloc.live_count(), 0);
}
