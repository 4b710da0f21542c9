use std::time::Duration;

use kaadan::color::hex_channels;
use kaadan::commands::{EditCommand, UndoStack};
use kaadan::editor::{axes, checkerboard, Axis, Name, TextureSource};
use kaadan::error::KaadanError;
use kaadan::events::Events;
use kaadan::frame_pacer::{FramePacer, ThermalState};
use kaadan::handle::HandleAllocator;
use kaadan::input::{InputBinding, InputMap, KeyCode, KeyEvent, KeyboardState};
use kaadan::loader::AssetLoader;
use kaadan::loaders::{ImageLoader, AudioLoader};
use kaadan::platform::WindowConfig;
use kaadan::stage::Stage;
use kaadan::storage::{AssetStorage, LoadState};
use kaadan::text::u32_decimal;
use kaadan::time::{Time, MAX_FIXED_STEPS};

#[test]
fn fixed_update_is_capped_per_tick() {
    let mut time = Time::new();
    time.advance(Duration::from_secs(10));
    let mut count = 0u32;
    while time.next_fixed_step(count) {
        count += 1;
    }
    assert_eq!(count, 8);
    assert_eq!(MAX_FIXED_STEPS, 8);
}

#[test]
fn fixed_steps_drain_accumulator() {
    let mut time = Time::new();
    let fd = time.fixed_delta();
    time.advance(fd * 3 + fd / 2);
    let mut steps = 0;
    while time.expend_fixed_step() {
        steps += 1;
    }
    assert_eq!(steps, 3);
    assert_eq!(time.accumulated(), fd / 2);
}

#[test]
fn time_starts_at_zero_and_sums_deltas() {
    let mut time = Time::new();
    assert_eq!(time.frame_count(), 0);
    assert_eq!(time.elapsed(), Duration::ZERO);
    assert_eq!(time.fixed_delta(), Duration::from_nanos(16_666_666));
    time.advance(Duration::from_millis(16));
    time.advance(Duration::from_secs(1));
    assert_eq!(time.delta(), Duration::from_millis(250));
    assert_eq!(time.elapsed(), Duration::from_millis(266));
    time.update();
    assert_eq!(time.frame_count(), 3);
    assert!(time.delta() <= Duration::from_millis(250));
    time.set_fixed_delta(Duration::from_millis(100));
    assert_eq!(time.fixed_delta(), Duration::from_millis(100));
}

#[test]
fn frame_pacer_budget_and_floor() {
    let mut pacer = FramePacer::new(50);
    pacer.begin_frame();
    assert!(pacer.end_frame() <= Duration::from_millis(20));
    pacer.set_target_fps(0);
    assert_eq!(pacer.target_fps(), 1);
    pacer.set_thermal_state(ThermalState::Fair);
    assert_eq!(pacer.target_fps(), 45);
    assert_eq!(ThermalState::Nominal.recommended_fps(), 60);
}

#[test]
fn handle_freed_twice_is_refused() {
    let mut alloc = HandleAllocator::<u8>::new();
    let h = alloc.allocate();
    assert!(alloc.free(h));
    assert!(!alloc.free(h));
    let h2 = alloc.allocate();
    let h3 = alloc.allocate();
    assert_eq!(h2.index(), 0);
    assert_eq!(h2.generation(), 1);
    assert_eq!(h3.index(), 1);
    assert_eq!(h3.generation(), 0);
    assert_eq!(alloc.live_count(), 2);
    assert!(h2 != h);
    assert!(h2 == h2.clone());
}

#[test]
fn storage_states_and_reserve() {
    let mut storage = AssetStorage::<u32>::new();
    assert!(storage.is_empty());
    let h = storage.reserve("queued.bin");
    assert_eq!(storage.state(h), Some(LoadState::Queued));
    assert!(storage.get(h).is_none());
    assert!(storage.set_state(h, LoadState::Loading));
    assert_eq!(storage.state(h), Some(LoadState::Loading));
    assert!(storage.fulfill(h, 7));
    assert_eq!(storage.state(h), Some(LoadState::Loaded));
    assert_eq!(storage.get(h), Some(&7));
    *storage.get_mut(h).unwrap() = 8;
    assert_eq!(storage.get(h), Some(&8));
    let f = storage.insert_failed("bad.bin");
    assert_eq!(storage.state(f), Some(LoadState::Failed));
    assert_eq!(storage.handle_for_path("bad.bin"), Some(f));
    assert_eq!(storage.len(), 2);
    assert_eq!(storage.remove(h), Some(8));
    assert_eq!(storage.remove(h), None);
    assert!(!storage.set_state(h, LoadState::Loaded));
    assert!(!storage.fulfill(h, 1));
    assert_eq!(storage.state(h), None);
    // Removing an asset leaves its path mapped to the now stale handle.
    assert_eq!(storage.handle_for_path("queued.bin"), Some(h));
    assert_eq!(storage.handle_for_path("nowhere"), None);
}

#[test]
fn complete_load_records_outcome() {
    let mut storage = AssetStorage::<u32>::new();
    let ok = storage.complete_load("a", Ok(5));
    let bad = storage.complete_load("b", Err(KaadanError::Other("x".to_string())));
    assert_eq!(storage.get(ok), Some(&5));
    assert_eq!(storage.state(bad), Some(LoadState::Failed));
}

#[test]
fn image_loader_reports_decode_error() {
    let r = ImageLoader.load(&[1, 2, 3], "junk.png");
    match r {
        Err(KaadanError::AssetLoad { path, reason }) => {
            assert_eq!(path, "junk.png");
            assert!(!reason.is_empty());
        }
        _ => panic!("expected AssetLoad error"),
    }
    assert_eq!(ImageLoader.extensions(), &["png", "jpg", "jpeg"]);
    assert_eq!(AudioLoader.extensions(), &["wav", "ogg", "mp3", "flac"]);
}

#[test]
fn error_messages_for_each_variant() {
    assert_eq!(KaadanError::Platform("p".into()).message(), "Platform error: p");
    assert_eq!(KaadanError::Renderer("r".into()).message(), "Renderer error: r");
    assert_eq!(
        KaadanError::AssetLoad { path: "a.png".into(), reason: "bad".into() }.message(),
        "Asset load error: a.png: bad"
    );
    assert_eq!(KaadanError::Other("plain".into()).message(), "plain");
    let io = KaadanError::from(std::io::Error::new(std::io::ErrorKind::NotFound, "nope"));
    assert_eq!(io.message(), "IO error: nope");
}

#[test]
fn decimal_text() {
    assert_eq!(u32_decimal(0), "0");
    assert_eq!(u32_decimal(7), "7");
    assert_eq!(u32_decimal(1234567890), "1234567890");
    assert_eq!(u32_decimal(u32::MAX), "4294967295");
}

#[test]
fn events_keep_order_across_update() {
    let mut events = Events::<u32>::new();
    events.send(1);
    events.update();
    events.send(2);
    events.send(3);
    let read: Vec<u32> = events.iter().into_iter().copied().collect();
    assert_eq!(read, vec![1, 2, 3]);
    assert_eq!(events.len(), 3);
    events.update();
    let read: Vec<u32> = events.iter().into_iter().copied().collect();
    assert_eq!(read, vec![2, 3]);
}

#[test]
fn input_map_keeps_binding_order() {
    let mut map = InputMap::new();
    map.bind("fire", InputBinding::Key(KeyCode::F))
        .bind("fire", InputBinding::Tap)
        .bind("move", InputBinding::GamepadAxis { axis: 0, positive: true });
    assert_eq!(
        map.bindings_for("fire"),
        &[InputBinding::Key(KeyCode::F), InputBinding::Tap]
    );
    assert_eq!(map.bindings_for("move").len(), 1);
}

#[test]
fn keyboard_state_tracks_presses() {
    let mut map = InputMap::new();
    map.bind("jump", InputBinding::Key(KeyCode::Space));
    map.bind("poke", InputBinding::Tap);
    let mut keys = KeyboardState::new();
    keys.process_key(&KeyEvent { key: KeyCode::Space, pressed: true });
    assert!(keys.key_pressed(KeyCode::Space));
    assert!(keys.key_just_pressed(KeyCode::Space));
    assert!(keys.action_pressed("jump", &map, false));
    assert!(keys.action_just_pressed("jump", &map, false));
    keys.begin_frame();
    keys.process_key(&KeyEvent { key: KeyCode::Space, pressed: true });
    assert!(!keys.key_just_pressed(KeyCode::Space));
    assert!(keys.action_pressed("jump", &map, false));
    assert!(!keys.action_just_pressed("jump", &map, false));
    keys.process_key(&KeyEvent { key: KeyCode::Space, pressed: false });
    assert!(!keys.key_pressed(KeyCode::Space));
    assert!(keys.key_just_released(KeyCode::Space));
    assert!(!keys.action_pressed("jump", &map, false));
    assert!(keys.action_pressed("poke", &map, true));
    assert!(!keys.action_pressed("missing", &map, true));
}

#[test]
fn key_from_character() {
    assert_eq!(KeyCode::from_character("a"), KeyCode::A);
    assert_eq!(KeyCode::from_character("Z"), KeyCode::Z);
    assert_eq!(KeyCode::from_character("7"), KeyCode::Key7);
    assert_eq!(KeyCode::from_character("ab"), KeyCode::Unknown);
    assert_eq!(KeyCode::from_character("é"), KeyCode::Unknown);
    assert_eq!(KeyCode::from_character(""), KeyCode::Unknown);
}

#[test]
fn texture_source_keys() {
    assert_eq!(TextureSource::Checker { size: 64, cells: 8 }.key(), "checker:64:8");
    assert_eq!(
        TextureSource::Solid { rgba: [1, 2, 3, 255] }.key(),
        format!("solid:{:?}", [1u8, 2, 3, 255])
    );
    assert_eq!(TextureSource::File { path: "a/b.png".into() }.key(), "file:a/b.png");
}

#[test]
fn checkerboard_pixels() {
    let px = checkerboard(4, 2);
    assert_eq!(px.len(), 4 * 4 * 4);
    assert_eq!(&px[0..4], &[235, 235, 245, 255]);
    // (2, 0) is in the second cell of the first row: dark.
    assert_eq!(&px[8..12], &[70, 70, 95, 255]);
    // (2, 2) is back on a light cell.
    let k = (2 * 4 + 2) * 4;
    assert_eq!(&px[k..k + 4], &[235, 235, 245, 255]);
    // More cells than pixels: cells are one pixel wide.
    let px = checkerboard(2, 8);
    assert_eq!(&px[4..8], &[70, 70, 95, 255]);
}

#[test]
fn hex_channel_bytes() {
    assert_eq!(hex_channels(0x4477FF), (0x44, 0x77, 0xFF, 255));
    assert_eq!(hex_channels(0x11223344), (0x11, 0x22, 0x33, 0x44));
    assert_eq!(hex_channels(0), (0, 0, 0, 255));
}

#[test]
fn editor_small_items() {
    assert_eq!(Name::new("Cube").0, "Cube");
    assert!(axes(true) == vec![Axis::X, Axis::Y, Axis::Z]);
    assert!(axes(false) == vec![Axis::X, Axis::Y]);
    let c = WindowConfig::default();
    assert_eq!((c.title.as_str(), c.width, c.height, c.resizable), ("KaadanEngine", 800, 600, true));
    let order = Stage::order();
    assert_eq!(order.len(), Stage::COUNT);
    assert_eq!(order[2], Stage::FixedUpdate);
    assert_eq!(Stage::Render.index(), 5);
}

struct Push(u32);

impl EditCommand<Vec<u32>, Option<u32>> for Push {
    fn applied(
        &self,
        world: Vec<u32>,
        _selection: Option<u32>,
        next: Self,
        world1: Vec<u32>,
        selection1: Option<u32>,
    ) -> bool {
        let mut w = world;
        w.push(self.0);
        next.0 == self.0 && world1 == w && selection1 == Some(self.0)
    }
    fn undone(
        &self,
        world: Vec<u32>,
        _selection: Option<u32>,
        next: Self,
        world1: Vec<u32>,
        selection1: Option<u32>,
    ) -> bool {
        let mut w = world;
        w.pop();
        next.0 == self.0 && world1 == w && selection1.is_none()
    }
    fn apply(&mut self, world: &mut Vec<u32>, selection: &mut Option<u32>) {
        world.push(self.0);
        *selection = Some(self.0);
    }
    fn undo(&mut self, world: &mut Vec<u32>, selection: &mut Option<u32>) {
        world.pop();
        *selection = None;
    }
}

#[test]
fn undo_stack_runs_undoes_and_redoes() {
    let mut world = Vec::new();
    let mut sel = None;
    let mut stack = UndoStack::new();
    assert!(!stack.can_undo());
    stack.run(&mut world, &mut sel, Push(1));
    stack.run(&mut world, &mut sel, Push(2));
    assert_eq!(world, vec![1, 2]);
    stack.undo(&mut world, &mut sel);
    assert_eq!(world, vec![1]);
    assert!(stack.can_redo());
    stack.redo(&mut world, &mut sel);
    assert_eq!(world, vec![1, 2]);
    assert_eq!(sel, Some(2));
    stack.undo(&mut world, &mut sel);
    stack.run(&mut world, &mut sel, Push(3));
    assert!(!stack.can_redo());
    assert_eq!(world, vec![1, 3]);
    stack.undo(&mut world, &mut sel);
    stack.undo(&mut world, &mut sel);
    stack.undo(&mut world, &mut sel);
    assert!(world.is_empty());
    assert!(!stack.can_undo());
}

#[test]
fn action_pressed_via_key() {
    let mut map = InputMap::new();
    map.bind("jump", InputBinding::Key(KeyCode::Space));
    let mut state = KeyboardState::new();
    state.process_key(&KeyEvent {
        key: KeyCode::Space,
        pressed: true,
    });
    assert!(state.action_pressed("jump", &map, false));
    assert!(state.action_just_pressed("jump", &map, false));
}

#[test]
fn frame_pacer_wait_for_exact() {
    let pacer = FramePacer::new(50);
    assert_eq!(pacer.wait_for(Duration::from_millis(5)), Duration::from_millis(15));
    assert_eq!(pacer.wait_for(Duration::from_millis(20)), Duration::ZERO);
    assert_eq!(pacer.wait_for(Duration::from_secs(3)), Duration::ZERO);
    let pacer = FramePacer::new(60);
    assert_eq!(pacer.wait_for(Duration::ZERO), Duration::from_nanos(16_666_667));
}

#[test]
fn first_frame_drains_whole_fixed_steps() {
    let mut time = Time::new();
    time.advance(Duration::from_nanos(16_666_666 * 7 / 2));
    let mut runs = 0;
    while time.expend_fixed_step() {
        runs += 1;
    }
    assert_eq!(runs, 3);
    let mut time = Time::new();
    time.advance(Duration::from_secs(2));
    let mut runs = 0;
    while time.expend_fixed_step() {
        runs += 1;
    }
    assert_eq!(runs, 250_000_000 / 16_666_666);
}

#[test]
fn storage_operations_keep_other_handles() {
    let mut storage = AssetStorage::<u32>::new();
    let a = storage.insert(1);
    let b = storage.reserve("b.png");
    let c = storage.insert_failed("c.png");
    assert_eq!(storage.state(a), Some(LoadState::Loaded));
    assert_eq!(storage.state(b), Some(LoadState::Queued));
    assert_eq!(storage.state(c), Some(LoadState::Failed));
    assert_eq!(storage.remove(b), None);
    let d = storage.insert(4);
    assert_eq!(d.index(), b.index());
    assert_eq!(storage.state(b), None);
    assert_eq!(storage.get(a), Some(&1));
    assert_eq!(storage.get(d), Some(&4));
    assert_eq!(storage.state(c), Some(LoadState::Failed));
    assert_eq!(storage.handle_for_path("c.png"), Some(c));
    assert_eq!(storage.len(), 3);
}

#[test]
fn allocator_never_reissues_a_handle() {
    let mut alloc = HandleAllocator::<u8>::new();
    let mut issued = Vec::new();
    for round in 0..4 {
        let h = alloc.allocate();
        assert!(!issued.contains(&h));
        issued.push(h);
        if round % 2 == 0 {
            assert!(alloc.free(h));
        }
    }
    assert_eq!(alloc.live_count(), 2);
    assert!(!alloc.is_valid(issued[0]));
    assert!(alloc.is_valid(issued[1]));
    assert!(!alloc.is_valid(issued[2]));
    assert!(alloc.is_valid(issued[3]));
}
