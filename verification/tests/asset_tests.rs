use kaadan::error::KaadanError;
use kaadan::loader::{AssetLoader, AssetResolver};
use kaadan::loaders::{AudioLoader, ImageAsset, ImageLoader};
use kaadan::storage::{AssetStorage, LoadState};

#[test]
fn storage_insert_get() {
    let mut storage = AssetStorage::<String>::new();
    let handle = storage.insert("hello".to_string());
    assert_eq!(storage.get(handle).unwrap(), "hello");
    assert_eq!(storage.len(), 1);
    assert_eq!(storage.state(handle), Some(LoadState::Loaded));
}

#[test]
fn storage_path_dedup() {
    let mut storage = AssetStorage::<u32>::new();
    let h1 = storage.insert_with_path("test.png", 42);
    let h2 = storage.handle_for_path("test.png");
    assert_eq!(h2, Some(h1));
}

#[test]
fn storage_remove() {
    let mut storage = AssetStorage::<u32>::new();
    let h = storage.insert(99);
    assert_eq!(storage.remove(h), Some(99));
    assert!(storage.get(h).is_none());
    assert_eq!(storage.len(), 0);
}

/// In-memory resolver returning the same bytes for any path.
struct PngResolver {
    bytes: Vec<u8>,
}

impl AssetResolver for PngResolver {
    fn read_bytes(&self, _path: &str) -> Result<Vec<u8>, KaadanError> {
        Ok(self.bytes.clone())
    }
    fn path_exists(&self, _path: &str) -> bool {
        true
    }
}

struct FailResolver;

impl AssetResolver for FailResolver {
    fn read_bytes(&self, path: &str) -> Result<Vec<u8>, KaadanError> {
        Err(KaadanError::AssetNotFound(path.to_string()))
    }
    fn path_exists(&self, _path: &str) -> bool {
        false
    }
}

fn make_png(w: u32, h: u32) -> Vec<u8> {
    let img = image::RgbaImage::from_pixel(w, h, image::Rgba([255, 0, 0, 255]));
    let mut bytes = Vec::new();
    image::DynamicImage::ImageRgba8(img)
        .write_to(
            &mut std::io::Cursor::new(&mut bytes),
            image::ImageFormat::Png,
        )
        .unwrap();
    bytes
}

#[test]
fn server_loads_image_and_dedups() {
    let resolver = PngResolver {
        bytes: make_png(4, 2),
    };
    let mut storage = AssetStorage::<ImageAsset>::new();
    let handle = storage.load_from(&resolver, "sprite.png", &ImageLoader);
    assert_eq!(storage.state(handle), Some(LoadState::Loaded));
    let img = storage.get(handle).expect("image present");
    assert_eq!((img.width, img.height), (4, 2));
    assert_eq!(img.pixels.len(), 4 * 2 * 4);

    // Re-loading the same path returns the same handle.
    let again = storage.load_from(&resolver, "sprite.png", &ImageLoader);
    assert!(handle == again);
}

#[test]
fn server_reports_failed_load() {
    let mut storage = AssetStorage::<ImageAsset>::new();
    let handle = storage.load_from(&FailResolver, "missing.png", &ImageLoader);
    assert_eq!(storage.state(handle), Some(LoadState::Failed));
    assert!(storage.get(handle).is_none());
}

#[test]
fn audio_loader_returns_bytes() {
    let raw = vec![1u8, 2, 3, 4, 5, 250];

    // Direct loader use.
    let clip = AudioLoader.load(&raw, "boom.wav").unwrap();
    assert_eq!(clip.bytes, raw);

    // Through storage loading.
    let resolver = PngResolver { bytes: raw.clone() };
    let mut storage = AssetStorage::new();
    let handle = storage.load_from(&resolver, "boom.wav", &AudioLoader);
    assert_eq!(storage.state(handle), Some(LoadState::Loaded));
    assert_eq!(storage.get(handle).unwrap().bytes, raw);

    // Extensions registered.
    assert!(AudioLoader.extensions().contains(&"ogg"));
    assert!(AudioLoader.extensions().contains(&"mp3"));
}
