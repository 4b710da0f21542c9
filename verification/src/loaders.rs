//! Built-in loaders: images decoded by the `image` crate, and audio clips kept
//! as their encoded bytes.
use crate::error::KaadanError;
use crate::loader::AssetLoader;
use vstd::prelude::*;

verus! {

/// A decoded image in RGBA8, ready for GPU upload.
pub struct ImageAsset {
    pub pixels: Vec<u8>,
    pub width: u32,
    pub height: u32,
}

/// Decodes `bytes` with `image::load_from_memory` and converts the picture to
/// RGBA8 (`to_rgba8`, then the buffer's `width`, `height` and `into_raw`); on
/// failure, the error's `to_string`. Which outcome comes is not claimed: the
/// crate picks the format through hooks that any code in the process may
/// register, so the same bytes need not decode alike every time. What holds of
/// every picture is claimed: an RGBA8 buffer holds at least four bytes per
/// pixel (every `ImageBuffer` constructor checks its length against its size).
#[verifier::external_body]
fn decode_rgba8(bytes: &[u8]) -> (r: Result<(Vec<u8>, u32, u32), String>)
    ensures
        r matches Ok((pixels, w, h)) ==> pixels@.len() >= 4 * w * h,
{
    match image::load_from_memory(bytes) {
        Ok(img) => {
            let rgba = img.to_rgba8();
            let (w, h) = (rgba.width(), rgba.height());
            Ok((rgba.into_raw(), w, h))
        },
        Err(e) => Err(e.to_string()),
    }
}

/// The loader's result for a decoding outcome: the image, or an `AssetLoad`
/// error naming `path` with the decoder's message as the reason.
pub fn image_asset_from_decoding(decoded: Result<(Vec<u8>, u32, u32), String>, path: &str) -> (r:
    Result<ImageAsset, KaadanError>)
    ensures
        match decoded {
            Ok((pixels, w, h)) => r matches Ok(img) && img.pixels@ == pixels@ && img.width == w
                && img.height == h,
            Err(msg) => r matches Err(KaadanError::AssetLoad { path: p, reason }) && p@ == path@
                && reason@ == msg@,
        },
{
    match decoded {
        Ok((pixels, width, height)) => Ok(ImageAsset { pixels, width, height }),
        Err(reason) => Err(KaadanError::AssetLoad { path: path.to_owned(), reason }),
    }
}

/// Loads PNG/JPEG bytes into an `ImageAsset` via the `image` crate.
pub struct ImageLoader;

impl AssetLoader for ImageLoader {
    type Output = ImageAsset;

    /// A decoded image holds four bytes for each of its pixels, and any
    /// decoding error comes back as an `AssetLoad` error naming the path.
    open spec fn loads(&self, bytes: Seq<u8>, path: Seq<char>, result: Result<ImageAsset, KaadanError>) -> bool {
        &&& result matches Ok(img) ==> img.pixels@.len() >= 4 * img.width * img.height
        &&& result is Err ==> (result matches Err(KaadanError::AssetLoad { path: p, reason: _ }) && p@ == path)
    }

    /// The decoder's outcome goes through `image_asset_from_decoding`: a
    /// decoded picture becomes the image, with four bytes per pixel, and a
    /// decoding error an `AssetLoad` error naming `path`.
    fn load(&self, bytes: &[u8], path: &str) -> (r: Result<ImageAsset, KaadanError>)
        ensures
            r matches Ok(img) ==> img.pixels@.len() >= 4 * img.width * img.height,
            r is Err ==> (r matches Err(KaadanError::AssetLoad { path: p, reason: _ }) && p@ == path@),
    {
        image_asset_from_decoding(decode_rgba8(bytes), path)
    }

    fn extensions(&self) -> (e: &[&str])
        ensures
            e@.map_values(|s: &str| s@) == seq!["png"@, "jpg"@, "jpeg"@],
    {
        let e: &[&str] = &["png", "jpg", "jpeg"];
        proof {
            assert(e@.map_values(|s: &str| s@) =~= seq!["png"@, "jpg"@, "jpeg"@]);
        }
        e
    }
}

/// An audio clip holding raw, still-encoded bytes (WAV/OGG/MP3/FLAC).
pub struct AudioClip {
    pub bytes: Vec<u8>,
}

/// Loads audio files by storing their raw encoded bytes verbatim.
pub struct AudioLoader;

impl AssetLoader for AudioLoader {
    type Output = AudioClip;

    /// The clip is the encoded bytes themselves.
    open spec fn loads(&self, bytes: Seq<u8>, path: Seq<char>, result: Result<AudioClip, KaadanError>) -> bool {
        result matches Ok(clip) && clip.bytes@ == bytes
    }

    fn load(&self, bytes: &[u8], _path: &str) -> (r: Result<AudioClip, KaadanError>)
        ensures
            r matches Ok(clip) && clip.bytes@ == bytes@,
    {
        Ok(AudioClip { bytes: vstd::slice::slice_to_vec(bytes) })
    }

    fn extensions(&self) -> (e: &[&str])
        ensures
            e@.map_values(|s: &str| s@) == seq!["wav"@, "ogg"@, "mp3"@, "flac"@],
    {
        let e: &[&str] = &["wav", "ogg", "mp3", "flac"];
        proof {
            assert(e@.map_values(|s: &str| s@) =~= seq!["wav"@, "ogg"@, "mp3"@, "flac"@]);
        }
        e
    }
}

} // verus!
