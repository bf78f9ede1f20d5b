//! Asset packs: manifest entries, how each asset is classified, the
//! compression each class gets, and content hashing.

use vstd::prelude::*;
use crate::text::{
    ascii_lower, chars_of, contains_str, occurs_at, ends_with, lowercased, replace_char, seq_contains,
    seq_ends_with, seq_eq_str, seq_starts_with, slashes_normalized, starts_with,
};
use crate::paths::{extension, extension_of};

verus! {

#[verifier::external_type_specification]
#[verifier::external_body]
pub struct ExIoError(std::io::Error);

pub const PAK_MAGIC: [u8; 8] = [0x54u8, 0x4Fu8, 0x4Bu8, 0x49u8, 0x50u8, 0x41u8, 0x4Bu8, 0x31u8];

pub const PAK_VERSION: u32 = 2;

#[derive(Debug, Clone, Copy, PartialEq, Eq, Structural)]
pub enum PackCompression {
    Store,
    Zstd,
}

#[derive(Debug, Clone, Copy, PartialEq, Eq, Structural)]
pub enum PackAssetType {
    ProjectConfig,
    Scene,
    Entity,
    MapAsset,
    Atlas,
    Image,
    Audio,
    Other,
}

#[derive(Debug, Clone, PartialEq, Eq)]
pub struct PakManifest {
    pub version: u32,
    pub entries: Vec<PakEntry>,
}

#[derive(Debug, Clone, PartialEq, Eq)]
pub struct PakEntry {
    pub path: String,
    pub offset: u64,
    pub size: u64,
    pub stored_size: u64,
    pub compression: PackCompression,
    pub hash: Option<String>,
    pub asset_type: PackAssetType,
}

impl PakEntry {
    /// The number of bytes the entry takes in the pack: its stored size,
    /// or its size when no stored size was recorded.
    pub fn stored_size_or_size(&self) -> (r: u64)
        ensures
            r == (if self.stored_size == 0 { self.size } else { self.stored_size }),
    {
        if self.stored_size == 0 {
            self.size
        } else {
            self.stored_size
        }
    }
}

/// The compression an entry has when its manifest does not say.
pub fn default_pack_compression() -> (r: PackCompression)
    ensures
        r == PackCompression::Store,
{
    PackCompression::Store
}

/// The asset type an entry has when its manifest does not say.
pub fn default_pack_asset_type() -> (r: PackAssetType)
    ensures
        r == PackAssetType::Other,
{
    PackAssetType::Other
}

// ---------------------------------------------------------------------------
// Compression
// ---------------------------------------------------------------------------

/// The zstd frame that `zstd::stream::encode_all` makes of `bytes` at
/// compression `level`.
pub uninterp spec fn zstd_frame(bytes: Seq<u8>, level: i32) -> Seq<u8>;

/// What `zstd::stream::copy_decode` writes when it decodes `bytes`.
pub uninterp spec fn zstd_decoded(bytes: Seq<u8>) -> Seq<u8>;

/// Compresses `bytes` with `zstd::stream::encode_all` at `level`. The
/// frame is only named here. Reading from an in-memory cursor and writing
/// into a vector cannot fail, and zstd accepts every level from 1 to 22, so
/// encoding succeeds at those levels (running out of memory aborts instead
/// of returning an error).
#[verifier::external_body]
fn zstd_encode(bytes: &[u8], level: i32) -> (r: Result<Vec<u8>, std::io::Error>)
    ensures
        r matches Ok(v) ==> v@ == zstd_frame(bytes@, level),
        1 <= level <= 22 ==> r is Ok,
{
    zstd::stream::encode_all(std::io::Cursor::new(bytes), level)
}

/// Decodes `bytes` with `zstd::stream::copy_decode` into a new vector.
/// zstd is lossless: a frame that `encode_all` made decodes to the bytes it
/// was made from. Which other inputs decode, and to what, is only named.
#[verifier::external_body]
fn zstd_decode(bytes: &[u8]) -> (r: Result<Vec<u8>, std::io::Error>)
    ensures
        r matches Ok(v) ==> v@ == zstd_decoded(bytes@),
        r is Ok || !(exists|x: Seq<u8>, level: i32| #[trigger] zstd_frame(x, level) == bytes@),
        r matches Ok(v) ==> (forall|x: Seq<u8>, level: i32| #[trigger] zstd_frame(x, level) == bytes@ ==> v@ == x),
{
    let mut cursor = std::io::Cursor::new(bytes);
    let mut decoded = Vec::new();
    zstd::stream::copy_decode(&mut cursor, &mut decoded)?;
    Ok(decoded)
}

/// The bytes an asset is stored as under a compression.
pub open spec fn compressed_form(compression: PackCompression, bytes: Seq<u8>) -> Seq<u8> {
    match compression {
        PackCompression::Store => bytes,
        PackCompression::Zstd => zstd_frame(bytes, 3),
    }
}

fn copy_bytes(bytes: &[u8]) -> (r: Vec<u8>)
    ensures
        r@ == bytes@,
{
    let mut r: Vec<u8> = Vec::new();
    let mut i: usize = 0;
    while i < bytes.len()
        invariant
            i <= bytes@.len(),
            r@ =~= bytes@.subrange(0, i as int),
        decreases bytes.len() - i,
    {
        r.push(bytes[i]);
        i = i + 1;
    }
    r
}

impl PackCompression {
    /// The bytes stored for an asset: as they are, or zstd-compressed at
    /// level 3.
    pub fn compress(self, bytes: &[u8]) -> (r: Result<Vec<u8>, std::io::Error>)
        ensures
            r matches Ok(v) && v@ == compressed_form(self, bytes@),
    {
        match self {
            PackCompression::Store => Ok(copy_bytes(bytes)),
            PackCompression::Zstd => zstd_encode(bytes, 3),
        }
    }

    /// The asset bytes back from what was stored. Whatever `compress` made
    /// of some bytes comes back as those bytes.
    pub fn decompress(self, bytes: &[u8]) -> (r: Result<Vec<u8>, std::io::Error>)
        ensures
            self == PackCompression::Store ==> (r matches Ok(v) && v@ == bytes@),
            self == PackCompression::Zstd ==> (r matches Ok(v) ==> v@ == zstd_decoded(bytes@)),
            forall|x: Seq<u8>| #[trigger] compressed_form(self, x) == bytes@ ==> (r matches Ok(v) && v@ == x),
    {
        match self {
            PackCompression::Store => Ok(copy_bytes(bytes)),
            PackCompression::Zstd => {
                let r = zstd_decode(bytes);
                assert forall|x: Seq<u8>| #[trigger] compressed_form(self, x) == bytes@ implies (r matches Ok(v) && v@ == x) by {
                    assert(zstd_frame(x, 3) == bytes@);
                }
                r
            },
        }
    }
}

/// Whatever is stored under a compression is read back as it was written.
pub proof fn law_stored_bytes_read_back(compression: PackCompression, bytes: Seq<u8>)
    ensures
        compression == PackCompression::Store ==> compressed_form(compression, bytes) == bytes,
{
}

// ---------------------------------------------------------------------------
// Hashing
// ---------------------------------------------------------------------------

/// The lowercase hexadecimal BLAKE3 digest of `bytes`.
pub uninterp spec fn blake3_hex(bytes: Seq<u8>) -> Seq<char>;

pub open spec fn is_lower_hex_digit(c: char) -> bool {
    (48 <= (c as u32) <= 57) || (97 <= (c as u32) <= 102)
}

/// Hashes `bytes` with `blake3::hash` and writes the 32-byte digest with
/// `Hash::to_hex`, which gives 64 lowercase hexadecimal digits.
#[verifier::external_body]
fn blake3_hash_hex(bytes: &[u8]) -> (r: String)
    ensures
        r@ == blake3_hex(bytes@),
        r@.len() == 64,
        forall|i: int| 0 <= i < r@.len() ==> #[trigger] is_lower_hex_digit(r@[i]),
{
    blake3::hash(bytes).to_hex().to_string()
}

/// The content hash of an asset: its BLAKE3 digest in lowercase hex.
pub fn hash_bytes(bytes: &[u8]) -> (r: String)
    ensures
        r@ == blake3_hex(bytes@),
        r@.len() == 64,
        forall|i: int| 0 <= i < r@.len() ==> #[trigger] is_lower_hex_digit(r@[i]),
{
    blake3_hash_hex(bytes)
}

// ---------------------------------------------------------------------------
// Classification
// ---------------------------------------------------------------------------

pub open spec fn is_image_extension(e: Seq<char>) -> bool {
    e == "png"@ || e == "jpg"@ || e == "jpeg"@ || e == "webp"@ || e == "gif"@ || e == "bmp"@
}

pub open spec fn is_audio_extension(e: Seq<char>) -> bool {
    e == "ogg"@ || e == "mp3"@ || e == "flac"@ || e == "wav"@
}

pub open spec fn is_text_extension(e: Seq<char>) -> bool {
    e == "json"@ || e == "toml"@ || e == "txt"@ || e == "ron"@ || e == "yaml"@ || e == "yml"@
}

/// The asset type of a path inside a project: by the directory it sits in
/// (with backslashes read as slashes), then by its lowercase extension.
pub open spec fn asset_type_of(path: Seq<char>) -> PackAssetType {
    let n = replace_char(path, '\\', '/');
    if n == "project.toml"@ {
        PackAssetType::ProjectConfig
    } else if starts_with(n, "scenes/"@) {
        PackAssetType::Scene
    } else if starts_with(n, "entities/"@) {
        PackAssetType::Entity
    } else if starts_with(n, "maps/"@) {
        PackAssetType::MapAsset
    } else if ends_with(n, ".atlas.json"@) || contains_str(n, "/atlases/"@) {
        PackAssetType::Atlas
    } else {
        match extension(path) {
            Some(e) => if is_image_extension(ascii_lower(e)) {
                PackAssetType::Image
            } else if is_audio_extension(ascii_lower(e)) {
                PackAssetType::Audio
            } else {
                PackAssetType::Other
            },
            None => PackAssetType::Other,
        }
    }
}

/// A path that is not the project file and does not sit under `scenes/`,
/// `entities/` or `maps/` (backslashes read as slashes) is an atlas when
/// it ends in `.atlas.json` or passes through an `atlases` folder, whatever
/// its extension says; and an atlas is packed zstd-compressed.
pub proof fn law_atlas_paths_are_atlases(path: Seq<char>)
    requires
        ({
            let n = path.map_values(|c: char| if c == '\\' { '/' } else { c });
            &&& n != "project.toml"@
            &&& !(n.len() >= 7 && n.subrange(0, 7) == "scenes/"@)
            &&& !(n.len() >= 9 && n.subrange(0, 9) == "entities/"@)
            &&& !(n.len() >= 5 && n.subrange(0, 5) == "maps/"@)
            &&& ((n.len() >= 11 && n.subrange(n.len() - 11, n.len() as int) == ".atlas.json"@)
                || exists|i: int| 0 <= i && i + 9 <= n.len() && #[trigger] n.subrange(i, i + 9) == "/atlases/"@)
        }),
    ensures
        asset_type_of(path) == PackAssetType::Atlas,
        compression_for(path, asset_type_of(path)) == PackCompression::Zstd,
{
    let n = path.map_values(|c: char| if c == '\\' { '/' } else { c });
    assert(n == replace_char(path, '\\', '/'));
    reveal_strlit("scenes/");
    reveal_strlit("entities/");
    reveal_strlit("maps/");
    reveal_strlit(".atlas.json");
    reveal_strlit("/atlases/");
    if exists|i: int| 0 <= i && i + 9 <= n.len() && #[trigger] n.subrange(i, i + 9) == "/atlases/"@ {
        let i = choose|i: int| 0 <= i && i + 9 <= n.len() && #[trigger] n.subrange(i, i + 9) == "/atlases/"@;
        assert(occurs_at(n, "/atlases/"@, i));
    }
}

/// The compression an asset gets: images and audio are already compressed
/// and are stored; project data is zstd-compressed; other files only when
/// they are text.
pub open spec fn compression_for(path: Seq<char>, asset_type: PackAssetType) -> PackCompression {
    match asset_type {
        PackAssetType::Image | PackAssetType::Audio => PackCompression::Store,
        PackAssetType::Other => match extension(path) {
            Some(e) => if is_text_extension(ascii_lower(e)) { PackCompression::Zstd } else { PackCompression::Store },
            None => PackCompression::Store,
        },
        _ => PackCompression::Zstd,
    }
}

fn is_image_ext(e: &Vec<char>) -> (r: bool)
    ensures
        r == is_image_extension(e@),
{
    seq_eq_str(e, "png") || seq_eq_str(e, "jpg") || seq_eq_str(e, "jpeg") || seq_eq_str(e, "webp")
        || seq_eq_str(e, "gif") || seq_eq_str(e, "bmp")
}

fn is_audio_ext(e: &Vec<char>) -> (r: bool)
    ensures
        r == is_audio_extension(e@),
{
    seq_eq_str(e, "ogg") || seq_eq_str(e, "mp3") || seq_eq_str(e, "flac") || seq_eq_str(e, "wav")
}

fn is_text_ext(e: &Vec<char>) -> (r: bool)
    ensures
        r == is_text_extension(e@),
{
    seq_eq_str(e, "json") || seq_eq_str(e, "toml") || seq_eq_str(e, "txt") || seq_eq_str(e, "ron")
        || seq_eq_str(e, "yaml") || seq_eq_str(e, "yml")
}

/// The asset type of a path inside a project.
pub fn infer_pack_asset_type(path: &str) -> (r: PackAssetType)
    ensures
        r == asset_type_of(path@),
{
    let raw = chars_of(path);
    let n = slashes_normalized(&raw);
    if seq_eq_str(&n, "project.toml") {
        return PackAssetType::ProjectConfig;
    }
    if seq_starts_with(&n, "scenes/") {
        return PackAssetType::Scene;
    }
    if seq_starts_with(&n, "entities/") {
        return PackAssetType::Entity;
    }
    if seq_starts_with(&n, "maps/") {
        return PackAssetType::MapAsset;
    }
    if seq_ends_with(&n, ".atlas.json") || seq_contains(&n, "/atlases/") {
        return PackAssetType::Atlas;
    }
    match extension_of(&raw) {
        Some(e) => {
            let l = lowercased(&e);
            if is_image_ext(&l) {
                PackAssetType::Image
            } else if is_audio_ext(&l) {
                PackAssetType::Audio
            } else {
                PackAssetType::Other
            }
        },
        None => PackAssetType::Other,
    }
}

/// The compression an asset of `asset_type` at `path` is packed with.
pub fn recommended_pack_compression(path: &str, asset_type: PackAssetType) -> (r: PackCompression)
    ensures
        r == compression_for(path@, asset_type),
{
    match asset_type {
        PackAssetType::Image | PackAssetType::Audio => PackCompression::Store,
        PackAssetType::Other => {
            let raw = chars_of(path);
            match extension_of(&raw) {
                Some(e) => {
                    let l = lowercased(&e);
                    if is_text_ext(&l) {
                        PackCompression::Zstd
                    } else {
                        PackCompression::Store
                    }
                },
                None => PackCompression::Store,
            }
        },
        _ => PackCompression::Zstd,
    }
}

/// Media that is compressed already is stored as it is; everything the
/// project defines is compressed.
pub proof fn law_media_stored_project_data_compressed(path: Seq<char>)
    ensures
        asset_type_of(path) == PackAssetType::Image || asset_type_of(path) == PackAssetType::Audio
            ==> compression_for(path, asset_type_of(path)) == PackCompression::Store,
        asset_type_of(path) == PackAssetType::Scene || asset_type_of(path) == PackAssetType::Entity
            || asset_type_of(path) == PackAssetType::MapAsset || asset_type_of(path) == PackAssetType::Atlas
            || asset_type_of(path) == PackAssetType::ProjectConfig
            ==> compression_for(path, asset_type_of(path)) == PackCompression::Zstd,
{
}

} // verus!
