//! A size-bounded image cache that evicts the least recently used images.

use crate::image_cache::copy_bytes;
use crate::text::texts;
use vstd::hash_map::StringHashMap;
use vstd::prelude::*;

verus! {

broadcast use vstd::string::group_string_axioms;

/// The size in bytes above which the cache evicts: 100 MiB.
pub const MAX_CACHE_SIZE: usize = 104_857_600;

/// The edge length in pixels that thumbnails fit into.
pub const THUMBNAIL_SIZE: u32 = 256;

/// The image formats that are told apart.
#[derive(Clone, Copy, Debug, PartialEq, Eq, Structural)]
pub enum ImageFormat {
    Png,
    Jpeg,
    WebP,
    Unknown,
}

/// The format that the first twelve bytes announce.
pub open spec fn format_of(data: Seq<u8>) -> ImageFormat {
    if data.len() < 12 {
        ImageFormat::Unknown
    } else if data[0] == 0x89 && data[1] == 0x50 && data[2] == 0x4E && data[3] == 0x47 {
        ImageFormat::Png
    } else if data[0] == 0xFF && data[1] == 0xD8 && data[2] == 0xFF {
        ImageFormat::Jpeg
    } else if data[0] == 0x52 && data[1] == 0x49 && data[2] == 0x46 && data[3] == 0x46 && data[8]
        == 0x57 && data[9] == 0x45 && data[10] == 0x42 && data[11] == 0x50 {
        ImageFormat::WebP
    } else {
        ImageFormat::Unknown
    }
}

impl ImageFormat {
    /// The media type of the format.
    pub open spec fn spec_mime_type(self) -> Seq<char> {
        match self {
            ImageFormat::Png => "image/png"@,
            ImageFormat::Jpeg => "image/jpeg"@,
            ImageFormat::WebP => "image/webp"@,
            ImageFormat::Unknown => "application/octet-stream"@,
        }
    }

    /// Tells the format from the magic bytes; data shorter than twelve bytes
    /// is of unknown format.
    pub fn from_bytes(data: &[u8]) -> (f: ImageFormat)
        ensures
            f == format_of(data@),
    {
        if data.len() < 12 {
            return ImageFormat::Unknown;
        }
        if data[0] == 0x89 && data[1] == 0x50 && data[2] == 0x4E && data[3] == 0x47 {
            return ImageFormat::Png;
        }
        if data[0] == 0xFF && data[1] == 0xD8 && data[2] == 0xFF {
            return ImageFormat::Jpeg;
        }
        if data[0] == 0x52 && data[1] == 0x49 && data[2] == 0x46 && data[3] == 0x46 && data[8]
            == 0x57 && data[9] == 0x45 && data[10] == 0x42 && data[11] == 0x50 {
            return ImageFormat::WebP;
        }
        ImageFormat::Unknown
    }

    /// The media type of the format.
    pub fn mime_type(self) -> (s: &'static str)
        ensures
            s@ == self.spec_mime_type(),
    {
        match self {
            ImageFormat::Png => "image/png",
            ImageFormat::Jpeg => "image/jpeg",
            ImageFormat::WebP => "image/webp",
            ImageFormat::Unknown => "application/octet-stream",
        }
    }
}

/// What can go wrong with an image.
#[derive(Debug)]
pub enum ImageError {
    NotFound(String),
    StreamFailed(String),
    InvalidData,
    IoError(String),
    InvalidDataUrl,
    CacheSizeExceeded,
    ThumbnailFailed,
}

impl ImageError {
    /// The message of the error.
    pub open spec fn spec_message(self) -> Seq<char> {
        match self {
            ImageError::NotFound(id) => "Image not found: "@ + id@,
            ImageError::StreamFailed(why) => "Failed to stream image: "@ + why@,
            ImageError::InvalidData => "Invalid image data"@,
            ImageError::IoError(why) => "IO error: "@ + why@,
            ImageError::InvalidDataUrl => "Invalid data URL format"@,
            ImageError::CacheSizeExceeded => "Cache size exceeded"@,
            ImageError::ThumbnailFailed => "Thumbnail generation failed"@,
        }
    }

    /// The message of the error.
    pub fn to_string(&self) -> (s: String)
        ensures
            s@ == self.spec_message(),
    {
        match self {
            ImageError::NotFound(id) => {
                let mut s = "Image not found: ".to_string();
                s.append(id.as_str());
                s
            },
            ImageError::StreamFailed(why) => {
                let mut s = "Failed to stream image: ".to_string();
                s.append(why.as_str());
                s
            },
            ImageError::InvalidData => "Invalid image data".to_string(),
            ImageError::IoError(why) => {
                let mut s = "IO error: ".to_string();
                s.append(why.as_str());
                s
            },
            ImageError::InvalidDataUrl => "Invalid data URL format".to_string(),
            ImageError::CacheSizeExceeded => "Cache size exceeded".to_string(),
            ImageError::ThumbnailFailed => "Thumbnail generation failed".to_string(),
        }
    }
}

/// The pixel size that `image::load_from_memory` finds in encoded image data,
/// or nothing where it cannot decode the data.
pub uninterp spec fn decoded_dimensions(data: Seq<u8>) -> Option<(u32, u32)>;

/// The PNG bytes of the thumbnail that the `image` crate makes of encoded
/// image data within a square of `size` pixels, or nothing where it cannot
/// decode or encode.
pub uninterp spec fn thumbnail_of(data: Seq<u8>, size: u32) -> Option<Seq<u8>>;

/// The greatest side of a thumbnail that is asked of the `image` crate: a
/// small image is scaled up to the square, and the pixels of its thumbnail
/// must be few enough to be held.
pub const MAX_THUMBNAIL_SIDE: u32 = 4096;

/// `image::load_from_memory`, then `width` and `height` of the decoded image:
/// the outcome depends on the bytes alone.
#[verifier::external_body]
pub(crate) fn decode_dimensions(data: &[u8]) -> (r: Option<(u32, u32)>)
    ensures
        r == decoded_dimensions(data@),
{
    match image::load_from_memory(data) {
        Ok(img) => Some((img.width(), img.height())),
        Err(_) => None,
    }
}

/// `image::load_from_memory`, `DynamicImage::thumbnail` within a square of
/// `size` pixels and `DynamicImage::write_to` as PNG: the outcome depends on
/// the bytes and the size alone. Sizes above `MAX_THUMBNAIL_SIDE` are left
/// out.
#[verifier::external_body]
pub(crate) fn generate_thumbnail(data: &[u8], size: u32) -> (r: Option<Vec<u8>>)
    requires
        size <= MAX_THUMBNAIL_SIDE,
    ensures
        match r {
            Some(t) => thumbnail_of(data@, size) == Some(t@),
            None => thumbnail_of(data@, size) is None,
        },
{
    let img = image::load_from_memory(data).ok()?;
    let thumbnail = img.thumbnail(size, size);
    let mut buffer = std::io::Cursor::new(Vec::new());
    thumbnail.write_to(&mut buffer, image::ImageFormat::Png).ok()?;
    Some(buffer.into_inner())
}

/// The bytes that the `base64` crate's `STANDARD` engine decodes a text to,
/// or nothing where it rejects the text.
pub uninterp spec fn base64_decoded(text: Seq<char>) -> Option<Seq<u8>>;

/// `Engine::decode` of `STANDARD`: the outcome depends on the text alone.
#[verifier::external_body]
pub(crate) fn decode_standard(text: &str) -> (r: Result<Vec<u8>, base64::DecodeError>)
    ensures
        match r {
            Ok(v) => base64_decoded(text@) == Some(v@),
            Err(_) => base64_decoded(text@) is None,
        },
{
    base64::Engine::decode(&base64::engine::general_purpose::STANDARD, text)
}

/// What follows the first comma of a data URL, if it has a comma.
pub open spec fn data_url_payload(data_url: Seq<char>) -> Option<Seq<char>> {
    if crate::text::occurs(data_url, ',') {
        Some(data_url.skip(crate::text::first_index(data_url, ',') + 1))
    } else {
        None
    }
}

/// The bytes that a data URL carries: the base64 decoding of what follows
/// its first comma.
pub open spec fn data_url_bytes(data_url: Seq<char>) -> Option<Seq<u8>> {
    match data_url_payload(data_url) {
        Some(payload) => base64_decoded(payload),
        None => None,
    }
}

/// Reads the bytes out of a data URL like `data:image/png;base64,...`. A
/// URL without a comma is of the wrong format; a payload that is no base64
/// is reported with the reason.
pub fn decode_data_url(data_url: &str) -> (r: Result<Vec<u8>, String>)
    ensures
        match r {
            Ok(bytes) => data_url_bytes(data_url@) == Some(bytes@),
            Err(_) => data_url_bytes(data_url@) is None,
        },
        data_url_payload(data_url@) is None ==> (r matches Err(msg) && msg@
            == "Invalid data URL format"@),
{
    let chars = crate::text::to_chars(data_url);
    let at = match crate::text::find_char(&chars, ',') {
        Some(at) => at,
        None => {
            return Err("Invalid data URL format".to_string());
        },
    };
    assert(at < chars.len());
    let rest = crate::text::chars_from(&chars, at + 1);
    let payload = crate::text::from_chars(&rest, 0, rest.len());
    assert(rest@.subrange(0, rest.len() as int) =~= rest@);
    match decode_standard(payload.as_str()) {
        Ok(bytes) => Ok(bytes),
        Err(e) => {
            let mut msg = "Failed to decode base64: ".to_string();
            msg.append(crate::live_sync::permission::decode_error_text(&e).as_str());
            Err(msg)
        },
    }
}

/// The big-endian number in the two bytes at `i`.
pub open spec fn be16(data: Seq<u8>, i: int) -> u32 {
    (data[i] as u32 * 256 + data[i + 1] as u32) as u32
}

/// The big-endian number in the four bytes at `i`.
pub open spec fn be32(data: Seq<u8>, i: int) -> u32 {
    (data[i] as u32 * 16_777_216 + data[i + 1] as u32 * 65_536 + data[i + 2] as u32 * 256 + data[i
        + 3] as u32) as u32
}

/// The pixel size in the first start-of-frame segment (SOF0 to SOF2) that a
/// walk over the JPEG segments from byte `i` comes to, as `(width, height)`.
pub open spec fn jpeg_dimensions(data: Seq<u8>, i: int) -> Option<(u32, u32)>
    decreases
        if i < data.len() {
            data.len() - i
        } else {
            0
        },
{
    if i < 0 || i + 9 >= data.len() {
        None
    } else if data[i] == 0xFF {
        let marker = data[i + 1];
        if 0xC0 <= marker <= 0xC2 {
            Some((be16(data, i + 7), be16(data, i + 5)))
        } else if marker != 0x00 && marker != 0xFF {
            jpeg_dimensions(data, i + 2 + be16(data, i + 2))
        } else {
            jpeg_dimensions(data, i + 1)
        }
    } else {
        jpeg_dimensions(data, i + 1)
    }
}

/// The pixel size read from the header of the data itself: the IHDR fields of
/// a PNG of at least 24 bytes, the first start-of-frame segment of a JPEG.
pub open spec fn header_dimensions(data: Seq<u8>) -> Option<(u32, u32)> {
    match format_of(data) {
        ImageFormat::Png => if data.len() >= 24 {
            Some((be32(data, 16), be32(data, 20)))
        } else {
            None
        },
        ImageFormat::Jpeg => jpeg_dimensions(data, 2),
        _ => None,
    }
}

/// The pixel size of encoded image data: from its header where that gives
/// one, else from decoding it.
pub open spec fn dimensions_of(data: Seq<u8>) -> Option<(u32, u32)> {
    match header_dimensions(data) {
        Some(d) => Some(d),
        None => decoded_dimensions(data),
    }
}

fn read_be16(data: &[u8], i: usize) -> (v: u32)
    requires
        i + 1 < data.len(),
    ensures
        v == be16(data@, i as int),
{
    (data[i] as u32) * 256 + (data[i + 1] as u32)
}

fn read_be32(data: &[u8], i: usize) -> (v: u32)
    requires
        i + 3 < data.len(),
    ensures
        v == be32(data@, i as int),
{
    (data[i] as u32) * 16_777_216 + (data[i + 1] as u32) * 65_536 + (data[i + 2] as u32) * 256 + (
    data[i + 3] as u32)
}

fn scan_jpeg(data: &[u8]) -> (r: Option<(u32, u32)>)
    requires
        data.len() >= 12,
    ensures
        r == jpeg_dimensions(data@, 2),
{
    let mut i: usize = 2;
    while i < data.len() - 9
        invariant
            2 <= i,
            data.len() >= 12,
            jpeg_dimensions(data@, 2) == jpeg_dimensions(data@, i as int),
        decreases data.len() - i,
    {
        if data[i] == 0xFF {
            let marker = data[i + 1];
            if marker >= 0xC0 && marker <= 0xC2 {
                let height = read_be16(data, i + 5);
                let width = read_be16(data, i + 7);
                return Some((width, height));
            }
            if marker != 0x00 && marker != 0xFF {
                let len: usize = read_be16(data, i + 2) as usize;
                if len > data.len() - i - 2 {
                    assert(jpeg_dimensions(data@, i + 2 + len) is None);
                    return None;
                }
                i = i + 2 + len;
                continue ;
            }
        }
        i += 1;
    }
    None
}

/// Finds the pixel size of encoded image data.
pub fn detect_image_dimensions(data: &[u8]) -> (r: Option<(u32, u32)>)
    ensures
        r == dimensions_of(data@),
{
    let format = ImageFormat::from_bytes(data);
    match format {
        ImageFormat::Png => {
            if data.len() >= 24 {
                let width = read_be32(data, 16);
                let height = read_be32(data, 20);
                return Some((width, height));
            }
        },
        ImageFormat::Jpeg => {
            match scan_jpeg(data) {
                Some(d) => {
                    return Some(d);
                },
                None => {},
            }
        },
        _ => {},
    }
    decode_dimensions(data)
}

/// A cached image.
#[derive(Debug)]
pub struct ImageEntry {
    pub data: Vec<u8>,
    pub width: u32,
    pub height: u32,
    pub format: ImageFormat,
    pub thumbnail: Option<Vec<u8>>,
}

/// The mathematical content of an [`ImageEntry`].
pub struct EntryModel {
    pub data: Seq<u8>,
    pub width: u32,
    pub height: u32,
    pub format: ImageFormat,
    pub thumbnail: Option<Seq<u8>>,
}

impl EntryModel {
    /// The bytes that the entry holds: data and thumbnail.
    pub open spec fn size(self) -> nat {
        self.data.len() + match self.thumbnail {
            Some(t) => t.len(),
            None => 0,
        }
    }
}

impl View for ImageEntry {
    type V = EntryModel;

    open spec fn view(&self) -> EntryModel {
        EntryModel {
            data: self.data@,
            width: self.width,
            height: self.height,
            format: self.format,
            thumbnail: match self.thumbnail {
                Some(t) => Some(t@),
                None => None,
            },
        }
    }
}

impl ImageEntry {
    /// An entry without a thumbnail.
    pub fn new(data: Vec<u8>, width: u32, height: u32, format: ImageFormat) -> (e: ImageEntry)
        ensures
            e@ == (EntryModel { data: data@, width, height, format, thumbnail: None }),
    {
        ImageEntry { data, width, height, format, thumbnail: None }
    }

    /// The bytes that the entry holds: data and thumbnail.
    pub fn size(&self) -> (n: usize)
        requires
            self@.size() <= usize::MAX,
        ensures
            n == self@.size(),
    {
        self.data.len() + match &self.thumbnail {
            Some(t) => t.len(),
            None => 0,
        }
    }
}

/// The pairs of identifier and entry that `cache` holds under the identifiers
/// of `ids`, in their order.
pub open spec fn listed(ids: Seq<Seq<char>>, cache: Map<Seq<char>, ImageEntry>) -> Seq<
    (Seq<char>, EntryModel),
> {
    Seq::new(ids.len(), |i: int| (ids[i], cache[ids[i]]@))
}

/// Whether an image with the identifier `id` is among `slots`.
pub open spec fn has_id(slots: Seq<(Seq<char>, EntryModel)>, id: Seq<char>) -> bool {
    exists|i: int| 0 <= i < slots.len() && (#[trigger] slots[i]).0 == id
}

/// A position at which `id` stands in `slots`, where it stands in it.
pub open spec fn position(slots: Seq<(Seq<char>, EntryModel)>, id: Seq<char>) -> int {
    choose|i: int| 0 <= i < slots.len() && (#[trigger] slots[i]).0 == id
}

/// The entry under `id`, if there is one.
pub open spec fn lookup(slots: Seq<(Seq<char>, EntryModel)>, id: Seq<char>) -> Option<EntryModel> {
    if has_id(slots, id) {
        Some(slots[position(slots, id)].1)
    } else {
        None
    }
}

/// No identifier stands twice in `slots`.
pub open spec fn unique(slots: Seq<(Seq<char>, EntryModel)>) -> bool {
    forall|i: int, j: int|
        0 <= i < slots.len() && 0 <= j < slots.len() && i != j ==> (#[trigger] slots[i]).0 != (
        #[trigger] slots[j]).0
}

/// The bytes that all of `slots` hold together.
pub open spec fn sum_sizes(slots: Seq<(Seq<char>, EntryModel)>) -> nat
    decreases slots.len(),
{
    if slots.len() == 0 {
        0
    } else {
        sum_sizes(slots.drop_last()) + slots.last().1.size()
    }
}

/// `slots` without the image under `id`.
pub open spec fn removed(slots: Seq<(Seq<char>, EntryModel)>, id: Seq<char>) -> Seq<
    (Seq<char>, EntryModel),
> {
    if has_id(slots, id) {
        slots.remove(position(slots, id))
    } else {
        slots
    }
}

/// `order` without any occurrence of `id`.
pub open spec fn without(order: Seq<Seq<char>>, id: Seq<char>) -> Seq<Seq<char>>
    decreases order.len(),
{
    if order.len() == 0 {
        order
    } else if order.last() == id {
        without(order.drop_last(), id)
    } else {
        without(order.drop_last(), id).push(order.last())
    }
}

/// The mathematical content of an [`ImageHandler`].
pub struct HandlerModel {
    /// The cached images, oldest insertion first.
    pub slots: Seq<(Seq<char>, EntryModel)>,
    /// The bytes accounted for.
    pub total_size: nat,
    /// The identifiers by time of last use, least recent first.
    pub access_order: Seq<Seq<char>>,
}

impl HandlerModel {
    /// The empty cache.
    pub open spec fn empty() -> HandlerModel {
        HandlerModel { slots: Seq::empty(), total_size: 0, access_order: Seq::empty() }
    }

    /// No identifier is cached twice, the accounted size is the sum of the
    /// entries, and every cached identifier stands in the access order.
    pub open spec fn wf(self) -> bool {
        &&& unique(self.slots)
        &&& self.total_size == sum_sizes(self.slots)
        &&& forall|i: int|
            0 <= i < self.slots.len() ==> self.access_order.contains((#[trigger] self.slots[i]).0)
    }

    /// The cache with `id` marked as just used.
    pub open spec fn touched(self, id: Seq<char>) -> HandlerModel {
        HandlerModel { access_order: without(self.access_order, id).push(id), ..self }
    }

    /// The cache without the image under `id`: it leaves the access order
    /// too, if it was cached.
    pub open spec fn dropped(self, id: Seq<char>) -> HandlerModel {
        if has_id(self.slots, id) {
            HandlerModel {
                slots: removed(self.slots, id),
                total_size: (self.total_size - lookup(self.slots, id).unwrap().size()) as nat,
                access_order: without(self.access_order, id),
            }
        } else {
            self
        }
    }

    /// The cache after evicting in access order, least recent first, until
    /// `needed` more bytes fit under `MAX_CACHE_SIZE` or the access order is
    /// used up.
    pub open spec fn evicted(self, needed: nat) -> HandlerModel
        decreases self.access_order.len(),
    {
        if self.total_size + needed > MAX_CACHE_SIZE && self.access_order.len() > 0 {
            let oldest = self.access_order[0];
            let rest = self.access_order.drop_first();
            let next = if has_id(self.slots, oldest) {
                HandlerModel {
                    slots: removed(self.slots, oldest),
                    total_size: (self.total_size - lookup(self.slots, oldest).unwrap().size()) as nat,
                    access_order: rest,
                }
            } else {
                HandlerModel { access_order: rest, ..self }
            };
            next.evicted(needed)
        } else {
            self
        }
    }

    /// The cache with room made for `needed` more bytes, where they do not
    /// fit as it is.
    pub open spec fn with_room(self, needed: nat) -> HandlerModel {
        if self.total_size + needed > MAX_CACHE_SIZE {
            self.evicted(needed)
        } else {
            self
        }
    }

    /// The cache with `thumbnail` kept for the image under `id`, which is
    /// cached without one; nothing is kept where the accounted size would
    /// leave the range of `usize`.
    pub open spec fn with_thumbnail(self, id: Seq<char>, thumbnail: Seq<u8>) -> HandlerModel {
        if self.total_size + thumbnail.len() <= usize::MAX {
            let at = position(self.slots, id);
            HandlerModel {
                slots: self.slots.update(
                    at,
                    (id, EntryModel { thumbnail: Some(thumbnail), ..self.slots[at].1 }),
                ),
                total_size: self.total_size + thumbnail.len(),
                ..self
            }
        } else {
            self
        }
    }

    /// The cache after `data` was cached under `id` with the given pixel
    /// size: an older image under `id` leaves first, then room is made, then
    /// the image enters as the most recently used.
    pub open spec fn cached(self, id: Seq<char>, entry: EntryModel) -> HandlerModel {
        let b = self.dropped(id).with_room(entry.data.len());
        HandlerModel {
            slots: b.slots.push((id, entry)),
            total_size: b.total_size + entry.data.len(),
            access_order: b.access_order.push(id),
        }
    }
}

/// The entry that caching `data` with the pixel size `(width, height)` makes:
/// a size with a zero in it is replaced by the detected one, or by `(0, 0)`
/// where none is detected.
pub open spec fn entry_for(data: Seq<u8>, width: u32, height: u32) -> EntryModel {
    let dims = if width == 0 || height == 0 {
        match dimensions_of(data) {
            Some(d) => d,
            None => (0u32, 0u32),
        }
    } else {
        (width, height)
    };
    EntryModel { data, width: dims.0, height: dims.1, format: format_of(data), thumbnail: None }
}

/// Removing a slot takes its size off the sum.
pub proof fn lemma_sum_remove(slots: Seq<(Seq<char>, EntryModel)>, i: int)
    requires
        0 <= i < slots.len(),
    ensures
        sum_sizes(slots.remove(i)) + slots[i].1.size() == sum_sizes(slots),
    decreases slots.len(),
{
    if i == slots.len() - 1 {
        assert(slots.remove(i) =~= slots.drop_last());
    } else {
        lemma_sum_remove(slots.drop_last(), i);
        assert(slots.remove(i).drop_last() =~= slots.drop_last().remove(i));
        assert(slots.remove(i).last() == slots.last());
    }
}

/// Appending a slot adds its size to the sum.
pub proof fn lemma_sum_push(slots: Seq<(Seq<char>, EntryModel)>, slot: (Seq<char>, EntryModel))
    ensures
        sum_sizes(slots.push(slot)) == sum_sizes(slots) + slot.1.size(),
{
    assert(slots.push(slot).drop_last() =~= slots);
}

/// Replacing a slot changes the sum by the difference of the sizes.
pub proof fn lemma_sum_update(
    slots: Seq<(Seq<char>, EntryModel)>,
    i: int,
    slot: (Seq<char>, EntryModel),
)
    requires
        0 <= i < slots.len(),
    ensures
        sum_sizes(slots.update(i, slot)) + slots[i].1.size() == sum_sizes(slots) + slot.1.size(),
    decreases slots.len(),
{
    if i == slots.len() - 1 {
        assert(slots.update(i, slot).drop_last() =~= slots.drop_last());
    } else {
        lemma_sum_update(slots.drop_last(), i, slot);
        assert(slots.update(i, slot).drop_last() =~= slots.drop_last().update(i, slot));
        assert(slots.update(i, slot).last() == slots.last());
    }
}


/// What stays in `without(order, id)`: all but `id`.
pub proof fn lemma_without_contains(order: Seq<Seq<char>>, id: Seq<char>, other: Seq<char>)
    ensures
        without(order, id).contains(other) <==> (order.contains(other) && other != id),
    decreases order.len(),
{
    if order.len() > 0 {
        let head = order.drop_last();
        lemma_without_contains(head, id, other);
        if order.contains(other) {
            let k = choose|k: int| 0 <= k < order.len() && order[k] == other;
            if k < order.len() - 1 {
                assert(head[k] == other);
            }
        }
        if head.contains(other) {
            let k = choose|k: int| 0 <= k < head.len() && head[k] == other;
            assert(order[k] == other);
        }
        if order.last() != id {
            let w = without(head, id);
            let full = w.push(order.last());
            if w.contains(other) {
                let k = choose|k: int| 0 <= k < w.len() && w[k] == other;
                assert(full[k] == other);
            }
            if full.contains(other) {
                let k = choose|k: int| 0 <= k < full.len() && full[k] == other;
                if k < w.len() {
                    assert(w[k] == other);
                }
            }
            if other == order.last() {
                assert(full[w.len() as int] == other);
                assert(order[order.len() - 1] == other);
            }
        }
    }
}

/// The cache: images by identifier, their total size, and the order of their
/// last use. Beside the map stands the list of its identifiers in the order
/// in which the images entered, which is the order in which the cache hands
/// them out.
pub struct ImageHandler {
    cache: StringHashMap<ImageEntry>,
    ids: Vec<String>,
    total_size: usize,
    access_order: Vec<String>,
}

impl View for ImageHandler {
    type V = HandlerModel;

    closed spec fn view(&self) -> HandlerModel {
        HandlerModel {
            slots: listed(texts(self.ids@), self.cache@),
            total_size: self.total_size as nat,
            access_order: texts(self.access_order@),
        }
    }
}

impl ImageHandler {
    /// The map holds an entry under the listed identifiers and under no
    /// other.
    pub closed spec fn linked(&self) -> bool {
        self.cache@.dom() == texts(self.ids@).to_set()
    }

    /// The invariant of the cache.
    pub open spec fn wf(&self) -> bool {
        self@.wf() && self.linked()
    }

    /// An empty cache.
    pub fn new() -> (h: ImageHandler)
        ensures
            h.wf(),
            h@ == HandlerModel::empty(),
    {
        let h = ImageHandler {
            cache: StringHashMap::with_capacity(64),
            ids: Vec::with_capacity(64),
            total_size: 0,
            access_order: Vec::with_capacity(64),
        };
        assert(h@.slots =~= Seq::empty());
        assert(h@.access_order =~= Seq::empty());
        assert(h.cache@.dom() =~= texts(h.ids@).to_set());
        h
    }

    /// What the map holds under `id` is what the model holds under it.
    proof fn lemma_entry(&self, id: Seq<char>)
        requires
            self.linked(),
        ensures
            has_id(self@.slots, id) == self.cache@.contains_key(id),
            self.cache@.contains_key(id) ==> lookup(self@.slots, id) == Some(self.cache@[id]@),
    {
        let ids = texts(self.ids@);
        let slots = self@.slots;
        if self.cache@.contains_key(id) {
            assert(ids.to_set().contains(id));
            assert(ids.contains(id));
            let i = choose|i: int| 0 <= i < ids.len() && ids[i] == id;
            assert(slots[i].0 == id);
            assert(has_id(slots, id));
            let p = position(slots, id);
            assert(slots[p].0 == id);
            assert(slots[p].1 == self.cache@[id]@);
        }
        if has_id(slots, id) {
            let p = position(slots, id);
            assert(slots[p].0 == id);
            assert(ids[p] == id);
            assert(ids.contains(id));
            assert(ids.to_set().contains(id));
        }
    }

    /// The map holds as many entries as identifiers are listed.
    proof fn lemma_count(&self)
        requires
            self.linked(),
            unique(self@.slots),
        ensures
            self.cache@.len() == self@.slots.len(),
    {
        let ids = texts(self.ids@);
        assert forall|i: int, j: int| 0 <= i < ids.len() && 0 <= j < ids.len() && i != j implies ids[i]
            != ids[j] by {
            assert(self@.slots[i].0 == ids[i]);
            assert(self@.slots[j].0 == ids[j]);
        }
        ids.unique_seq_to_set();
    }

    /// The position of `id` in the list of identifiers, if it stands there.
    fn find(&self, id: &str) -> (r: Option<usize>)
        ensures
            match r {
                Some(i) => i < self@.slots.len() && self@.slots[i as int].0 == id@ && has_id(
                    self@.slots,
                    id@,
                ),
                None => !has_id(self@.slots, id@),
            },
    {
        let key = id.to_string();
        let mut i: usize = 0;
        while i < self.ids.len()
            invariant
                i <= self.ids.len(),
                key@ == id@,
                forall|k: int| 0 <= k < i ==> (#[trigger] self@.slots[k]).0 != id@,
            decreases self.ids.len() - i,
        {
            if self.ids[i] == key {
                assert(self@.slots[i as int].0 == id@);
                return Some(i);
            }
            i += 1;
        }
        None
    }

    /// The position of the image under `id`, if it is cached.
    fn locate(&self, id: &str) -> (r: Option<usize>)
        requires
            self.linked(),
        ensures
            match r {
                Some(i) => i < self@.slots.len() && self@.slots[i as int].0 == id@ && has_id(
                    self@.slots,
                    id@,
                ),
                None => !has_id(self@.slots, id@),
            },
    {
        proof {
            self.lemma_entry(id@);
        }
        if self.cache.contains_key(id) {
            self.find(id)
        } else {
            None
        }
    }

    /// Under the invariant, the only position of an identifier is the one
    /// that `position` names.
    proof fn lemma_position(self, i: int)
        requires
            unique(self@.slots),
            0 <= i < self@.slots.len(),
        ensures
            has_id(self@.slots, self@.slots[i].0),
            position(self@.slots, self@.slots[i].0) == i,
            lookup(self@.slots, self@.slots[i].0) == Some(self@.slots[i].1),
    {
        let id = self@.slots[i].0;
        assert(has_id(self@.slots, id));
        let p = position(self@.slots, id);
        assert(0 <= p < self@.slots.len() && self@.slots[p].0 == id);
    }

    /// Takes every occurrence of `id` out of the access order.
    fn forget(&mut self, id: &str)
        ensures
            final(self)@.access_order == without(old(self)@.access_order, id@),
            final(self)@.slots == old(self)@.slots,
            final(self)@.total_size == old(self)@.total_size,
            final(self).linked() == old(self).linked(),
    {
        let key = id.to_string();
        let mut kept: Vec<String> = Vec::new();
        let mut i: usize = 0;
        let ghost all = texts(self.access_order@);
        while i < self.access_order.len()
            invariant
                i <= self.access_order.len(),
                key@ == id@,
                all == texts(self.access_order@),
                texts(kept@) == without(all.take(i as int), id@),
            decreases self.access_order.len() - i,
        {
            proof {
                assert(all.take(i + 1).drop_last() =~= all.take(i as int));
                assert(all.take(i + 1).last() == self.access_order@[i as int]@);
            }
            if self.access_order[i] != key {
                let ghost before = texts(kept@);
                kept.push(self.access_order[i].clone());
                assert(texts(kept@) =~= before.push(self.access_order@[i as int]@));
            }
            i += 1;
        }
        assert(all.take(self.access_order.len() as int) =~= all);
        self.access_order = kept;
    }

    /// Marks `id` as just used.
    fn update_access_order(&mut self, id: &str)
        ensures
            final(self)@ == old(self)@.touched(id@),
            old(self).wf() ==> final(self).wf(),
    {
        self.forget(id);
        let ghost mid = texts(self.access_order@);
        self.access_order.push(id.to_string());
        assert(texts(self.access_order@) =~= mid.push(id@));
        proof {
            if old(self).wf() {
                assert forall|i: int| 0 <= i < self@.slots.len() implies self@.access_order.contains(
                    (#[trigger] self@.slots[i]).0,
                ) by {
                    let other = self@.slots[i].0;
                    lemma_without_contains(old(self)@.access_order, id@, other);
                    if other == id@ {
                        assert(self@.access_order[mid.len() as int] == id@);
                    } else {
                        let k = choose|k: int| 0 <= k < mid.len() && mid[k] == other;
                        assert(self@.access_order[k] == other);
                    }
                }
            }
        }
    }

    /// Takes the image at the position `idx` out of the cache and off the
    /// accounted size.
    fn take_slot(&mut self, idx: usize)
        requires
            unique(old(self)@.slots),
            old(self).linked(),
            old(self)@.total_size == sum_sizes(old(self)@.slots),
            idx < old(self)@.slots.len(),
        ensures
            has_id(old(self)@.slots, old(self)@.slots[idx as int].0),
            final(self)@.slots == removed(old(self)@.slots, old(self)@.slots[idx as int].0),
            final(self)@.slots == old(self)@.slots.remove(idx as int),
            final(self)@.total_size == old(self)@.total_size - old(self)@.slots[idx as int].1.size(),
            lookup(old(self)@.slots, old(self)@.slots[idx as int].0) == Some(
                old(self)@.slots[idx as int].1,
            ),
            final(self)@.access_order == old(self)@.access_order,
            unique(final(self)@.slots),
            final(self).linked(),
            final(self)@.total_size == sum_sizes(final(self)@.slots),
            !has_id(final(self)@.slots, old(self)@.slots[idx as int].0),
    {
        let ghost before = self@.slots;
        let ghost names = texts(self.ids@);
        proof {
            self.lemma_position(idx as int);
            self.lemma_entry(before[idx as int].0);
            lemma_sum_remove(before, idx as int);
        }
        let id = self.ids.remove(idx);
        assert(id@ == before[idx as int].0);
        let size = match self.cache.get(id.as_str()) {
            Some(entry) => entry.size(),
            None => 0,
        };
        self.cache.remove(id.as_str());
        self.total_size = self.total_size - size;
        proof {
            let after = self@.slots;
            let rest = texts(self.ids@);
            assert(rest =~= names.remove(idx as int));
            assert forall|i: int| 0 <= i < after.len() implies after[i] == before.remove(
                idx as int,
            )[i] by {
                let oi = if i < idx { i } else { i + 1 };
                assert(rest[i] == names[oi]);
                assert(before[oi].0 != before[idx as int].0);
            }
            assert(after =~= before.remove(idx as int));
            assert forall|i: int, j: int|
                0 <= i < after.len() && 0 <= j < after.len() && i != j implies (
            #[trigger] after[i]).0 != (#[trigger] after[j]).0 by {
                let oi = if i < idx { i } else { i + 1 };
                let oj = if j < idx { j } else { j + 1 };
                assert(after[i] == before[oi]);
                assert(after[j] == before[oj]);
            }
            assert forall|i: int| 0 <= i < after.len() implies (#[trigger] after[i]).0 != id@ by {
                let oi = if i < idx { i } else { i + 1 };
                assert(after[i] == before[oi]);
            }
            assert forall|k: Seq<char>| rest.contains(k) <==> (names.contains(k) && k != id@) by {
                if rest.contains(k) {
                    let i = choose|i: int| 0 <= i < rest.len() && rest[i] == k;
                    let oi = if i < idx { i } else { i + 1 };
                    assert(names[oi] == k);
                    assert(after[i].0 == k);
                }
                if names.contains(k) && k != id@ {
                    let oi = choose|oi: int| 0 <= oi < names.len() && names[oi] == k;
                    assert(oi != idx);
                    let i = if oi < idx { oi } else { oi - 1 };
                    assert(rest[i] == k);
                }
            }
            assert(self.cache@.dom() =~= rest.to_set());
        }
    }

    /// Takes the image under `id` out of the cache, if it is cached.
    fn drop_image(&mut self, id: &str) -> (r: bool)
        requires
            old(self).wf(),
        ensures
            final(self).wf(),
            r == has_id(old(self)@.slots, id@),
            final(self)@ == old(self)@.dropped(id@),
            !has_id(final(self)@.slots, id@),
    {
        match self.locate(id) {
            Some(idx) => {
                self.take_slot(idx);
                let ghost mid = self@;
                self.forget(id);
                proof {
                    assert forall|i: int| 0 <= i < self@.slots.len() implies self@.access_order.contains(
                        (#[trigger] self@.slots[i]).0,
                    ) by {
                        let oi = if i < idx { i } else { i + 1 };
                        assert(self@.slots[i] == old(self)@.slots[oi]);
                        lemma_without_contains(mid.access_order, id@, self@.slots[i].0);
                    }
                }
                true
            },
            None => false,
        }
    }

    /// Evicts least recently used images until `needed_size` more bytes fit
    /// or the access order is used up.
    fn evict_lru(&mut self, needed_size: usize)
        requires
            old(self).wf(),
        ensures
            final(self).wf(),
            final(self)@ == old(self)@.evicted(needed_size as nat),
            final(self)@.total_size + needed_size <= MAX_CACHE_SIZE || final(self)@.slots.len()
                == 0,
            forall|i: int|
                0 <= i < final(self)@.slots.len() ==> has_id(
                    old(self)@.slots,
                    (#[trigger] final(self)@.slots[i]).0,
                ),
    {
        while self.total_size as u128 + needed_size as u128 > MAX_CACHE_SIZE as u128
            && self.access_order.len() > 0
            invariant
                self.wf(),
                self@.evicted(needed_size as nat) == old(self)@.evicted(needed_size as nat),
                forall|i: int|
                    0 <= i < self@.slots.len() ==> has_id(
                        old(self)@.slots,
                        (#[trigger] self@.slots[i]).0,
                    ),
            decreases self.access_order.len(),
        {
            let ghost before = self@;
            let oldest = self.access_order.remove(0);
            assert(texts(self.access_order@) =~= before.access_order.drop_first());
            assert(oldest@ == before.access_order[0]);
            match self.locate(oldest.as_str()) {
                Some(idx) => {
                    self.take_slot(idx);
                    proof {
                        assert forall|i: int| 0 <= i < self@.slots.len() implies self@.access_order.contains(
                            (#[trigger] self@.slots[i]).0,
                        ) && has_id(old(self)@.slots, self@.slots[i].0) by {
                            let other = self@.slots[i].0;
                            let oi = if i < idx { i } else { i + 1 };
                            assert(self@.slots[i] == before.slots[oi]);
                            assert(before.access_order.contains(before.slots[oi].0));
                            let k = choose|k: int|
                                0 <= k < before.access_order.len() && before.access_order[k]
                                    == other;
                            assert(k != 0);
                            assert(self@.access_order[k - 1] == other);
                        }
                    }
                },
                None => {
                    proof {
                        assert forall|i: int| 0 <= i < self@.slots.len() implies self@.access_order.contains(
                            (#[trigger] self@.slots[i]).0,
                        ) by {
                            let other = self@.slots[i].0;
                            assert(before.access_order.contains(before.slots[i].0));
                            let k = choose|k: int|
                                0 <= k < before.access_order.len() && before.access_order[k]
                                    == other;
                            assert(k != 0);
                            assert(self@.access_order[k - 1] == other);
                        }
                    }
                },
            }
        }
        proof {
            if self@.slots.len() > 0 && self@.access_order.len() == 0 {
                assert(self@.access_order.contains(self@.slots[0].0));
            }
        }
    }

    /// Caches `data` under `image_id`; the pixel size is detected.
    pub fn cache_image(&mut self, image_id: &str, data: Vec<u8>)
        requires
            old(self).wf(),
        ensures
            final(self).wf(),
            final(self)@ == old(self)@.cached(image_id@, entry_for(data@, 0, 0)),
    {
        self.cache_image_with_dimensions(image_id, data, 0, 0);
    }

    /// Caches `data` under `image_id`. An older image under that identifier
    /// is replaced; where the cache would grow beyond `MAX_CACHE_SIZE`, the
    /// least recently used images leave first. A pixel size with a zero in
    /// it is replaced by the detected one.
    pub fn cache_image_with_dimensions(
        &mut self,
        image_id: &str,
        data: Vec<u8>,
        width: u32,
        height: u32,
    )
        requires
            old(self).wf(),
        ensures
            final(self).wf(),
            final(self)@ == old(self)@.cached(image_id@, entry_for(data@, width, height)),
    {
        let data_size = data.len();
        let format = ImageFormat::from_bytes(data.as_slice());
        self.drop_image(image_id);
        if self.total_size as u128 + data_size as u128 > MAX_CACHE_SIZE as u128 {
            self.evict_lru(data_size);
        }
        let (w, h) = if width == 0 || height == 0 {
            match detect_image_dimensions(data.as_slice()) {
                Some(d) => d,
                None => (0, 0),
            }
        } else {
            (width, height)
        };
        let ghost before = self@;
        let ghost names = texts(self.ids@);
        let entry = ImageEntry::new(data, w, h, format);
        proof {
            lemma_sum_push(before.slots, (image_id@, entry@));
            assert(!has_id(before.slots, image_id@));
        }
        self.total_size = self.total_size + data_size;
        self.access_order.push(image_id.to_string());
        self.ids.push(image_id.to_string());
        self.cache.insert(image_id.to_string(), entry);
        proof {
            let now = texts(self.ids@);
            assert(now =~= names.push(image_id@));
            assert forall|i: int| 0 <= i < self@.slots.len() implies self@.slots[i]
                == before.slots.push((image_id@, entry_for(data@, width, height)))[i] by {
                if i < before.slots.len() {
                    assert(before.slots[i].0 == names[i]);
                    assert(names[i] != image_id@);
                }
            }
            assert(self@.slots =~= before.slots.push((image_id@, entry_for(data@, width, height))));
            assert(self@.access_order =~= before.access_order.push(image_id@));
            assert forall|i: int, j: int|
                0 <= i < self@.slots.len() && 0 <= j < self@.slots.len() && i != j implies (
            #[trigger] self@.slots[i]).0 != (#[trigger] self@.slots[j]).0 by {
                if i < before.slots.len() {
                    assert(self@.slots[i] == before.slots[i]);
                }
                if j < before.slots.len() {
                    assert(self@.slots[j] == before.slots[j]);
                }
            }
            assert forall|i: int| 0 <= i < self@.slots.len() implies self@.access_order.contains(
                (#[trigger] self@.slots[i]).0,
            ) by {
                if i < before.slots.len() {
                    let other = before.slots[i].0;
                    let k = choose|k: int|
                        0 <= k < before.access_order.len() && before.access_order[k] == other;
                    assert(self@.access_order[k] == other);
                } else {
                    assert(self@.access_order[before.access_order.len() as int] == image_id@);
                }
            }
            assert forall|k: Seq<char>| now.contains(k) <==> (names.contains(k) || k == image_id@) by {
                if now.contains(k) {
                    let i = choose|i: int| 0 <= i < now.len() && now[i] == k;
                    if i < names.len() {
                        assert(names[i] == k);
                    }
                }
                if names.contains(k) {
                    let i = choose|i: int| 0 <= i < names.len() && names[i] == k;
                    assert(now[i] == k);
                }
                if k == image_id@ {
                    assert(now[names.len() as int] == k);
                }
            }
            assert(self.cache@.dom() =~= now.to_set());
        }
    }

    /// Removes the image under `image_id`; tells whether there was one.
    pub fn remove_image(&mut self, image_id: &str) -> (r: bool)
        requires
            old(self).wf(),
        ensures
            final(self).wf(),
            r == has_id(old(self)@.slots, image_id@),
            final(self)@ == old(self)@.dropped(image_id@),
    {
        self.drop_image(image_id)
    }

    /// Whether an image is cached under `image_id`.
    pub fn has_image(&self, image_id: &str) -> (r: bool)
        requires
            self.wf(),
        ensures
            r == has_id(self@.slots, image_id@),
    {
        proof {
            self.lemma_entry(image_id@);
        }
        self.cache.contains_key(image_id)
    }

    /// The number of data bytes of the image under `image_id`.
    pub fn get_image_size(&self, image_id: &str) -> (r: Option<usize>)
        requires
            self.wf(),
        ensures
            match lookup(self@.slots, image_id@) {
                Some(e) => r matches Some(n) && n == e.data.len(),
                None => r is None,
            },
    {
        proof {
            self.lemma_entry(image_id@);
        }
        match self.cache.get(image_id) {
            Some(e) => Some(e.data.len()),
            None => None,
        }
    }

    /// Pixel size and format of the image under `image_id`.
    pub fn get_image_info(&self, image_id: &str) -> (r: Option<(u32, u32, ImageFormat)>)
        requires
            self.wf(),
        ensures
            match lookup(self@.slots, image_id@) {
                Some(e) => r == Some((e.width, e.height, e.format)),
                None => r is None,
            },
    {
        proof {
            self.lemma_entry(image_id@);
        }
        match self.cache.get(image_id) {
            Some(e) => Some((e.width, e.height, e.format)),
            None => None,
        }
    }

    /// A copy of the data of the image under `image_id`. The identifier
    /// counts as just used, cached or not.
    pub fn get_image_bytes(&mut self, image_id: &str) -> (r: Option<Vec<u8>>)
        requires
            old(self).wf(),
        ensures
            final(self).wf(),
            final(self)@ == old(self)@.touched(image_id@),
            match lookup(old(self)@.slots, image_id@) {
                Some(e) => r matches Some(v) && v@ == e.data,
                None => r is None,
            },
    {
        self.update_access_order(image_id);
        proof {
            self.lemma_entry(image_id@);
        }
        match self.cache.get(image_id) {
            Some(e) => Some(copy_bytes(&e.data)),
            None => None,
        }
    }

    /// A copy of the data of the image under `image_id`, which then counts as
    /// just used; an error names an identifier that is not cached.
    pub fn get_image_response(&mut self, image_id: &str) -> (r: Result<Vec<u8>, ImageError>)
        requires
            old(self).wf(),
        ensures
            final(self).wf(),
            match lookup(old(self)@.slots, image_id@) {
                Some(e) => (r matches Ok(v) && v@ == e.data) && final(self)@ == old(self)@.touched(
                    image_id@,
                ),
                None => (r matches Err(ImageError::NotFound(id)) && id@ == image_id@) && final(self)@
                    == old(self)@,
            },
    {
        proof {
            self.lemma_entry(image_id@);
        }
        let data = match self.cache.get(image_id) {
            Some(e) => copy_bytes(&e.data),
            None => {
                return Err(ImageError::NotFound(image_id.to_string()));
            },
        };
        self.update_access_order(image_id);
        Ok(data)
    }

    /// The thumbnail of the image under `image_id`: the one kept with the
    /// image, else a new one, which is then kept. An error tells that the
    /// identifier is not cached or that no thumbnail can be made of the data.
    pub fn get_thumbnail(&mut self, image_id: &str) -> (r: Result<Vec<u8>, ImageError>)
        requires
            old(self).wf(),
        ensures
            final(self).wf(),
            match lookup(old(self)@.slots, image_id@) {
                None => (r matches Err(ImageError::NotFound(id)) && id@ == image_id@) && final(self)@
                    == old(self)@,
                Some(e) => match e.thumbnail {
                    Some(t) => (r matches Ok(v) && v@ == t) && final(self)@ == old(self)@,
                    None => match thumbnail_of(e.data, THUMBNAIL_SIZE) {
                        Some(t) => (r matches Ok(v) && v@ == t) && final(self)@ == old(
                            self
                        )@.with_thumbnail(image_id@, t),
                        None => r matches Err(ImageError::ThumbnailFailed) && final(self)@ == old(
                            self
                        )@,
                    },
                },
            },
    {
        proof {
            self.lemma_entry(image_id@);
        }
        let entry = match self.cache.get(image_id) {
            Some(entry) => entry,
            None => {
                return Err(ImageError::NotFound(image_id.to_string()));
            },
        };
        match &entry.thumbnail {
            Some(thumb) => {
                return Ok(copy_bytes(thumb));
            },
            None => {},
        }
        let thumbnail = match generate_thumbnail(entry.data.as_slice(), THUMBNAIL_SIZE) {
            Some(t) => t,
            None => {
                return Err(ImageError::ThumbnailFailed);
            },
        };
        let thumb_size = thumbnail.len();
        if thumb_size <= usize::MAX - self.total_size {
            let ghost before = self@.slots;
            let ghost names = texts(self.ids@);
            let ghost at = position(before, image_id@);
            let kept = ImageEntry {
                data: copy_bytes(&entry.data),
                width: entry.width,
                height: entry.height,
                format: entry.format,
                thumbnail: Some(copy_bytes(&thumbnail)),
            };
            let ghost slot = (image_id@, kept@);
            self.cache.insert(image_id.to_string(), kept);
            self.total_size = self.total_size + thumb_size;
            proof {
                assert(before[at].0 == image_id@);
                assert forall|i: int| 0 <= i < self@.slots.len() implies self@.slots[i]
                    == before.update(at, slot)[i] by {
                    assert(before[i].0 == names[i]);
                    if i != at {
                        assert(before[i].0 != before[at].0);
                    }
                }
                assert(self@.slots =~= before.update(at, slot));
                lemma_sum_update(before, at, slot);
                assert forall|i: int, j: int|
                    0 <= i < self@.slots.len() && 0 <= j < self@.slots.len() && i != j implies (
                #[trigger] self@.slots[i]).0 != (#[trigger] self@.slots[j]).0 by {
                    assert(self@.slots[i].0 == before[i].0);
                    assert(self@.slots[j].0 == before[j].0);
                }
                assert forall|i: int| 0 <= i < self@.slots.len() implies self@.access_order.contains(
                    (#[trigger] self@.slots[i]).0,
                ) by {
                    assert(self@.slots[i].0 == before[i].0);
                }
                assert(names.to_set().contains(image_id@));
                assert(self.cache@.dom() =~= names.to_set());
            }
        }
        Ok(thumbnail)
    }

    /// Empties the cache.
    pub fn clear_cache(&mut self)
        ensures
            final(self).wf(),
            final(self)@ == HandlerModel::empty(),
    {
        self.cache.clear();
        self.ids.clear();
        self.access_order.clear();
        self.total_size = 0;
        assert(self@.slots =~= Seq::empty());
        assert(self@.access_order =~= Seq::empty());
        assert(self.cache@.dom() =~= texts(self.ids@).to_set());
    }

    /// The number of cached images.
    pub fn cache_count(&self) -> (n: usize)
        requires
            self.wf(),
        ensures
            n == self@.slots.len(),
    {
        proof {
            self.lemma_count();
        }
        self.cache.len()
    }

    /// The bytes that the cache accounts for: under the invariant, the sum of
    /// the sizes of all entries.
    pub fn total_cache_size(&self) -> (n: usize)
        ensures
            n == self@.total_size,
            self.wf() ==> n == sum_sizes(self@.slots),
    {
        self.total_size
    }

    /// The identifiers of all cached images, each once, in the order in
    /// which the images entered.
    pub fn get_cached_ids(&self) -> (ids: Vec<String>)
        ensures
            ids.len() == self@.slots.len(),
            forall|i: int| 0 <= i < ids.len() ==> (#[trigger] ids@[i])@ == self@.slots[i].0,
    {
        let mut ids: Vec<String> = Vec::new();
        let mut i: usize = 0;
        while i < self.ids.len()
            invariant
                i <= self.ids.len(),
                ids.len() == i,
                forall|k: int| 0 <= k < i ==> (#[trigger] ids@[k])@ == self@.slots[k].0,
            decreases self.ids.len() - i,
        {
            ids.push(self.ids[i].clone());
            i += 1;
        }
        ids
    }
}

impl Default for ImageHandler {
    fn default() -> (h: Self)
        ensures
            h.wf(),
            h@ == HandlerModel::empty(),
    {
        ImageHandler::new()
    }
}

/// Caches `data` under `image_id` in `handler`.
pub fn cache_image(handler: &mut ImageHandler, image_id: &str, data: Vec<u8>)
    requires
        old(handler).wf(),
    ensures
        final(handler).wf(),
        final(handler)@ == old(handler)@.cached(image_id@, entry_for(data@, 0, 0)),
{
    handler.cache_image(image_id, data);
}

/// Caches `data` with a known pixel size under `image_id` in `handler`.
pub fn cache_image_with_dimensions(
    handler: &mut ImageHandler,
    image_id: &str,
    data: Vec<u8>,
    width: u32,
    height: u32,
)
    requires
        old(handler).wf(),
    ensures
        final(handler).wf(),
        final(handler)@ == old(handler)@.cached(image_id@, entry_for(data@, width, height)),
{
    handler.cache_image_with_dimensions(image_id, data, width, height);
}

/// A copy of the data under `image_id` in `handler`, which counts as a use of
/// the identifier.
pub fn get_image_bytes(handler: &mut ImageHandler, image_id: &str) -> (r: Option<Vec<u8>>)
    requires
        old(handler).wf(),
    ensures
        final(handler).wf(),
        final(handler)@ == old(handler)@.touched(image_id@),
        match lookup(old(handler)@.slots, image_id@) {
            Some(e) => r matches Some(v) && v@ == e.data,
            None => r is None,
        },
{
    handler.get_image_bytes(image_id)
}

/// Removes the image under `image_id` from `handler`; tells whether there was
/// one.
pub fn remove_cached_image(handler: &mut ImageHandler, image_id: &str) -> (r: bool)
    requires
        old(handler).wf(),
    ensures
        final(handler).wf(),
        r == has_id(old(handler)@.slots, image_id@),
        final(handler)@ == old(handler)@.dropped(image_id@),
{
    handler.remove_image(image_id)
}

/// Empties `handler`.
pub fn clear_image_cache(handler: &mut ImageHandler)
    ensures
        final(handler).wf(),
        final(handler)@ == HandlerModel::empty(),
{
    handler.clear_cache();
}

/// The number of cached images and the bytes accounted for.
pub fn get_cache_stats(handler: &ImageHandler) -> (stats: (usize, usize))
    requires
        handler.wf(),
    ensures
        stats.0 == handler@.slots.len(),
        stats.1 == handler@.total_size,
{
    (handler.cache_count(), handler.total_cache_size())
}

/// The bytes that answer a request for the image under `image_id`: its
/// data, and nothing where it is not cached. A request counts as a use of
/// a cached image.
pub fn get_image(handler: &mut ImageHandler, image_id: &str) -> (body: Vec<u8>)
    requires
        old(handler).wf(),
    ensures
        final(handler).wf(),
        match lookup(old(handler)@.slots, image_id@) {
            Some(e) => body@ == e.data && final(handler)@ == old(handler)@.touched(image_id@),
            None => body@.len() == 0 && final(handler)@ == old(handler)@,
        },
{
    match handler.get_image_response(image_id) {
        Ok(data) => data,
        Err(_) => Vec::new(),
    }
}

/// The bytes that answer a request for the thumbnail of the image under
/// `image_id`: the thumbnail, and nothing where there is none to be had.
pub fn get_image_thumbnail(handler: &mut ImageHandler, image_id: &str) -> (body: Vec<u8>)
    requires
        old(handler).wf(),
    ensures
        final(handler).wf(),
        match lookup(old(handler)@.slots, image_id@) {
            None => body@.len() == 0 && final(handler)@ == old(handler)@,
            Some(e) => match e.thumbnail {
                Some(t) => body@ == t && final(handler)@ == old(handler)@,
                None => match thumbnail_of(e.data, THUMBNAIL_SIZE) {
                    Some(t) => body@ == t && final(handler)@ == old(handler)@.with_thumbnail(
                        image_id@,
                        t,
                    ),
                    None => body@.len() == 0 && final(handler)@ == old(handler)@,
                },
            },
        },
{
    match handler.get_thumbnail(image_id) {
        Ok(data) => data,
        Err(_) => Vec::new(),
    }
}

/// Pixel size and media type of the image under `image_id`.
pub fn get_image_info(handler: &ImageHandler, image_id: &str) -> (r: Option<(u32, u32, String)>)
    requires
        handler.wf(),
    ensures
        match lookup(handler@.slots, image_id@) {
            Some(e) => r matches Some(info) && info.0 == e.width && info.1 == e.height && info.2@
                == e.format.spec_mime_type(),
            None => r is None,
        },
{
    match handler.get_image_info(image_id) {
        Some((w, h, f)) => Some((w, h, f.mime_type().to_string())),
        None => None,
    }
}

/// The answer to a request of the image protocol.
#[derive(Debug, Clone)]
pub struct ProtocolResponse {
    pub status: u16,
    pub content_type: Option<String>,
    pub allow_origin: Option<String>,
    pub body: Vec<u8>,
}

/// A path without its leading slashes.
pub open spec fn without_slashes(path: Seq<char>) -> Seq<char> {
    crate::text::without_leading_char(path, '/')
}

fn strip_slashes(path: &str) -> (id: String)
    ensures
        id@ == without_slashes(path@),
{
    let chars = crate::text::to_chars(path);
    let mut from: usize = 0;
    assert(chars@.skip(0) =~= chars@);
    while from < chars.len() && chars[from] == '/'
        invariant
            from <= chars.len(),
            crate::text::without_leading_char(chars@, '/') == crate::text::without_leading_char(
                chars@.skip(from as int),
                '/',
            ),
        decreases chars.len() - from,
    {
        proof {
            assert(chars@.skip(from as int)[0] == chars@[from as int]);
            assert(chars@.skip(from as int).skip(1) =~= chars@.skip(from + 1));
        }
        from += 1;
    }
    proof {
        if from < chars.len() {
            assert(chars@.skip(from as int)[0] == chars@[from as int]);
        }
        assert(chars@.subrange(from as int, chars.len() as int) =~= chars@.skip(from as int));
    }
    crate::text::from_chars(&chars, from, chars.len())
}

/// Answers a request of the image protocol. The path names the image, after
/// any leading slashes. A cached image is sent with status 200 as
/// `image/png`, open to every origin, and counts as used; anything else is
/// answered with status 404 and an empty body.
pub fn handle_image_protocol(handler: &mut ImageHandler, path: &str) -> (r: ProtocolResponse)
    requires
        old(handler).wf(),
    ensures
        final(handler).wf(),
        final(handler)@ == old(handler)@.touched(without_slashes(path@)),
        match lookup(old(handler)@.slots, without_slashes(path@)) {
            Some(e) => {
                &&& r.status == 200
                &&& r.content_type matches Some(t) && t@ == "image/png"@
                &&& r.allow_origin matches Some(o) && o@ == "*"@
                &&& r.body@ == e.data
            },
            None => {
                &&& r.status == 404
                &&& r.content_type is None
                &&& r.allow_origin is None
                &&& r.body@.len() == 0
            },
        },
{
    let image_id = strip_slashes(path);
    match handler.get_image_bytes(image_id.as_str()) {
        Some(data) => ProtocolResponse {
            status: 200,
            content_type: Some("image/png".to_string()),
            allow_origin: Some("*".to_string()),
            body: data,
        },
        None => ProtocolResponse {
            status: 404,
            content_type: None,
            allow_origin: None,
            body: Vec::new(),
        },
    }
}

/// The PNG that the `image` crate writes for pixels of four bytes each, red,
/// green, blue and alpha, row by row, with its default compression and the
/// adaptive filter; nothing where it refuses them.
pub uninterp spec fn png_of(rgba: Seq<u8>, width: u32, height: u32) -> Option<Seq<u8>>;

/// `PngEncoder::new_with_quality` with `CompressionType::Default` and
/// `FilterType::Adaptive`, then `ImageEncoder::write_image` for
/// `ExtendedColorType::Rgba8`. The encoder stops on a buffer of another
/// length than four bytes a pixel. The outcome depends on the arguments
/// alone.
#[verifier::external_body]
pub(crate) fn encode_png(rgba: &[u8], width: u32, height: u32) -> (r: Option<Vec<u8>>)
    requires
        rgba@.len() == 4 * width * height,
    ensures
        match r {
            Some(png) => png_of(rgba@, width, height) == Some(png@),
            None => png_of(rgba@, width, height) is None,
        },
{
    let mut buffer = std::io::Cursor::new(Vec::new());
    let encoder = image::codecs::png::PngEncoder::new_with_quality(
        &mut buffer,
        image::codecs::png::CompressionType::Default,
        image::codecs::png::FilterType::Adaptive,
    );
    image::ImageEncoder::write_image(encoder, rgba, width, height, image::ExtendedColorType::Rgba8).ok()?;
    Some(buffer.into_inner())
}

/// Whether the pixels fill an image of the given size, four bytes each.
pub open spec fn fills(rgba: Seq<u8>, width: u32, height: u32) -> bool {
    rgba.len() == 4 * width * height
}

/// Encodes pixels of four bytes each as a PNG; nothing where the pixels do
/// not fill the image or cannot be encoded.
pub fn encode_image_optimized(rgba: &[u8], width: u32, height: u32) -> (r: Option<Vec<u8>>)
    ensures
        match r {
            Some(png) => fills(rgba@, width, height) && png_of(rgba@, width, height) == Some(
                png@,
            ),
            None => !fills(rgba@, width, height) || png_of(rgba@, width, height) is None,
        },
{
    assert(0 <= width * height <= 0xffff_ffff * 0xffff_ffff) by (nonlinear_arith)
        requires
            0 <= width <= 0xffff_ffff,
            0 <= height <= 0xffff_ffff,
    ;
    let pixels: u128 = (width as u128) * (height as u128);
    let wanted: u128 = 4 * pixels;
    assert(wanted == 4 * width * height) by (nonlinear_arith)
        requires
            wanted == 4 * pixels,
            pixels == width * height,
    ;
    if rgba.len() as u128 != wanted {
        return None;
    }
    encode_png(rgba, width, height)
}

/// Keeps the pixels of an extracted image as a PNG under the identifier of
/// its layer; nothing is kept where they cannot be encoded. Tells whether
/// the image was kept.
pub fn cache_image_pixels(
    handler: &mut ImageHandler,
    layer_id: &str,
    rgba: &[u8],
    width: u32,
    height: u32,
) -> (kept: bool)
    requires
        old(handler).wf(),
    ensures
        final(handler).wf(),
        kept == (fills(rgba@, width, height) && png_of(rgba@, width, height) is Some),
        kept ==> final(handler)@ == old(handler)@.cached(
            layer_id@,
            entry_for(png_of(rgba@, width, height).unwrap(), 0, 0),
        ),
        !kept ==> final(handler)@ == old(handler)@,
{
    match encode_image_optimized(rgba, width, height) {
        Some(png) => {
            handler.cache_image(layer_id, png);
            true
        },
        None => false,
    }
}

} // verus!
