//! Image data: decoding and validation, format detection, and a cache of
//! decoded images with a time to live and least-recently-used eviction.

use vstd::prelude::*;
use vstd::string::StringExecFns;
use crate::codec::{base64_decode, base64_decoded, image_decode_error, image_load_error};
use crate::error::AppError;
use crate::text::{
    chars_of, contains_chars, contains_seq, find_char, first_index_of, has_prefix, slice_chars,
    starts_with, string_of, trim,
};

verus! {

broadcast use vstd::string::group_string_axioms;

/// Service for image decoding and validation.
pub struct ImageService;

/// The Base64 part of an image field: what follows the first comma, or the
/// whole text when it has none.
pub open spec fn base64_payload(s: Seq<char>) -> Seq<char> {
    match first_index_of(s, ',') {
        Some(i) => s.skip(i + 1),
        None => s,
    }
}

/// The bytes of an image field: nothing for no field or a web address,
/// else the decoded Base64 payload.
pub open spec fn image_bytes_of(val: Option<Seq<char>>) -> Option<Seq<u8>> {
    match val {
        None => None,
        Some(s) => if has_prefix(s, "http"@) {
            None
        } else {
            base64_decoded(base64_payload(s))
        },
    }
}

/// The view of an optional string.
pub open spec fn opt_view(s: Option<String>) -> Option<Seq<char>> {
    match s {
        Some(x) => Some(x@),
        None => None,
    }
}

/// The outcome of `validate_image_data`: `None` when the text is accepted,
/// else the message of the image error.
pub open spec fn image_data_problem(data: Seq<char>) -> Option<Seq<char>> {
    if trim(data).len() == 0 {
        None
    } else {
        match image_bytes_of(Some(data)) {
            None => Some("Failed to decode image data"@),
            Some(b) => match image_load_error(b) {
                None => None,
                Some(e) => Some("Invalid image data: "@ + e),
            },
        }
    }
}

impl ImageService {
    /// The bytes of an image field: `None` for an absent field or a web
    /// address; otherwise the Base64 text after the first comma (or the
    /// whole text) decoded, `None` where it is not valid Base64.
    pub fn decode_image_bytes(val: &Option<String>) -> (r: Option<Vec<u8>>)
        ensures
            r matches Some(b) ==> image_bytes_of(opt_view(*val)) == Some(b@),
            r is None ==> image_bytes_of(opt_view(*val)) is None,
    {
        match val {
            None => None,
            Some(s) => {
                let c = chars_of(s.as_str());
                if starts_with(c.as_slice(), chars_of("http").as_slice()) {
                    return None;
                }
                proof {
                    crate::text::lemma_first_index_facts(c@, ',');
                }
                let payload = match find_char(c.as_slice(), ',') {
                    Some(i) => {
                        let p = slice_chars(&c, i + 1, c.len());
                        assert(p@ =~= c@.skip(i + 1));
                        p
                    }
                    None => c,
                };
                let ps = string_of(payload.as_slice());
                base64_decode(ps.as_str())
            }
        }
    }

    /// Accepts an empty (or blank) field; otherwise the field must decode
    /// and the bytes must load as an image.
    pub fn validate_image_data(data: &str) -> (r: Result<(), AppError>)
        ensures
            r is Ok <==> image_data_problem(data@) is None,
            r matches Err(e) ==> e matches AppError::Image(m) && Some(m@) == image_data_problem(data@),
    {
        let t = crate::text::trim_chars(&chars_of(data));
        if t.len() == 0 {
            return Ok(());
        }
        let field = Some(data.to_string());
        match Self::decode_image_bytes(&field) {
            Some(bytes) => match image_decode_error(bytes.as_slice()) {
                None => Ok(()),
                Some(e) => {
                    let mut m = "Invalid image data: ".to_string();
                    m.append(e.as_str());
                    Err(AppError::Image(m))
                }
            },
            None => Err(AppError::Image("Failed to decode image data".to_string())),
        }
    }
}

/// The format of cached image data.
#[derive(Debug)]
pub enum ImageFormat {
    Png,
    Jpeg,
    Gif,
    WebP,
    /// Another type, kept with the header of its data URL.
    Base64(String),
}

/// The format that `detect_from_data` reads from the first bytes.
pub open spec fn format_of_bytes(d: Seq<u8>) -> ImageFormatKind {
    if d.len() >= 4 && d[0] == 0x89 && d[1] == 0x50 && d[2] == 0x4E && d[3] == 0x47 {
        ImageFormatKind::Png
    } else if d.len() >= 3 && d[0] == 0xFF && d[1] == 0xD8 && d[2] == 0xFF {
        ImageFormatKind::Jpeg
    } else if d.len() >= 3 && d[0] == 0x47 && d[1] == 0x49 && d[2] == 0x46 {
        ImageFormatKind::Gif
    } else if d.len() >= 12 && d[8] == 0x57 && d[9] == 0x45 && d[10] == 0x42 && d[11] == 0x50 {
        ImageFormatKind::WebP
    } else {
        ImageFormatKind::Png
    }
}

/// The format of a data URL header (the text before its comma).
pub open spec fn format_of_header(h: Seq<char>) -> ImageFormatKind {
    if contains_seq(h, "image/png"@) {
        ImageFormatKind::Png
    } else if contains_seq(h, "image/jpeg"@) || contains_seq(h, "image/jpg"@) {
        ImageFormatKind::Jpeg
    } else if contains_seq(h, "image/gif"@) {
        ImageFormatKind::Gif
    } else if contains_seq(h, "image/webp"@) {
        ImageFormatKind::WebP
    } else {
        ImageFormatKind::Other(h)
    }
}

/// The view of an image format.
pub enum ImageFormatKind {
    Png,
    Jpeg,
    Gif,
    WebP,
    Other(Seq<char>),
}

impl ImageFormat {
    /// The format as a value.
    pub open spec fn kind(&self) -> ImageFormatKind {
        match self {
            ImageFormat::Png => ImageFormatKind::Png,
            ImageFormat::Jpeg => ImageFormatKind::Jpeg,
            ImageFormat::Gif => ImageFormatKind::Gif,
            ImageFormat::WebP => ImageFormatKind::WebP,
            ImageFormat::Base64(h) => ImageFormatKind::Other(h@),
        }
    }

    /// A copy of the format, equal to it.
    pub fn duplicate(&self) -> (r: ImageFormat)
        ensures
            r == *self,
    {
        match self {
            ImageFormat::Png => ImageFormat::Png,
            ImageFormat::Jpeg => ImageFormat::Jpeg,
            ImageFormat::Gif => ImageFormat::Gif,
            ImageFormat::WebP => ImageFormat::WebP,
            ImageFormat::Base64(h) => ImageFormat::Base64(h.clone()),
        }
    }

    /// The format read from the signature bytes of the data; PNG when none
    /// is recognised.
    pub fn detect_from_data(data: &[u8]) -> (r: ImageFormat)
        ensures
            r.kind() == format_of_bytes(data@),
    {
        if data.len() >= 4 && data[0] == 0x89 && data[1] == 0x50 && data[2] == 0x4E && data[3] == 0x47 {
            ImageFormat::Png
        } else if data.len() >= 3 && data[0] == 0xFF && data[1] == 0xD8 && data[2] == 0xFF {
            ImageFormat::Jpeg
        } else if data.len() >= 3 && data[0] == 0x47 && data[1] == 0x49 && data[2] == 0x46 {
            ImageFormat::Gif
        } else if data.len() >= 12 && data[8] == 0x57 && data[9] == 0x45 && data[10] == 0x42 && data[11] == 0x50 {
            ImageFormat::WebP
        } else {
            ImageFormat::Png
        }
    }

    /// Splits a data URL at its first comma, decodes the Base64 after it and
    /// reads the format from the header before it. `None` when there is no
    /// comma or the data is not valid Base64.
    pub fn from_base64_data_url(data_url: &str) -> (r: Option<(ImageFormat, Vec<u8>)>)
        ensures
            r is Some <==> (first_index_of(data_url@, ',') is Some
                && base64_decoded(data_url@.skip(first_index_of(data_url@, ',')->0 + 1)) is Some),
            r matches Some((f, d)) ==> {
                let i = first_index_of(data_url@, ',')->0;
                &&& f.kind() == format_of_header(data_url@.take(i))
                &&& base64_decoded(data_url@.skip(i + 1)) == Some(d@)
            },
    {
        let c = chars_of(data_url);
        let cs = c.as_slice();
        proof {
            crate::text::lemma_first_index_facts(cs@, ',');
        }
        match find_char(cs, ',') {
            None => None,
            Some(i) => {
                assert(i < c.len());
                let header = slice_chars(&c, 0, i);
                let payload = slice_chars(&c, i + 1, c.len());
                assert(header@ =~= data_url@.take(i as int));
                assert(payload@ =~= data_url@.skip(i + 1));
                match base64_decode(string_of(payload.as_slice()).as_str()) {
                    None => None,
                    Some(decoded) => {
                        let h = header.as_slice();
                        let format = if contains_chars(h, chars_of("image/png").as_slice()) {
                            ImageFormat::Png
                        } else if contains_chars(h, chars_of("image/jpeg").as_slice())
                            || contains_chars(h, chars_of("image/jpg").as_slice()) {
                            ImageFormat::Jpeg
                        } else if contains_chars(h, chars_of("image/gif").as_slice()) {
                            ImageFormat::Gif
                        } else if contains_chars(h, chars_of("image/webp").as_slice()) {
                            ImageFormat::WebP
                        } else {
                            ImageFormat::Base64(string_of(h))
                        };
                        Some((format, decoded))
                    }
                }
            }
        }
    }
}

} // verus!

verus! {

/// The current time, in whole seconds since the Unix epoch
/// (`SystemTime::now().duration_since(UNIX_EPOCH)`, in seconds). The clock
/// decides the value, so nothing is stated of it; a clock set before the
/// epoch reads as 0 here, where `unwrap` would panic.
#[verifier::external_body]
pub(crate) fn unix_time_now() -> (t: u64) {
    std::time::SystemTime::now().duration_since(std::time::UNIX_EPOCH).map(|d| d.as_secs()).unwrap_or(0)
}

/// Configuration for the image cache.
#[derive(Debug)]
pub struct ImageCacheConfig {
    pub max_cache_size_mb: usize,
    pub max_entries: usize,
    pub default_ttl_seconds: u64,
    pub cleanup_interval_seconds: u64,
}

impl ImageCacheConfig {
    /// 100 MiB, 1000 entries, a time to live of an hour, cleanup every five
    /// minutes.
    pub fn default_config() -> (r: ImageCacheConfig)
        ensures
            r.max_cache_size_mb == 100,
            r.max_entries == 1000,
            r.default_ttl_seconds == 3600,
            r.cleanup_interval_seconds == 300,
    {
        ImageCacheConfig {
            max_cache_size_mb: 100,
            max_entries: 1000,
            default_ttl_seconds: 3600,
            cleanup_interval_seconds: 300,
        }
    }
}

impl Default for ImageCacheConfig {
    fn default() -> (r: ImageCacheConfig)
        ensures
            r.max_cache_size_mb == 100,
            r.max_entries == 1000,
            r.default_ttl_seconds == 3600,
            r.cleanup_interval_seconds == 300,
    {
        ImageCacheConfig::default_config()
    }
}

/// A cached image with its metadata; times are in seconds since the epoch.
#[derive(Debug)]
pub struct CachedImage {
    pub data: Vec<u8>,
    pub format: ImageFormat,
    pub size_bytes: usize,
    pub timestamp_cached: u64,
    pub ttl_seconds: u64,
    pub access_count: u64,
    pub last_accessed: u64,
}

/// The value of a cached image.
pub struct ImageView {
    pub data: Seq<u8>,
    pub format: ImageFormatKind,
    pub size_bytes: usize,
    pub timestamp_cached: u64,
    pub ttl_seconds: u64,
    pub access_count: u64,
    pub last_accessed: u64,
}

impl View for CachedImage {
    type V = ImageView;

    open spec fn view(&self) -> ImageView {
        ImageView {
            data: self.data@,
            format: self.format.kind(),
            size_bytes: self.size_bytes,
            timestamp_cached: self.timestamp_cached,
            ttl_seconds: self.ttl_seconds,
            access_count: self.access_count,
            last_accessed: self.last_accessed,
        }
    }
}

/// The image has outlived its time to live at time `now`.
pub open spec fn expired_at(img: ImageView, now: u64) -> bool {
    now > img.timestamp_cached + img.ttl_seconds
}

/// The image after an access at time `now`: one more access (the count
/// stays at its largest value instead of overflowing), accessed at `now`.
pub open spec fn touched(img: ImageView, now: u64) -> ImageView {
    ImageView {
        access_count: if img.access_count == u64::MAX { u64::MAX } else { (img.access_count + 1) as u64 },
        last_accessed: now,
        ..img
    }
}

/// A freshly cached image made at time `now`.
pub open spec fn fresh_image(data: Seq<u8>, format: ImageFormatKind, ttl: Option<u64>, now: u64) -> ImageView {
    ImageView {
        data: data,
        format: format,
        size_bytes: data.len() as usize,
        timestamp_cached: now,
        ttl_seconds: match ttl {
            Some(t) => t,
            None => 3600,
        },
        access_count: 0,
        last_accessed: now,
    }
}

impl CachedImage {
    /// A new entry made at time `now`: its size is that of the data, its
    /// time to live `ttl_seconds` or an hour, never accessed yet.
    pub fn new_at(data: Vec<u8>, format: ImageFormat, ttl_seconds: Option<u64>, now: u64) -> (r: CachedImage)
        ensures
            r@ == fresh_image(data@, format.kind(), ttl_seconds, now),
    {
        let size = data.len();
        CachedImage {
            size_bytes: size,
            data,
            format,
            timestamp_cached: now,
            ttl_seconds: match ttl_seconds {
                Some(t) => t,
                None => 3600,
            },
            access_count: 0,
            last_accessed: now,
        }
    }

    /// A new entry made at the current time.
    pub fn new(data: Vec<u8>, format: ImageFormat, ttl_seconds: Option<u64>) -> (r: CachedImage)
        ensures
            r@ == fresh_image(data@, format.kind(), ttl_seconds, r.timestamp_cached),
    {
        let now = unix_time_now();
        Self::new_at(data, format, ttl_seconds, now)
    }

    /// Whether the entry has outlived its time to live at time `now`.
    pub fn is_expired_at(&self, now: u64) -> (r: bool)
        ensures
            r == expired_at(self@, now),
    {
        now > self.timestamp_cached && now - self.timestamp_cached > self.ttl_seconds
    }

    /// Whether the entry has outlived its time to live now.
    pub fn is_expired(&self) -> (r: bool)
        ensures
            exists|now: u64| r == expired_at(self@, now),
    {
        let now = unix_time_now();
        self.is_expired_at(now)
    }

    /// Records an access at time `now`.
    pub fn touch_at(&mut self, now: u64)
        ensures
            final(self)@ == touched(old(self)@, now),
    {
        self.access_count = self.access_count.saturating_add(1);
        self.last_accessed = now;
    }

    /// Records an access now.
    pub fn touch(&mut self)
        ensures
            final(self)@ == touched(old(self)@, final(self).last_accessed),
    {
        let now = unix_time_now();
        self.touch_at(now);
    }

    /// A copy of the entry.
    pub fn duplicate(&self) -> (r: CachedImage)
        ensures
            r@ == self@,
    {
        CachedImage {
            data: self.data.clone(),
            format: self.format.duplicate(),
            size_bytes: self.size_bytes,
            timestamp_cached: self.timestamp_cached,
            ttl_seconds: self.ttl_seconds,
            access_count: self.access_count,
            last_accessed: self.last_accessed,
        }
    }
}

/// Cache key for images.
#[derive(Debug)]
pub enum ImageCacheKey {
    UserAvatar(u128),
    UserCoverBanner(u128),
    ServerIcon(u128),
    ServerBanner(u128),
    Custom(String),
}

/// The value of a cache key.
pub enum CacheKey {
    UserAvatar(u128),
    UserCoverBanner(u128),
    ServerIcon(u128),
    ServerBanner(u128),
    Custom(Seq<char>),
}

impl View for ImageCacheKey {
    type V = CacheKey;

    open spec fn view(&self) -> CacheKey {
        match self {
            ImageCacheKey::UserAvatar(u) => CacheKey::UserAvatar(*u),
            ImageCacheKey::UserCoverBanner(u) => CacheKey::UserCoverBanner(*u),
            ImageCacheKey::ServerIcon(u) => CacheKey::ServerIcon(*u),
            ImageCacheKey::ServerBanner(u) => CacheKey::ServerBanner(*u),
            ImageCacheKey::Custom(s) => CacheKey::Custom(s@),
        }
    }
}

impl ImageCacheKey {
    /// The key of a user's avatar.
    pub fn user_avatar(user_id: u128) -> (r: Self)
        ensures
            r@ == CacheKey::UserAvatar(user_id),
    {
        ImageCacheKey::UserAvatar(user_id)
    }

    /// The key of a user's cover banner.
    pub fn user_cover_banner(user_id: u128) -> (r: Self)
        ensures
            r@ == CacheKey::UserCoverBanner(user_id),
    {
        ImageCacheKey::UserCoverBanner(user_id)
    }

    /// The key of a server's icon.
    pub fn server_icon(server_id: u128) -> (r: Self)
        ensures
            r@ == CacheKey::ServerIcon(server_id),
    {
        ImageCacheKey::ServerIcon(server_id)
    }

    /// The key of a server's banner.
    pub fn server_banner(server_id: u128) -> (r: Self)
        ensures
            r@ == CacheKey::ServerBanner(server_id),
    {
        ImageCacheKey::ServerBanner(server_id)
    }

    /// A key of the caller's choosing.
    pub fn custom(key: String) -> (r: Self)
        ensures
            r@ == CacheKey::Custom(key@),
    {
        ImageCacheKey::Custom(key)
    }

    /// Whether two keys are the same key.
    pub fn same_key(&self, other: &ImageCacheKey) -> (r: bool)
        ensures
            r == (self@ == other@),
    {
        match (self, other) {
            (ImageCacheKey::UserAvatar(a), ImageCacheKey::UserAvatar(b)) => *a == *b,
            (ImageCacheKey::UserCoverBanner(a), ImageCacheKey::UserCoverBanner(b)) => *a == *b,
            (ImageCacheKey::ServerIcon(a), ImageCacheKey::ServerIcon(b)) => *a == *b,
            (ImageCacheKey::ServerBanner(a), ImageCacheKey::ServerBanner(b)) => *a == *b,
            (ImageCacheKey::Custom(a), ImageCacheKey::Custom(b)) => {
                crate::text::chars_eq(chars_of(a.as_str()).as_slice(), chars_of(b.as_str()).as_slice())
            }
            _ => false,
        }
    }

    /// A copy of the key.
    pub fn duplicate(&self) -> (r: ImageCacheKey)
        ensures
            r@ == self@,
    {
        match self {
            ImageCacheKey::UserAvatar(u) => ImageCacheKey::UserAvatar(*u),
            ImageCacheKey::UserCoverBanner(u) => ImageCacheKey::UserCoverBanner(*u),
            ImageCacheKey::ServerIcon(u) => ImageCacheKey::ServerIcon(*u),
            ImageCacheKey::ServerBanner(u) => ImageCacheKey::ServerBanner(*u),
            ImageCacheKey::Custom(s) => ImageCacheKey::Custom(s.clone()),
        }
    }
}

} // verus!

verus! {

/// The map that a list of keyed images stands for.
pub open spec fn seq_to_map(s: Seq<(CacheKey, ImageView)>) -> Map<CacheKey, ImageView>
    decreases s.len(),
{
    if s.len() == 0 {
        Map::empty()
    } else {
        seq_to_map(s.drop_last()).insert(s.last().0, s.last().1)
    }
}

/// The key occurs in the list.
pub open spec fn has_key(s: Seq<(CacheKey, ImageView)>, k: CacheKey) -> bool {
    exists|j: int| 0 <= j < s.len() && #[trigger] s[j].0 == k
}

/// No key occurs twice in the list.
pub open spec fn unique_keys(s: Seq<(CacheKey, ImageView)>) -> bool {
    forall|i: int, j: int| 0 <= i < s.len() && 0 <= j < s.len() && i != j ==> s[i].0 != s[j].0
}

proof fn lemma_map_contains(s: Seq<(CacheKey, ImageView)>, k: CacheKey)
    ensures
        seq_to_map(s).contains_key(k) <==> exists|i: int| 0 <= i < s.len() && s[i].0 == k,
        seq_to_map(s).dom().finite(),
    decreases s.len(),
{
    if s.len() > 0 {
        lemma_map_contains(s.drop_last(), k);
        if seq_to_map(s.drop_last()).contains_key(k) {
            let i = choose|i: int| 0 <= i < s.drop_last().len() && s.drop_last()[i].0 == k;
            assert(s[i].0 == k);
        }
        if exists|i: int| 0 <= i < s.len() && s[i].0 == k {
            let i = choose|i: int| 0 <= i < s.len() && s[i].0 == k;
            if i < s.len() - 1 {
                assert(s.drop_last()[i].0 == k);
            }
        }
    }
}

proof fn lemma_map_value(s: Seq<(CacheKey, ImageView)>, i: int)
    requires
        unique_keys(s),
        0 <= i < s.len(),
    ensures
        seq_to_map(s).contains_key(s[i].0),
        seq_to_map(s)[s[i].0] == s[i].1,
    decreases s.len(),
{
    if i < s.len() - 1 {
        let t = s.drop_last();
        assert(unique_keys(t)) by {
            assert forall|a: int, b: int| 0 <= a < t.len() && 0 <= b < t.len() && a != b implies t[a].0 != t[b].0 by {
                assert(t[a] == s[a] && t[b] == s[b]);
            }
        }
        assert(t[i] == s[i]);
        lemma_map_value(t, i);
        assert(s.last().0 != s[i].0);
    }
}

proof fn lemma_map_len(s: Seq<(CacheKey, ImageView)>)
    requires
        unique_keys(s),
    ensures
        seq_to_map(s).len() == s.len(),
        seq_to_map(s).dom().finite(),
    decreases s.len(),
{
    lemma_map_contains(s, arbitrary());
    if s.len() > 0 {
        let t = s.drop_last();
        assert(unique_keys(t)) by {
            assert forall|a: int, b: int| 0 <= a < t.len() && 0 <= b < t.len() && a != b implies t[a].0 != t[b].0 by {
                assert(t[a] == s[a] && t[b] == s[b]);
            }
        }
        lemma_map_len(t);
        lemma_map_contains(t, s.last().0);
        if seq_to_map(t).contains_key(s.last().0) {
            let i = choose|i: int| 0 <= i < t.len() && t[i].0 == s.last().0;
            assert(s[i].0 == s[s.len() - 1].0);
        }
    }
}

/// The map of the list agrees with `m` on every key.
proof fn lemma_map_ext(s: Seq<(CacheKey, ImageView)>, m: Map<CacheKey, ImageView>)
    requires
        unique_keys(s),
        forall|k: CacheKey| m.contains_key(k) <==> exists|i: int| 0 <= i < s.len() && s[i].0 == k,
        forall|i: int| 0 <= i < s.len() ==> m[#[trigger] s[i].0] == s[i].1,
    ensures
        seq_to_map(s) == m,
{
    assert forall|k: CacheKey| seq_to_map(s).contains_key(k) <==> m.contains_key(k) by {
        lemma_map_contains(s, k);
    }
    assert forall|k: CacheKey| #[trigger] seq_to_map(s).contains_key(k) implies seq_to_map(s)[k] == m[k] by {
        lemma_map_contains(s, k);
        let i = choose|i: int| 0 <= i < s.len() && s[i].0 == k;
        lemma_map_value(s, i);
    }
    assert(seq_to_map(s) =~= m);
}

/// Cache statistics, in whole numbers; the size in MiB is the size in
/// bytes divided by 1024 * 1024.
#[derive(Debug)]
pub struct ImageCacheStats {
    pub total_entries: usize,
    pub total_size_bytes: usize,
    pub expired_entries: usize,
    pub total_access_count: u64,
}

/// The number of images of the list that are expired at time `now`.
pub open spec fn count_expired(s: Seq<(CacheKey, ImageView)>, now: u64) -> nat
    decreases s.len(),
{
    if s.len() == 0 {
        0
    } else {
        count_expired(s.drop_last(), now) + if expired_at(s.last().1, now) { 1nat } else { 0nat }
    }
}

/// The sum of the access counts of the list.
pub open spec fn sum_access(s: Seq<(CacheKey, ImageView)>) -> nat
    decreases s.len(),
{
    if s.len() == 0 {
        0
    } else {
        sum_access(s.drop_last()) + (s.last().1.access_count as nat)
    }
}

/// The entries of the list that are not expired at time `now`.
pub open spec fn live_entries(s: Seq<(CacheKey, ImageView)>, now: u64) -> Seq<(CacheKey, ImageView)>
    decreases s.len(),
{
    if s.len() == 0 {
        s
    } else if expired_at(s.last().1, now) {
        live_entries(s.drop_last(), now)
    } else {
        live_entries(s.drop_last(), now).push(s.last())
    }
}

/// More images than allowed, or more bytes than allowed once `incoming`
/// bytes are added.
pub open spec fn over_limit(config: ImageCacheConfig, entries: nat, size: usize, incoming: usize) -> bool {
    entries >= config.max_entries || size + incoming > config.max_cache_size_mb * 1048576
}

/// The sum of the sizes of the images of `m` under the keys of `ks`.
pub open spec fn evicted_size(m: Map<CacheKey, ImageView>, ks: Seq<CacheKey>) -> nat
    decreases ks.len(),
{
    if ks.len() == 0 {
        0
    } else {
        evicted_size(m, ks.drop_last()) + (m[ks.last()].size_bytes as nat)
    }
}

/// `all` lists, once each, the keys of `m`.
pub open spec fn lists_keys(m: Map<CacheKey, ImageView>, all: Seq<CacheKey>) -> bool {
    &&& all.no_duplicates()
    &&& forall|q: CacheKey| all.contains(q) <==> m.contains_key(q)
}

/// `gone` lists, once each, the keys of the images of `m` expired at time
/// `now`.
pub open spec fn lists_expired(m: Map<CacheKey, ImageView>, now: u64, gone: Seq<CacheKey>) -> bool {
    &&& gone.no_duplicates()
    &&& forall|q: CacheKey| gone.contains(q) <==> m.contains_key(q) && expired_at(m[q], now)
}

/// A byte count lowered by `total`, not below zero.
pub open spec fn count_less(count: usize, total: nat) -> usize {
    if count >= total {
        (count - total) as usize
    } else {
        0
    }
}

/// What is left of `before` once the first `i` keys of `evicted` are gone.
pub open spec fn kept_after(before: Map<CacheKey, ImageView>, evicted: Seq<CacheKey>, i: int) -> Map<CacheKey, ImageView> {
    before.remove_keys(evicted.take(i).to_set())
}

/// The byte count once the first `i` images of `evicted` are gone, each
/// one's size taken off (not below zero).
pub open spec fn count_after(before: Map<CacheKey, ImageView>, before_count: usize, evicted: Seq<CacheKey>, i: int) -> usize {
    count_less(before_count, evicted_size(before, evicted.take(i)))
}

/// What storing `img` under `k` does to a cache holding `before` with byte
/// count `before_count`, evicting the images of `evicted` in that order:
/// each was a least recently used image of those left, evicted because
/// the cache held `max_entries` images or the byte count plus the new
/// size passed the size limit, and its size was taken off the count; the
/// evictions stop when the limits allow the new image or nothing is left;
/// then the image is stored and its size added to the count (which stays
/// at its largest value instead of overflowing).
pub open spec fn put_outcome(
    before: Map<CacheKey, ImageView>,
    before_count: usize,
    config: ImageCacheConfig,
    k: CacheKey,
    img: ImageView,
    after: Map<CacheKey, ImageView>,
    after_count: usize,
    evicted: Seq<CacheKey>,
) -> bool {
    let n = evicted.len() as int;
    let kept = kept_after(before, evicted, n);
    let count = count_after(before, before_count, evicted, n);
    &&& evicted.no_duplicates()
    &&& forall|i: int| 0 <= i < n ==> before.contains_key(#[trigger] evicted[i])
    &&& forall|i: int, q: CacheKey| 0 <= i < n && #[trigger] kept_after(before, evicted, i).contains_key(q)
        ==> before[evicted[i]].last_accessed <= before[q].last_accessed
    &&& forall|i: int| 0 <= i < n ==> over_limit(config, #[trigger] kept_after(before, evicted, i).len(),
        count_after(before, before_count, evicted, i), img.size_bytes)
    &&& (kept.len() == 0 || !over_limit(config, kept.len(), count, img.size_bytes))
    &&& after == kept.insert(k, img)
    &&& after_count == if count + img.size_bytes > usize::MAX {
        usize::MAX
    } else {
        (count + img.size_bytes) as usize
    }
}

/// Evicting one more key leaves the earlier steps as they were.
proof fn lemma_evict_push(before: Map<CacheKey, ImageView>, before_count: usize, evicted: Seq<CacheKey>, v: CacheKey, i: int)
    requires
        0 <= i <= evicted.len(),
    ensures
        kept_after(before, evicted.push(v), i) == kept_after(before, evicted, i),
        count_after(before, before_count, evicted.push(v), i) == count_after(before, before_count, evicted, i),
{
    assert(evicted.push(v).take(i) =~= evicted.take(i));
}

/// The keys evicted so far, one more, and what is left.
proof fn lemma_evict_step(before: Map<CacheKey, ImageView>, before_count: usize, evicted: Seq<CacheKey>, v: CacheKey)
    ensures
        kept_after(before, evicted.push(v), evicted.len() as int + 1) == kept_after(before, evicted, evicted.len() as int).remove(v),
        evicted_size(before, evicted.push(v)) == evicted_size(before, evicted) + before[v].size_bytes,
        count_after(before, before_count, evicted.push(v), evicted.len() as int + 1)
            == count_minus(count_after(before, before_count, evicted, evicted.len() as int), before[v].size_bytes),
{
    let e2 = evicted.push(v);
    assert(e2.take(evicted.len() as int + 1) =~= e2);
    assert(evicted.take(evicted.len() as int) =~= evicted);
    assert(e2.drop_last() =~= evicted);
    assert(e2.to_set() =~= evicted.to_set().insert(v)) by {
        assert forall|q: CacheKey| e2.to_set().contains(q) <==> evicted.to_set().contains(q) || q == v by {
            if e2.contains(q) {
                let j = choose|j: int| 0 <= j < e2.len() && e2[j] == q;
                if j < evicted.len() {
                    assert(evicted[j] == q);
                }
            }
            if evicted.contains(q) {
                let j = choose|j: int| 0 <= j < evicted.len() && evicted[j] == q;
                assert(e2[j] == q);
            }
            if q == v {
                assert(e2[evicted.len() as int] == v);
            }
        }
    }
    assert(before.remove_keys(e2.to_set()) =~= before.remove_keys(evicted.to_set()).remove(v));
}

/// An image cache with least-recently-used eviction and a time to live. It
/// stands for a map from keys to images, and keeps a running count of the
/// bytes it holds.
pub struct ImageCache {
    entries: Vec<(ImageCacheKey, CachedImage)>,
    config: ImageCacheConfig,
    current_size_bytes: usize,
}

impl View for ImageCache {
    type V = Map<CacheKey, ImageView>;

    closed spec fn view(&self) -> Map<CacheKey, ImageView> {
        seq_to_map(self.entry_views())
    }
}

impl ImageCache {
    /// The keyed images in the order the cache keeps them.
    pub closed spec fn entry_views(&self) -> Seq<(CacheKey, ImageView)> {
        self.entries@.map_values(|e: (ImageCacheKey, CachedImage)| (e.0@, e.1@))
    }

    #[verifier::type_invariant]
    closed spec fn inv(&self) -> bool {
        unique_keys(self.entry_views())
    }

    /// The running count of cached bytes.
    pub closed spec fn size_counter(&self) -> usize {
        self.current_size_bytes
    }

    /// The configuration the cache was made with.
    pub closed spec fn settings(&self) -> ImageCacheConfig {
        self.config
    }

    /// The number of images expired at time `now`.
    pub closed spec fn expired_count_at(&self, now: u64) -> nat {
        count_expired(self.entry_views(), now)
    }

    /// The sum of the access counts of the images.
    pub closed spec fn access_sum(&self) -> nat {
        sum_access(self.entry_views())
    }

    proof fn lemma_view_facts(&self)
        requires
            self.inv(),
        ensures
            self@.dom().finite(),
            self@.len() == self.entries@.len(),
            forall|i: int| 0 <= i < self.entries@.len() ==> self@.contains_key(#[trigger] self.entries@[i].0@)
                && self@[self.entries@[i].0@] == self.entries@[i].1@,
            forall|k: CacheKey| self@.contains_key(k) <==> exists|i: int| 0 <= i < self.entries@.len() && #[trigger] self.entries@[i].0@ == k,
    {
        let s = self.entry_views();
        lemma_map_len(s);
        assert forall|i: int| 0 <= i < self.entries@.len() implies self@.contains_key(#[trigger] self.entries@[i].0@)
            && self@[self.entries@[i].0@] == self.entries@[i].1@ by {
            assert(s[i] == (self.entries@[i].0@, self.entries@[i].1@));
            lemma_map_value(s, i);
        }
        assert forall|k: CacheKey| self@.contains_key(k) <==> exists|i: int| 0 <= i < self.entries@.len() && #[trigger] self.entries@[i].0@ == k by {
            lemma_map_contains(s, k);
            if self@.contains_key(k) {
                let i = choose|i: int| 0 <= i < s.len() && s[i].0 == k;
                assert(self.entries@[i].0@ == k);
            }
            if exists|i: int| 0 <= i < self.entries@.len() && #[trigger] self.entries@[i].0@ == k {
                let i = choose|i: int| 0 <= i < self.entries@.len() && #[trigger] self.entries@[i].0@ == k;
                assert(s[i].0 == k);
            }
        }
    }

    /// An empty cache with the given configuration.
    pub fn new(config: ImageCacheConfig) -> (r: Self)
        ensures
            r@ == Map::<CacheKey, ImageView>::empty(),
            r.size_counter() == 0,
            r.settings() == config,
    {
        let r = ImageCache { entries: Vec::new(), config, current_size_bytes: 0 };
        assert(r.entry_views() =~= Seq::<(CacheKey, ImageView)>::empty());
        r
    }

    /// An empty cache with the default configuration.
    pub fn with_default_config() -> (r: Self)
        ensures
            r@ == Map::<CacheKey, ImageView>::empty(),
            r.size_counter() == 0,
            r.settings().max_cache_size_mb == 100,
            r.settings().max_entries == 1000,
            r.settings().default_ttl_seconds == 3600,
    {
        Self::new(ImageCacheConfig::default_config())
    }

    fn find_index(&self, key: &ImageCacheKey) -> (r: Option<usize>)
        ensures
            r matches Some(i) ==> i < self.entries@.len() && self.entries@[i as int].0@ == key@,
            r is None ==> forall|i: int| 0 <= i < self.entries@.len() ==> #[trigger] self.entries@[i].0@ != key@,
    {
        let mut i: usize = 0;
        while i < self.entries.len()
            invariant
                i <= self.entries@.len(),
                forall|j: int| 0 <= j < i ==> #[trigger] self.entries@[j].0@ != key@,
            decreases self.entries.len() - i,
        {
            if self.entries[i].0.same_key(key) {
                return Some(i);
            }
            i = i + 1;
        }
        None
    }

    /// The position of a least recently used image (the first of them).
    fn find_lru_index(&self) -> (r: Option<usize>)
        ensures
            r is None <==> self.entries@.len() == 0,
            r matches Some(i) ==> i < self.entries@.len() && forall|j: int| 0 <= j < self.entries@.len()
                ==> self.entries@[i as int].1.last_accessed <= #[trigger] self.entries@[j].1.last_accessed,
    {
        if self.entries.len() == 0 {
            return None;
        }
        let mut best: usize = 0;
        let mut i: usize = 1;
        while i < self.entries.len()
            invariant
                1 <= i <= self.entries@.len(),
                best < i,
                forall|j: int| 0 <= j < i ==> self.entries@[best as int].1.last_accessed <= #[trigger] self.entries@[j].1.last_accessed,
            decreases self.entries.len() - i,
        {
            if self.entries[i].1.last_accessed < self.entries[best].1.last_accessed {
                best = i;
            }
            i = i + 1;
        }
        Some(best)
    }

    /// The key of a least recently used image, if the cache is not empty.
    fn find_lru_key(&self) -> (r: Option<ImageCacheKey>)
        ensures
            r is None <==> self@.len() == 0,
            r matches Some(k) ==> self@.contains_key(k@) && forall|q: CacheKey| #[trigger] self@.contains_key(q)
                ==> self@[k@].last_accessed <= self@[q].last_accessed,
    {
        proof {
            use_type_invariant(self);
            self.lemma_view_facts();
        }
        match self.find_lru_index() {
            None => None,
            Some(i) => {
                proof {
                    assert forall|q: CacheKey| #[trigger] self@.contains_key(q) implies self@[self.entries@[i as int].0@].last_accessed <= self@[q].last_accessed by {
                        let j = choose|j: int| 0 <= j < self.entries@.len() && #[trigger] self.entries@[j].0@ == q;
                        assert(self.entries@[i as int].1.last_accessed <= self.entries@[j].1.last_accessed);
                    }
                }
                Some(self.entries[i].0.duplicate())
            }
        }
    }
}

} // verus!

verus! {

impl ImageCache {
    proof fn lemma_unique_after_remove(s: Seq<(CacheKey, ImageView)>, i: int)
        requires
            unique_keys(s),
            0 <= i < s.len(),
        ensures
            unique_keys(s.remove(i)),
            forall|k: CacheKey| #[trigger] has_key(s.remove(i), k) <==> (k != s[i].0 && has_key(s, k)),
    {
        let t = s.remove(i);
        assert forall|a: int, b: int| 0 <= a < t.len() && 0 <= b < t.len() && a != b implies t[a].0 != t[b].0 by {
            let a2 = if a < i { a } else { a + 1 };
            let b2 = if b < i { b } else { b + 1 };
            assert(t[a] == s[a2] && t[b] == s[b2]);
        }
        assert forall|k: CacheKey| #[trigger] has_key(t, k) <==> (k != s[i].0 && has_key(s, k)) by {
            if exists|j: int| 0 <= j < t.len() && #[trigger] t[j].0 == k {
                let j = choose|j: int| 0 <= j < t.len() && #[trigger] t[j].0 == k;
                let j2 = if j < i { j } else { j + 1 };
                assert(t[j] == s[j2]);
            }
            if k != s[i].0 && exists|j: int| 0 <= j < s.len() && #[trigger] s[j].0 == k {
                let j = choose|j: int| 0 <= j < s.len() && #[trigger] s[j].0 == k;
                let j2 = if j < i { j } else { j - 1 };
                assert(t[j2] == s[j]);
            }
        }
    }

    /// Removes the image at position `i`, lowering the byte count by its
    /// size (not below zero).
    fn remove_index(&mut self, i: usize) -> (removed: CachedImage)
        requires
            i < old(self).entries@.len(),
        ensures
            final(self)@ == old(self)@.remove(old(self).entries@[i as int].0@),
            old(self)@.contains_key(old(self).entries@[i as int].0@),
            removed@ == old(self)@[old(self).entries@[i as int].0@],
            final(self).size_counter() == if old(self).size_counter() >= removed.size_bytes {
                (old(self).size_counter() - removed.size_bytes) as usize
            } else {
                0
            },
            final(self).settings() == old(self).settings(),
            final(self).entries@.len() == old(self).entries@.len() - 1,
            final(self).entry_views() == old(self).entry_views().remove(i as int),
    {
        proof {
            use_type_invariant(&*self);
            self.lemma_view_facts();
        }
        let ghost s = self.entry_views();
        let ghost old_map = self@;
        let ghost k = s[i as int].0;
        proof {
            Self::lemma_unique_after_remove(s, i as int);
        }
        let mut es: Vec<(ImageCacheKey, CachedImage)> = Vec::new();
        std::mem::swap(&mut es, &mut self.entries);
        let (_, removed) = es.remove(i);
        assert(es@.map_values(|e: (ImageCacheKey, CachedImage)| (e.0@, e.1@)) =~= s.remove(i as int));
        self.entries = es;
        self.current_size_bytes = self.current_size_bytes.saturating_sub(removed.size_bytes);
        proof {
            let t = self.entry_views();
            assert(t =~= s.remove(i as int));
            let m = old_map.remove(k);
            assert forall|j: int| 0 <= j < t.len() implies m[#[trigger] t[j].0] == t[j].1 by {
                let j2 = if j < i { j } else { j + 1 };
                assert(t[j] == s[j2]);
                assert(s[j2] == (old(self).entries@[j2].0@, old(self).entries@[j2].1@));
            }
            assert forall|q: CacheKey| m.contains_key(q) <==> exists|j: int| 0 <= j < t.len() && t[j].0 == q by {
                assert(has_key(t, q) <==> (q != k && has_key(s, q)));
                if m.contains_key(q) {
                    let j = choose|j: int| 0 <= j < old(self).entries@.len() && #[trigger] old(self).entries@[j].0@ == q;
                    assert(s[j].0 == q);
                }
                if has_key(s, q) {
                    let j = choose|j: int| 0 <= j < s.len() && #[trigger] s[j].0 == q;
                    assert(old(self).entries@[j].0@ == q);
                }
            }
            lemma_map_ext(t, m);
        }
        removed
    }
}

} // verus!

verus! {

impl ImageCache {
    /// Stores the image under the key, replacing the image that the key
    /// had.
    fn insert_entry(&mut self, key: ImageCacheKey, image: CachedImage)
        ensures
            final(self)@ == old(self)@.insert(key@, image@),
            final(self).size_counter() == old(self).size_counter(),
            final(self).settings() == old(self).settings(),
    {
        proof {
            use_type_invariant(&*self);
            self.lemma_view_facts();
        }
        let ghost s = self.entry_views();
        let ghost kv = key@;
        let ghost iv = image@;
        let idx = self.find_index(&key);
        let mut es: Vec<(ImageCacheKey, CachedImage)> = Vec::new();
        std::mem::swap(&mut es, &mut self.entries);
        match idx {
            Some(i) => {
                es.set(i, (key, image));
                let ghost t = es@.map_values(|e: (ImageCacheKey, CachedImage)| (e.0@, e.1@));
                proof {
                    assert(t =~= s.update(i as int, (kv, iv)));
                    assert(unique_keys(t)) by {
                        assert forall|a: int, b: int| 0 <= a < t.len() && 0 <= b < t.len() && a != b implies t[a].0 != t[b].0 by {
                            assert(t[a].0 == s[a].0 && t[b].0 == s[b].0);
                        }
                    }
                    let m = seq_to_map(s).insert(kv, iv);
                    assert forall|j: int| 0 <= j < t.len() implies m[#[trigger] t[j].0] == t[j].1 by {
                        if j != i {
                            assert(t[j] == s[j]);
                            lemma_map_value(s, j);
                            assert(s[j].0 != s[i as int].0);
                        }
                    }
                    assert forall|q: CacheKey| m.contains_key(q) <==> exists|j: int| 0 <= j < t.len() && t[j].0 == q by {
                        lemma_map_contains(s, q);
                        if m.contains_key(q) && q != kv {
                            let j = choose|j: int| 0 <= j < s.len() && s[j].0 == q;
                            assert(t[j].0 == q);
                        }
                        if q == kv {
                            assert(t[i as int].0 == q);
                        }
                        if exists|j: int| 0 <= j < t.len() && t[j].0 == q {
                            let j = choose|j: int| 0 <= j < t.len() && t[j].0 == q;
                            if j != i {
                                assert(s[j].0 == q);
                            }
                        }
                    }
                    lemma_map_ext(t, m);
                }
            }
            None => {
                es.push((key, image));
                let ghost t = es@.map_values(|e: (ImageCacheKey, CachedImage)| (e.0@, e.1@));
                proof {
                    assert(t =~= s.push((kv, iv)));
                    assert(t.drop_last() =~= s);
                    assert(unique_keys(t)) by {
                        assert forall|a: int, b: int| 0 <= a < t.len() && 0 <= b < t.len() && a != b implies t[a].0 != t[b].0 by {
                            if a < s.len() && b < s.len() {
                                assert(t[a] == s[a] && t[b] == s[b]);
                            } else if a < s.len() {
                                assert(t[a] == s[a]);
                                assert(old(self).entries@[a].0@ != kv);
                            } else {
                                assert(t[b] == s[b]);
                                assert(old(self).entries@[b].0@ != kv);
                            }
                        }
                    }
                }
            }
        }
        self.entries = es;
    }

    /// Stores an image. While the cache holds `max_entries` images or more,
    /// or the byte count plus the new image's size passes the size limit,
    /// a least recently used image is evicted (as long as there is one);
    /// then the image is stored under the key and its size added to the
    /// byte count (which stays at its largest value instead of overflowing).
    pub fn put(&mut self, key: ImageCacheKey, image: CachedImage) -> (r: Result<(), String>)
        ensures
            r is Ok,
            final(self).settings() == old(self).settings(),
            exists|evicted: Seq<CacheKey>| #[trigger] put_outcome(
                old(self)@, old(self).size_counter(), old(self).settings(), key@, image@,
                final(self)@, final(self).size_counter(), evicted),
    {
        proof {
            use_type_invariant(&*self);
            self.lemma_view_facts();
        }
        let ghost start = self@;
        let ghost c0 = self.size_counter();
        let ghost mut evicted: Seq<CacheKey> = seq![];
        let incoming = image.size_bytes;
        let limit: u128 = (self.config.max_cache_size_mb as u128) * 1048576u128;
        assert(evicted.take(0) =~= evicted);
        assert(start.remove_keys(evicted.to_set()) =~= start);
        loop
            invariant
                self.settings() == old(self).settings(),
                limit == self.settings().max_cache_size_mb * 1048576,
                start == old(self)@,
                c0 == old(self).size_counter(),
                self@ == kept_after(start, evicted, evicted.len() as int),
                self.size_counter() == count_after(start, c0, evicted, evicted.len() as int),
                evicted.no_duplicates(),
                forall|i: int| 0 <= i < evicted.len() ==> start.contains_key(#[trigger] evicted[i]),
                forall|i: int, q: CacheKey| 0 <= i < evicted.len() && #[trigger] kept_after(start, evicted, i).contains_key(q)
                    ==> start[evicted[i]].last_accessed <= start[q].last_accessed,
                forall|i: int| 0 <= i < evicted.len() ==> over_limit(old(self).settings(),
                    #[trigger] kept_after(start, evicted, i).len(), count_after(start, c0, evicted, i), incoming),
            ensures
                start == old(self)@,
                c0 == old(self).size_counter(),
                self.settings() == old(self).settings(),
                self@ == kept_after(start, evicted, evicted.len() as int),
                self.size_counter() == count_after(start, c0, evicted, evicted.len() as int),
                evicted.no_duplicates(),
                forall|i: int| 0 <= i < evicted.len() ==> start.contains_key(#[trigger] evicted[i]),
                forall|i: int, q: CacheKey| 0 <= i < evicted.len() && #[trigger] kept_after(start, evicted, i).contains_key(q)
                    ==> start[evicted[i]].last_accessed <= start[q].last_accessed,
                forall|i: int| 0 <= i < evicted.len() ==> over_limit(old(self).settings(),
                    #[trigger] kept_after(start, evicted, i).len(), count_after(start, c0, evicted, i), incoming),
                self@.len() == 0 || !over_limit(old(self).settings(), self@.len(), self.size_counter(), incoming),
            decreases self.entries@.len(),
        {
            proof {
                use_type_invariant(&*self);
                self.lemma_view_facts();
            }
            let over = self.entries.len() >= self.config.max_entries
                || (self.current_size_bytes as u128) + (incoming as u128) > limit;
            if !over {
                break;
            }
            match self.find_lru_index() {
                None => {
                    break;
                }
                Some(i) => {
                    let ghost before = self@;
                    let ghost victim = self.entries@[i as int].0@;
                    let ghost n = evicted.len() as int;
                    proof {
                        assert forall|stay: CacheKey| #[trigger] before.contains_key(stay)
                            implies before[victim].last_accessed <= before[stay].last_accessed by {
                            let j = choose|j: int| 0 <= j < self.entries@.len() && #[trigger] self.entries@[j].0@ == stay;
                            assert(self.entries@[i as int].1.last_accessed <= self.entries@[j].1.last_accessed);
                        }
                    }
                    let _ = self.remove_index(i);
                    proof {
                        let e2 = evicted.push(victim);
                        lemma_evict_step(start, c0, evicted, victim);
                        assert(before.contains_key(victim));
                        assert(evicted.take(n) =~= evicted);
                        assert(!evicted.to_set().contains(victim));
                        assert(!evicted.contains(victim));
                        assert forall|a: int, b: int| 0 <= a < b < e2.len() implies e2[a] != e2[b] by {
                            if b == n {
                                assert(evicted.contains(e2[a]));
                            }
                        }
                        assert forall|j: int| 0 <= j <= n implies #[trigger] kept_after(start, e2, j) == kept_after(start, evicted, j)
                            && count_after(start, c0, e2, j) == count_after(start, c0, evicted, j) by {
                            lemma_evict_push(start, c0, evicted, victim, j);
                        }
                        assert forall|j: int, q: CacheKey| 0 <= j < e2.len() && #[trigger] kept_after(start, e2, j).contains_key(q)
                            implies start[e2[j]].last_accessed <= start[q].last_accessed by {
                            assert(kept_after(start, e2, j) == kept_after(start, evicted, j));
                            if j == n {
                                assert(before.contains_key(q));
                            }
                        }
                        assert forall|j: int| 0 <= j < e2.len() implies over_limit(old(self).settings(),
                            #[trigger] kept_after(start, e2, j).len(), count_after(start, c0, e2, j), incoming) by {
                            assert(kept_after(start, e2, j) == kept_after(start, evicted, j));
                        }
                        evicted = e2;
                    }
                }
            }
        }
        let ghost kept = self@;
        let ghost counter = self.current_size_bytes;
        proof {
            use_type_invariant(&*self);
        }
        self.current_size_bytes = self.current_size_bytes.saturating_add(incoming);
        let ghost key_v = key@;
        let ghost img_v = image@;
        self.insert_entry(key, image);
        assert(put_outcome(start, c0, old(self).settings(), key_v, img_v,
            self@, self.size_counter(), evicted));
        Ok(())
    }
}

} // verus!

verus! {

/// The byte count lowered by `size`, not below zero.
pub open spec fn count_minus(count: usize, size: usize) -> usize {
    if count >= size {
        (count - size) as usize
    } else {
        0
    }
}

/// What looking up `k` at time `now` does: a missing key gives nothing and
/// changes nothing; an expired image is dropped (its size taken off the
/// byte count) and nothing is returned; otherwise the image is returned
/// with one more access, accessed at `now`, and stored so.
pub open spec fn get_outcome(
    before: Map<CacheKey, ImageView>,
    before_count: usize,
    k: CacheKey,
    now: u64,
    result: Option<ImageView>,
    after: Map<CacheKey, ImageView>,
    after_count: usize,
) -> bool {
    if !before.contains_key(k) {
        result is None && after == before && after_count == before_count
    } else if expired_at(before[k], now) {
        result is None && after == before.remove(k) && after_count == count_minus(before_count, before[k].size_bytes)
    } else {
        result == Some(touched(before[k], now)) && after == before.insert(k, touched(before[k], now))
            && after_count == before_count
    }
}

/// The view of an optional image.
pub open spec fn opt_image(r: Option<CachedImage>) -> Option<ImageView> {
    match r {
        Some(i) => Some(i@),
        None => None,
    }
}

/// The image of a lookup's result.
pub open spec fn ok_image(r: Result<Option<CachedImage>, String>) -> Option<ImageView> {
    match r {
        Ok(o) => opt_image(o),
        Err(_) => None,
    }
}

/// The key has an image that is not expired at time `now`.
pub open spec fn live_at(m: Map<CacheKey, ImageView>, k: CacheKey, now: u64) -> bool {
    m.contains_key(k) && !expired_at(m[k], now)
}

/// The number in a result, 0 for an error.
pub open spec fn ok_count(r: Result<usize, String>) -> nat {
    match r {
        Ok(n) => n as nat,
        Err(_) => 0,
    }
}

/// What removing the expired images at time `now` does to the map.
pub open spec fn without_expired(m: Map<CacheKey, ImageView>, now: u64) -> Map<CacheKey, ImageView> {
    m.restrict(Set::new(|k: CacheKey| m.contains_key(k) && !expired_at(m[k], now)))
}

impl ImageCache {
    /// Looks an image up at time `now` (see `get_outcome`).
    pub fn get_at(&mut self, key: &ImageCacheKey, now: u64) -> (r: Result<Option<CachedImage>, String>)
        ensures
            r is Ok,
            r matches Ok(o) && get_outcome(old(self)@, old(self).size_counter(), key@, now, opt_image(o),
                final(self)@, final(self).size_counter()),
            final(self).settings() == old(self).settings(),
    {
        proof {
            use_type_invariant(&*self);
            self.lemma_view_facts();
        }
        match self.find_index(key) {
            None => Ok(None),
            Some(i) => {
                if self.entries[i].1.is_expired_at(now) {
                    let _ = self.remove_index(i);
                    Ok(None)
                } else {
                    let mut img = self.entries[i].1.duplicate();
                    img.touch_at(now);
                    let copy = img.duplicate();
                    self.insert_entry(key.duplicate(), img);
                    Ok(Some(copy))
                }
            }
        }
    }

    /// Looks an image up at the current time (see `get_outcome`).
    pub fn get(&mut self, key: &ImageCacheKey) -> (r: Result<Option<CachedImage>, String>)
        ensures
            r is Ok,
            exists|now: u64| #[trigger] get_outcome(old(self)@, old(self).size_counter(), key@, now,
                ok_image(r), final(self)@, final(self).size_counter()),
            final(self).settings() == old(self).settings(),
    {
        let now = unix_time_now();
        self.get_at(key, now)
    }

    /// Whether the key has an image that is not expired at time `now`; the
    /// cache is not changed.
    pub fn contains_key_at(&self, key: &ImageCacheKey, now: u64) -> (r: bool)
        ensures
            r == (self@.contains_key(key@) && !expired_at(self@[key@], now)),
    {
        proof {
            use_type_invariant(self);
            self.lemma_view_facts();
        }
        match self.find_index(key) {
            None => false,
            Some(i) => !self.entries[i].1.is_expired_at(now),
        }
    }

    /// Whether the key has an image that is not expired now.
    pub fn contains_key(&self, key: &ImageCacheKey) -> (r: bool)
        ensures
            exists|now: u64| r == #[trigger] live_at(self@, key@, now),
    {
        let now = unix_time_now();
        let r = self.contains_key_at(key, now);
        assert(r == live_at(self@, key@, now));
        r
    }

    /// Removes the key's image, returning it; its size is taken off the
    /// byte count.
    pub fn remove(&mut self, key: &ImageCacheKey) -> (r: Result<Option<CachedImage>, String>)
        ensures
            r is Ok,
            final(self).settings() == old(self).settings(),
            final(self)@ == old(self)@.remove(key@),
            r matches Ok(o) && opt_image(o) == if old(self)@.contains_key(key@) {
                Some(old(self)@[key@])
            } else {
                None
            },
            final(self).size_counter() == if old(self)@.contains_key(key@) {
                count_minus(old(self).size_counter(), old(self)@[key@].size_bytes)
            } else {
                old(self).size_counter()
            },
    {
        proof {
            use_type_invariant(&*self);
            self.lemma_view_facts();
        }
        match self.find_index(key) {
            None => {
                assert(old(self)@.remove(key@) =~= old(self)@);
                Ok(None)
            }
            Some(i) => {
                let img = self.remove_index(i);
                Ok(Some(img))
            }
        }
    }

    /// Empties the cache and sets the byte count to zero.
    pub fn clear(&mut self) -> (r: Result<(), String>)
        ensures
            r is Ok,
            final(self)@ == Map::<CacheKey, ImageView>::empty(),
            final(self).size_counter() == 0,
            final(self).settings() == old(self).settings(),
    {
        let mut es: Vec<(ImageCacheKey, CachedImage)> = Vec::new();
        std::mem::swap(&mut es, &mut self.entries);
        self.current_size_bytes = 0;
        assert(self.entry_views() =~= Seq::<(CacheKey, ImageView)>::empty());
        Ok(())
    }

    /// The number of images, the byte count, the number of images expired
    /// at time `now`, and the sum of the access counts (at most the largest
    /// `u64`).
    pub fn stats_at(&self, now: u64) -> (r: Result<ImageCacheStats, String>)
        ensures
            r matches Ok(st) && st.total_entries == self@.len() && st.total_size_bytes == self.size_counter()
                && st.expired_entries == self.expired_count_at(now)
                && st.total_access_count == if self.access_sum() > u64::MAX {
                    u64::MAX as nat
                } else {
                    self.access_sum()
                },
    {
        proof {
            use_type_invariant(self);
            self.lemma_view_facts();
        }
        let ghost s = self.entry_views();
        let mut expired: usize = 0;
        let mut access: u64 = 0;
        let mut i: usize = 0;
        assert(s.take(0) =~= Seq::<(CacheKey, ImageView)>::empty());
        while i < self.entries.len()
            invariant
                i <= self.entries@.len(),
                s == self.entry_views(),
                expired == count_expired(s.take(i as int), now),
                expired <= i,
                access == if sum_access(s.take(i as int)) > u64::MAX { u64::MAX as nat } else { sum_access(s.take(i as int)) },
            decreases self.entries.len() - i,
        {
            proof {
                assert(s.take(i + 1).drop_last() =~= s.take(i as int));
                assert(s.take(i + 1).last() == s[i as int]);
            }
            if self.entries[i].1.is_expired_at(now) {
                expired = expired + 1;
            }
            access = access.saturating_add(self.entries[i].1.access_count);
            i = i + 1;
        }
        assert(s.take(i as int) =~= s);
        Ok(ImageCacheStats {
            total_entries: self.entries.len(),
            total_size_bytes: self.current_size_bytes,
            expired_entries: expired,
            total_access_count: access,
        })
    }

    /// The statistics at the current time.
    pub fn stats(&self) -> (r: Result<ImageCacheStats, String>)
        ensures
            r matches Ok(st) && st.total_entries == self@.len() && st.total_size_bytes == self.size_counter()
                && (exists|now: u64| st.expired_entries == #[trigger] self.expired_count_at(now))
                && st.total_access_count == if self.access_sum() > u64::MAX {
                    u64::MAX as nat
                } else {
                    self.access_sum()
                },
    {
        let now = unix_time_now();
        self.stats_at(now)
    }

    /// Drops every image expired at time `now`, taking each one's size off
    /// the byte count (not below zero), and returns how many were dropped.
    pub fn cleanup_expired_at(&mut self, now: u64) -> (r: Result<usize, String>)
        ensures
            r matches Ok(n) && n == old(self).expired_count_at(now),
            final(self)@ == without_expired(old(self)@, now),
            exists|gone: Seq<CacheKey>| #[trigger] lists_expired(old(self)@, now, gone)
                && final(self).size_counter() == count_less(old(self).size_counter(), evicted_size(old(self)@, gone)),
            final(self).settings() == old(self).settings(),
    {
        proof {
            use_type_invariant(&*self);
            self.lemma_view_facts();
        }
        let ghost s = self.entry_views();
        let ghost m0 = self@;
        let ghost c0 = self.size_counter();
        let ghost mut gone: Seq<CacheKey> = seq![];
        let n0 = self.entries.len();
        let mut i: usize = 0;
        let mut removed: usize = 0;
        let ghost mut j: int = 0;
        assert(s.take(0) =~= Seq::<(CacheKey, ImageView)>::empty());
        assert(self.entry_views() =~= live_entries(s.take(0), now) + s.skip(0));
        while i < self.entries.len()
            invariant
                0 <= j <= s.len(),
                self.settings() == old(self).settings(),
                m0 == old(self)@,
                c0 == old(self).size_counter(),
                self.size_counter() == count_less(c0, evicted_size(m0, gone)),
                gone.no_duplicates(),
                forall|q: CacheKey| gone.contains(q) <==> exists|t: int| 0 <= t < j && #[trigger] s[t].0 == q
                    && expired_at(s[t].1, now),
                forall|t: int| 0 <= t < s.len() ==> m0.contains_key(#[trigger] s[t].0) && m0[s[t].0] == s[t].1,
                self.entry_views() == live_entries(s.take(j), now) + s.skip(j),
                i == live_entries(s.take(j), now).len(),
                removed == count_expired(s.take(j), now),
                removed <= j,
                s == old(self).entry_views(),
                s.len() == n0,
                unique_keys(s),
            decreases self.entries@.len() - i,
        {
            proof {
                use_type_invariant(&*self);
                assert(self.entry_views().len() == self.entries@.len());
                assert(j < s.len());
                assert(self.entry_views()[i as int] == s[j]);
                assert(s.take(j + 1).drop_last() =~= s.take(j));
                assert(s.take(j + 1).last() == s[j]);
            }
            if self.entries[i].1.is_expired_at(now) {
                let ghost cb = self.size_counter();
                proof {
                    self.lemma_view_facts();
                    assert(self.entries@[i as int].1@ == s[j].1);
                }
                let dropped = self.remove_index(i);
                removed = removed + 1;
                proof {
                    assert(dropped.size_bytes == s[j].1.size_bytes);
                    assert(evicted_size(m0, gone.push(s[j].0)) == evicted_size(m0, gone) + m0[s[j].0].size_bytes) by {
                        assert(gone.push(s[j].0).drop_last() =~= gone);
                    }
                    assert(self.entry_views() =~= live_entries(s.take(j + 1), now) + s.skip(j + 1));
                    let k = s[j].0;
                    let g2 = gone.push(k);
                    assert(g2.drop_last() =~= gone);
                    assert(!gone.contains(k)) by {
                        if gone.contains(k) {
                            let t = choose|t: int| 0 <= t < j && #[trigger] s[t].0 == k && expired_at(s[t].1, now);
                            assert(s[t].0 != s[j].0);
                        }
                    }
                    assert forall|a: int, b: int| 0 <= a < b < g2.len() implies g2[a] != g2[b] by {
                        if b == gone.len() {
                            assert(gone.contains(g2[a]));
                        }
                    }
                    assert forall|q: CacheKey| g2.contains(q) <==> exists|t: int| 0 <= t < j + 1 && #[trigger] s[t].0 == q
                        && expired_at(s[t].1, now) by {
                        if g2.contains(q) && q != k {
                            let a = choose|a: int| 0 <= a < g2.len() && g2[a] == q;
                            assert(gone[a] == q);
                            assert(gone.contains(q));
                        }
                        if gone.contains(q) {
                            let a = choose|a: int| 0 <= a < gone.len() && gone[a] == q;
                            assert(g2[a] == q);
                        }
                        if q == k {
                            assert(g2[gone.len() as int] == k);
                        }
                    }
                    gone = g2;
                    j = j + 1;
                }
            } else {
                i = i + 1;
                proof {
                    assert(self.entry_views() =~= live_entries(s.take(j + 1), now) + s.skip(j + 1));
                    j = j + 1;
                }
            }
        }
        proof {
            use_type_invariant(&*self);
            assert(j == s.len());
            assert(s.take(j) =~= s);
            assert(s.skip(j) =~= Seq::<(CacheKey, ImageView)>::empty());
            assert(self.entry_views() =~= live_entries(s, now));
            Self::lemma_live_map(s, now);
            assert forall|q: CacheKey| gone.contains(q) <==> m0.contains_key(q) && expired_at(m0[q], now) by {
                if m0.contains_key(q) {
                    let t = choose|t: int| 0 <= t < old(self).entries@.len() && #[trigger] old(self).entries@[t].0@ == q;
                    assert(s[t].0 == q);
                }
            }
            assert(lists_expired(m0, now, gone));
        }
        Ok(removed)
    }

    proof fn lemma_live_map(s: Seq<(CacheKey, ImageView)>, now: u64)
        requires
            unique_keys(s),
        ensures
            seq_to_map(live_entries(s, now)) == without_expired(seq_to_map(s), now),
        decreases s.len(),
    {
        lemma_map_contains(s, arbitrary());
        if s.len() > 0 {
            let t = s.drop_last();
            assert(unique_keys(t)) by {
                assert forall|a: int, b: int| 0 <= a < t.len() && 0 <= b < t.len() && a != b implies t[a].0 != t[b].0 by {
                    assert(t[a] == s[a] && t[b] == s[b]);
                }
            }
            Self::lemma_live_map(t, now);
            lemma_map_contains(t, s.last().0);
            let k = s.last().0;
            assert(!seq_to_map(t).contains_key(k)) by {
                if seq_to_map(t).contains_key(k) {
                    let i = choose|i: int| 0 <= i < t.len() && t[i].0 == k;
                    assert(s[i].0 == s[s.len() - 1].0);
                }
            }
            let live_t = live_entries(t, now);
            if expired_at(s.last().1, now) {
                assert(without_expired(seq_to_map(s), now) =~= without_expired(seq_to_map(t), now));
            } else {
                assert(live_entries(s, now).drop_last() =~= live_t);
                assert(without_expired(seq_to_map(s), now) =~= without_expired(seq_to_map(t), now).insert(k, s.last().1));
            }
        }
    }

    /// Drops every image expired now and returns how many were dropped.
    pub fn cleanup_expired(&mut self) -> (r: Result<usize, String>)
        ensures
            r is Ok,
            exists|now: u64, gone: Seq<CacheKey>| ok_count(r) == old(self).expired_count_at(now)
                && final(self)@ == without_expired(old(self)@, now)
                && #[trigger] lists_expired(old(self)@, now, gone)
                && final(self).size_counter() == count_less(old(self).size_counter(), evicted_size(old(self)@, gone)),
            final(self).settings() == old(self).settings(),
    {
        let now = unix_time_now();
        self.cleanup_expired_at(now)
    }
}

} // verus!

verus! {

/// The format and bytes of a data URL: the header before the first comma
/// gives the format, the Base64 after it the bytes.
pub open spec fn data_url_image(s: Seq<char>) -> Option<(ImageFormatKind, Seq<u8>)> {
    match first_index_of(s, ',') {
        None => None,
        Some(i) => match base64_decoded(s.skip(i + 1)) {
            None => None,
            Some(d) => Some((format_of_header(s.take(i)), d)),
        },
    }
}

/// The result of caching a data URL under `k` at time `now`.
pub open spec fn cache_data_url_outcome(
    before: Map<CacheKey, ImageView>,
    before_count: usize,
    config: ImageCacheConfig,
    k: CacheKey,
    data_url: Seq<char>,
    ttl: Option<u64>,
    now: u64,
    result: Result<ImageView, Seq<char>>,
    after: Map<CacheKey, ImageView>,
    after_count: usize,
) -> bool {
    match data_url_image(data_url) {
        None => result == Err::<ImageView, Seq<char>>("Invalid base64 image data"@) && after == before
            && after_count == before_count,
        Some((f, d)) => result == Ok::<ImageView, Seq<char>>(fresh_image(d, f, ttl, now))
            && exists|evicted: Seq<CacheKey>| #[trigger] put_outcome(
                before, before_count, config, k, fresh_image(d, f, ttl, now), after, after_count, evicted),
    }
}

/// The view of the result of caching a data URL.
pub open spec fn cache_result(r: Result<CachedImage, String>) -> Result<ImageView, Seq<char>> {
    match r {
        Ok(i) => Ok(i@),
        Err(e) => Err(e@),
    }
}

impl ImageCache {
    /// Decodes a data URL and stores the image (made at time `now`) under
    /// the key with `put`; refuses text that is not a data URL with valid
    /// Base64.
    pub fn process_and_cache_base64_at(
        &mut self,
        key: ImageCacheKey,
        base64_data: &str,
        ttl_seconds: Option<u64>,
        now: u64,
    ) -> (r: Result<CachedImage, String>)
        ensures
            cache_data_url_outcome(old(self)@, old(self).size_counter(), old(self).settings(), key@, base64_data@,
                ttl_seconds, now, cache_result(r), final(self)@, final(self).size_counter()),
            final(self).settings() == old(self).settings(),
    {
        match ImageFormat::from_base64_data_url(base64_data) {
            Some((format, data)) => {
                let image = CachedImage::new_at(data, format, ttl_seconds, now);
                let copy = image.duplicate();
                let ghost kv = key@;
                let _ = self.put(key, copy);
                Ok(image)
            }
            None => Err("Invalid base64 image data".to_string()),
        }
    }

    /// Decodes a data URL and stores the image, made now, under the key.
    pub fn process_and_cache_base64(
        &mut self,
        key: ImageCacheKey,
        base64_data: &str,
        ttl_seconds: Option<u64>,
    ) -> (r: Result<CachedImage, String>)
        ensures
            exists|now: u64| #[trigger] cache_data_url_outcome(old(self)@, old(self).size_counter(), old(self).settings(),
                key@, base64_data@, ttl_seconds, now, cache_result(r), final(self)@, final(self).size_counter()),
            final(self).settings() == old(self).settings(),
    {
        let now = unix_time_now();
        self.process_and_cache_base64_at(key, base64_data, ttl_seconds, now)
    }
}

} // verus!
