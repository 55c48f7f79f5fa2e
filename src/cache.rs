//! Memoization of an expensive draw into a supersampled bitmap.
//!
//! The cache holds the bitmap together with the fingerprint and pixel size it
//! was drawn for. A request either draws straight to the live canvas, reuses
//! the bitmap, or asks the caller to draw a fresh one and `store` it.
use vstd::prelude::*;
use crate::track::LooperMode;

verus! {

/// Supersampling multiplier applied to the requested size before drawing.
pub const IMAGE_SCALE: u32 = 4;

/// Fingerprint of cached content; equality is the sole staleness test.
#[derive(Clone, Copy, Debug, PartialEq, Eq, Structural)]
pub enum CacheKey {
    /// A loop's waveform: its length, last modification time and mode.
    Waveform { length: u64, last_time: i64, mode: LooperMode },
    /// The beat grid: beat length in samples and the time signature.
    Beats { samples_per_beat: u64, beats_per_bar: u8, beat_unit: u8 },
}

/// What the caller does for one draw request.
#[derive(Clone, Copy, Debug, PartialEq, Eq, Structural)]
pub enum CachePlan {
    /// Draw directly to the live canvas; the cache is bypassed.
    Direct,
    /// Draw into a new offscreen bitmap of this pixel size, `store` it, then
    /// blit it at `1 / IMAGE_SCALE`.
    Render { width: u64, height: u64 },
    /// Blit the stored bitmap at `1 / IMAGE_SCALE`.
    Reuse,
}

/// A cached bitmap of type `I` with the fingerprint and size it was drawn for.
pub struct DrawCache<I> {
    image: Option<I>,
    key: Option<CacheKey>,
    width: u64,
    height: u64,
}

/// Supersampled pixel size of a requested dimension.
pub open spec fn scaled(d: u32) -> u64 {
    (d * IMAGE_SCALE) as u64
}

impl<I> DrawCache<I> {
    pub closed spec fn stored_image(&self) -> Option<I> {
        self.image
    }

    pub closed spec fn stored_key(&self) -> Option<CacheKey> {
        self.key
    }

    pub closed spec fn stored_size(&self) -> (u64, u64) {
        (self.width, self.height)
    }

    /// The stored bitmap is valid for `key` at pixel size `(width, height)`.
    pub open spec fn holds(&self, key: CacheKey, width: u64, height: u64) -> bool {
        &&& self.stored_image().is_some()
        &&& self.stored_key() == Some(key)
        &&& self.stored_size() == (width, height)
    }

    /// The plan for a request of `(w, h)` pixels under `key`.
    pub open spec fn plan_spec(&self, key: CacheKey, w: u32, h: u32, use_cache: bool) -> CachePlan {
        if !use_cache {
            CachePlan::Direct
        } else if self.holds(key, scaled(w), scaled(h)) {
            CachePlan::Reuse
        } else {
            CachePlan::Render { width: scaled(w), height: scaled(h) }
        }
    }

    pub fn new() -> (r: Self)
        ensures
            r.stored_image().is_none(),
            r.stored_key().is_none(),
    {
        DrawCache { image: None, key: None, width: 0, height: 0 }
    }

    /// Decides how to serve a draw of `(w, h)` pixels under `key`.
    pub fn plan(&self, key: CacheKey, w: u32, h: u32, use_cache: bool) -> (r: CachePlan)
        ensures
            r == self.plan_spec(key, w, h, use_cache),
    {
        if !use_cache {
            return CachePlan::Direct;
        }
        let width: u64 = (w as u64) * (IMAGE_SCALE as u64);
        let height: u64 = (h as u64) * (IMAGE_SCALE as u64);
        let fresh: bool = match self.key {
            Some(k) => self.image.is_some() && k == key && self.width == width && self.height
                == height,
            None => false,
        };
        if fresh {
            CachePlan::Reuse
        } else {
            CachePlan::Render { width, height }
        }
    }

    /// Keeps `image`, drawn for `key` at `(width, height)` pixels, in place of
    /// the previous bitmap.
    pub fn store(&mut self, key: CacheKey, width: u64, height: u64, image: I)
        ensures
            final(self).stored_image() == Some(image),
            final(self).stored_key() == Some(key),
            final(self).stored_size() == (width, height),
    {
        self.image = Some(image);
        self.key = Some(key);
        self.width = width;
        self.height = height;
    }

    /// The stored bitmap, if any.
    pub fn image(&self) -> (r: Option<&I>)
        ensures
            r == match self.stored_image() {
                Some(i) => Some(&i),
                None => None::<&I>,
            },
    {
        match &self.image {
            Some(i) => Some(i),
            None => None,
        }
    }
}

/// After a bitmap is rendered and stored for a fingerprint and size, a
/// request with the same fingerprint and size reuses it, and a request with
/// another fingerprint or another size renders again: a fresh render happens
/// once per distinct pair.
pub proof fn lemma_render_once_per_key<I>(
    before: DrawCache<I>,
    after: DrawCache<I>,
    key: CacheKey,
    w: u32,
    h: u32,
    image: I,
    other: CacheKey,
    w2: u32,
    h2: u32,
)
    requires
        before.plan_spec(key, w, h, true) == (CachePlan::Render { width: scaled(w), height: scaled(h) }),
        after.stored_image() == Some(image),
        after.stored_key() == Some(key),
        after.stored_size() == (scaled(w), scaled(h)),
    ensures
        after.plan_spec(key, w, h, true) == CachePlan::Reuse,
        (other != key || w2 != w || h2 != h) ==> after.plan_spec(other, w2, h2, true)
            == (CachePlan::Render { width: scaled(w2), height: scaled(h2) }),
{
}

} // verus!
