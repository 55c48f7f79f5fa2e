use loopers_gui::cache::{CacheKey, CachePlan, DrawCache};
use loopers_gui::track::LooperMode;

fn key(length: u64) -> CacheKey {
    CacheKey::Waveform { length, last_time: 7, mode: LooperMode::Playing }
}

#[test]
fn renders_once_per_key_and_size() {
    let mut cache: DrawCache<u32> = DrawCache::new();
    assert!(cache.image().is_none());
    assert_eq!(cache.plan(key(10), 100, 20, true), CachePlan::Render { width: 400, height: 80 });
    cache.store(key(10), 400, 80, 1);
    assert_eq!(cache.plan(key(10), 100, 20, true), CachePlan::Reuse);
    assert_eq!(cache.plan(key(10), 100, 20, true), CachePlan::Reuse);
    assert_eq!(cache.image(), Some(&1));
    // another key
    assert_eq!(cache.plan(key(11), 100, 20, true), CachePlan::Render { width: 400, height: 80 });
    // another size
    assert_eq!(cache.plan(key(10), 101, 20, true), CachePlan::Render { width: 404, height: 80 });
    cache.store(key(10), 404, 80, 2);
    assert_eq!(cache.plan(key(10), 101, 20, true), CachePlan::Reuse);
    assert_eq!(cache.plan(key(10), 100, 20, true), CachePlan::Render { width: 400, height: 80 });
    assert_eq!(cache.image(), Some(&2));
}

#[test]
fn bypass_draws_directly() {
    let mut cache: DrawCache<u32> = DrawCache::new();
    cache.store(key(10), 400, 80, 1);
    assert_eq!(cache.plan(key(10), 100, 20, false), CachePlan::Direct);
    let beats = CacheKey::Beats { samples_per_beat: 24_000, beats_per_bar: 4, beat_unit: 4 };
    assert_eq!(cache.plan(beats, 100, 20, true), CachePlan::Render { width: 400, height: 80 });
}
