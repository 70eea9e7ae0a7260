use rasterkit::cache::TileCache;
use rasterkit::cache_prefetch::{AccessPattern, PrefetchConfig};

#[test]
fn test_cache_basic() {
    let mut cache = TileCache::new(2);

    let data1 = vec![1, 2, 3];
    cache.put(0, 0, data1.clone());

    assert_eq!(cache.len(), 1);
    assert_eq!(*cache.get(0, 0).unwrap(), data1);
}

#[test]
fn test_cache_lru_eviction() {
    let mut cache = TileCache::new(2);

    cache.put(0, 0, vec![1]);
    cache.put(0, 1, vec![2]);
    cache.put(0, 2, vec![3]);

    assert!(cache.len() <= 2);
}

#[test]
fn test_cache_clear() {
    let mut cache = TileCache::new(10);

    cache.put(0, 0, vec![1]);
    cache.put(0, 1, vec![2]);

    assert_eq!(cache.len(), 2);

    cache.clear();

    assert_eq!(cache.len(), 0);
    assert!(cache.is_empty());
}

#[test]
fn test_cache_stats() {
    let mut cache = TileCache::new(10);

    cache.put(0, 0, vec![1, 2, 3]);
    cache.put(0, 1, vec![4, 5]);

    let stats = cache.stats();
    assert_eq!(stats.tile_count, 2);
    assert_eq!(stats.total_bytes, 5);
    assert_eq!(stats.max_tiles, 10);
}

#[test]
fn cache_evicts_in_the_order_of_the_queue() {
    let mut cache = TileCache::new(2);
    cache.put(0, 0, vec![1]);
    cache.put(0, 1, vec![2]);
    cache.put(0, 2, vec![3]);
    assert_eq!(cache.len(), 2);
    assert!(cache.get(0, 0).is_none());
    assert_eq!(*cache.get(0, 1).unwrap(), vec![2]);
    assert_eq!(*cache.get(0, 2).unwrap(), vec![3]);
}

#[test]
fn cache_queue_may_drop_a_tile_that_was_just_used() {
    // the queue holds (0,0) (0,1); finding (0,0) adds it once more at the back,
    // yet its first occurrence still stands at the front
    let mut cache = TileCache::new(2);
    cache.put(0, 0, vec![1]);
    cache.put(0, 1, vec![2]);
    assert!(cache.get(0, 0).is_some());
    cache.put(0, 2, vec![3]);
    assert!(cache.get(0, 0).is_none());
    assert!(cache.get(0, 1).is_some());
    assert!(cache.get(0, 2).is_some());
}

#[test]
fn cache_bound_after_many_puts() {
    for limit in [1usize, 2, 3, 7] {
        let mut cache = TileCache::new(limit);
        for round in 0..5usize {
            for tile in 0..20usize {
                cache.put(round % 2, tile, vec![tile as u8; 4]);
                let _ = cache.get(0, tile / 2);
                assert!(cache.len() <= limit);
            }
        }
        assert_eq!(cache.stats().max_tiles, limit);
    }
}

#[test]
fn cache_of_zero_tiles_holds_one() {
    let mut cache = TileCache::new(0);
    assert_eq!(cache.stats().max_tiles, 1);
    cache.put(3, 4, vec![9]);
    assert_eq!(cache.len(), 1);
    cache.put(3, 5, vec![8]);
    assert_eq!(cache.len(), 1);
    assert!(cache.get(3, 4).is_none());
    assert_eq!(*cache.get(3, 5).unwrap(), vec![8]);
}

#[test]
fn cache_put_replaces_the_tile_of_a_key() {
    let mut cache = TileCache::new(4);
    cache.put(1, 1, vec![1]);
    cache.put(1, 1, vec![2, 2]);
    assert_eq!(cache.len(), 1);
    assert_eq!(*cache.get(1, 1).unwrap(), vec![2, 2]);
    assert_eq!(cache.stats().total_bytes, 2);
    assert!(!cache.is_empty());
    let empty = TileCache::default();
    assert!(empty.is_empty());
    assert_eq!(empty.stats().max_tiles, 256);
    assert_eq!(empty.stats().total_bytes, 0);
}

#[test]
fn test_sequential_detection() {
    let mut pattern = AccessPattern::new(100);

    pattern.record(10);
    pattern.record(11);
    pattern.record(12);

    let predicted = pattern.predict_next();
    assert_eq!(predicted.len(), 16);
    assert_eq!(predicted[0], 13);
    assert_eq!(predicted[15], 28);
}

#[test]
fn test_raster_scan_detection() {
    let mut pattern = AccessPattern::new(10);

    pattern.record(0);
    pattern.record(1);
    pattern.record(2);
    pattern.record(10);

    let predicted = pattern.predict_next();
    assert!(predicted.contains(&20) || predicted.contains(&11));
}

#[test]
fn test_spatial_locality() {
    let mut pattern = AccessPattern::new(10);

    pattern.record(5);
    pattern.record(47);
    pattern.record(23);

    let predicted = pattern.predict_next();
    assert!(!predicted.is_empty());
    assert!(predicted.contains(&24) || predicted.contains(&33));
}

#[test]
fn test_no_pattern() {
    let mut pattern = AccessPattern::new(10);

    pattern.record(5);
    pattern.record(47);
    pattern.record(23);
    pattern.record(91);

    let predicted = pattern.predict_next();
    assert!(!predicted.is_empty());
}

#[test]
fn predictor_emits_exactly_the_next_sixteen() {
    let mut pattern = AccessPattern::new(100);
    pattern.record(10);
    pattern.record(11);
    pattern.record(12);
    assert!(pattern.predictable());
    let expected: Vec<usize> = (13..=28).collect();
    assert_eq!(pattern.predict_next(), expected);
}

#[test]
fn predictor_needs_three_accesses() {
    let mut pattern = AccessPattern::new(10);
    assert_eq!(pattern.predict_next(), Vec::<usize>::new());
    pattern.record(1);
    pattern.record(2);
    assert_eq!(pattern.predict_next(), Vec::<usize>::new());
}

#[test]
fn predictor_follows_the_stride_of_a_row() {
    let mut pattern = AccessPattern::new(10);
    pattern.record(0);
    pattern.record(1);
    pattern.record(2);
    pattern.record(12);
    let expected: Vec<usize> = (1..=16).map(|i| 12 + i * 10).collect();
    assert_eq!(pattern.predict_next(), expected);
}

#[test]
fn predictor_follows_a_last_stride_of_one() {
    let mut pattern = AccessPattern::new(10);
    pattern.record(40);
    pattern.record(7);
    pattern.record(8);
    let expected: Vec<usize> = (9..=24).collect();
    assert_eq!(pattern.predict_next(), expected);
}

#[test]
fn predictor_neighbourhood_stops_at_the_end_of_the_row() {
    let mut pattern = AccessPattern::new(10);
    pattern.record(5);
    pattern.record(47);
    pattern.record(23);
    // tile 23 is column 3 of row 2: columns 3..=6 of rows 2..=5, without 23 itself
    let expected: Vec<usize> =
        vec![24, 25, 26, 33, 34, 35, 36, 43, 44, 45, 46, 53, 54, 55, 56];
    assert_eq!(pattern.predict_next(), expected);

    let mut edge = AccessPattern::new(10);
    edge.record(5);
    edge.record(47);
    edge.record(28);
    // column 8: only columns 8 and 9 exist
    assert_eq!(edge.predict_next(), vec![29, 38, 39, 48, 49, 58, 59]);
}

#[test]
fn predictor_keeps_the_eight_latest() {
    let mut pattern = AccessPattern::new(100);
    pattern.record(500);
    for t in 0..8usize {
        pattern.record(t);
    }
    // 500 has left the history, which is now 0..=7
    let expected: Vec<usize> = (8..=23).collect();
    assert_eq!(pattern.predict_next(), expected);
}

#[test]
fn predictor_says_when_it_cannot_predict() {
    // with fewer than three accesses nothing is predicted, so nothing is needed
    let mut no_rows = AccessPattern::new(0);
    no_rows.record(1);
    assert!(no_rows.predictable());
    assert_eq!(no_rows.predict_next(), Vec::<usize>::new());
    let mut far = AccessPattern::new(4);
    far.record(usize::MAX - 10);
    assert!(far.predictable());
    assert!(AccessPattern::new(3).predictable());

    // a run needs room for sixteen tiles, whatever the length of a row
    no_rows.record(2);
    no_rows.record(3);
    assert!(no_rows.predictable());
    let expected: Vec<usize> = (4..=19).collect();
    assert_eq!(no_rows.predict_next(), expected);
    let mut wide = AccessPattern::new(usize::MAX);
    for t in [usize::MAX - 18, usize::MAX - 17, usize::MAX - 16] {
        wide.record(t);
    }
    assert!(wide.predictable());
    assert_eq!(wide.predict_next().last(), Some(&usize::MAX));
    wide.record(usize::MAX - 15);
    assert!(!wide.predictable());

    // a stride of one row needs room for sixteen rows
    let mut rows = AccessPattern::new(4);
    for t in [9, 3, usize::MAX - 68, usize::MAX - 64] {
        rows.record(t);
    }
    assert!(rows.predictable());
    assert_eq!(rows.predict_next().last(), Some(&usize::MAX));
    let mut short = AccessPattern::new(4);
    for t in [9, 3, usize::MAX - 67, usize::MAX - 63] {
        short.record(t);
    }
    assert!(!short.predictable());

    // the tiles around the last one need rows of at least one tile
    let mut jump = AccessPattern::new(0);
    for t in [5, 47, 23] {
        jump.record(t);
    }
    assert!(!jump.predictable());
    // and room for the three rows below
    let last = usize::MAX - 15;
    assert_eq!(last % 4, 0);
    let mut near = AccessPattern::new(4);
    for t in [5, 47, last] {
        near.record(t);
    }
    assert!(near.predictable());
    assert_eq!(near.predict_next().last(), Some(&usize::MAX));
    let mut beyond = AccessPattern::new(4);
    for t in [5, 47, last + 4] {
        beyond.record(t);
    }
    assert!(!beyond.predictable());
}

#[test]
fn prefetch_configurations() {
    let default = PrefetchConfig::default();
    assert!(default.enabled && default.spatial && default.sequential && default.raster_scan);
    assert_eq!(default.max_prefetch, 8);
    let disabled = PrefetchConfig::disabled();
    assert!(!disabled.enabled && !disabled.spatial && !disabled.sequential && !disabled.raster_scan);
    assert_eq!(disabled.max_prefetch, 0);
    let aggressive = PrefetchConfig::aggressive();
    assert!(aggressive.enabled && aggressive.spatial);
    assert!(aggressive.sequential && aggressive.raster_scan);
    assert_eq!(aggressive.max_prefetch, 16);
}
