use stander_service::memory::{
    should_reclaim, CacheEntries,
    force_gc, get_memory_manager, get_memory_stats, init_memory_manager, GcConfig, MemoryManager,
    MemoryStats, MIB, RECLAIM_AGE_MS,
};

fn config(threshold_mb: usize) -> GcConfig {
    GcConfig {
        max_memory_mb: 512,
        gc_interval_seconds: 300,
        force_gc_threshold_mb: threshold_mb,
        enable_auto_gc: true,
    }
}

#[test]
fn default_config_values() {
    let c = GcConfig::default();
    assert_eq!(c.max_memory_mb, 512);
    assert_eq!(c.gc_interval_seconds, 300);
    assert_eq!(c.force_gc_threshold_mb, 256);
    assert!(c.enable_auto_gc);
}

#[test]
fn overwrite_counts_only_the_new_payload() {
    let mut m = MemoryManager::new(config(256));
    m.cache_data("k".to_string(), vec![1u8; 100], 0);
    m.cache_data("k".to_string(), vec![2u8; 30], 5);
    let stats = m.get_stats();
    assert_eq!(stats.allocated_bytes, 30);
    assert_eq!(stats.peak_allocated_bytes, 100);
    assert_eq!(m.get_cached_data("k"), Some(vec![2u8; 30]));
}

#[test]
fn entries_expire_after_an_hour() {
    let mut m = MemoryManager::new(config(256));
    m.cache_data("old".to_string(), vec![0u8; 40], 1000);
    m.cache_data("new".to_string(), vec![0u8; 10], 1000 + RECLAIM_AGE_MS);
    let before = m.get_stats();
    assert_eq!(before.allocated_bytes, 50);
    m.force_gc(1000 + RECLAIM_AGE_MS + 1);
    let after = m.get_stats();
    assert_eq!(m.get_cached_data("old"), None);
    assert_eq!(m.get_cached_data("new"), Some(vec![0u8; 10]));
    assert_eq!(after.allocated_bytes, before.allocated_bytes - 40);
    assert_eq!(after.gc_runs, before.gc_runs + 1);
    assert_eq!(after.last_gc_time, Some(1000 + RECLAIM_AGE_MS + 1));
}

#[test]
fn an_entry_exactly_an_hour_old_stays() {
    let mut m = MemoryManager::new(config(256));
    m.cache_data("k".to_string(), vec![0u8; 5], 0);
    m.force_gc(RECLAIM_AGE_MS);
    assert_eq!(m.get_cached_data("k"), Some(vec![0u8; 5]));
    assert_eq!(m.get_stats().gc_runs, 1);
}

#[test]
fn forced_pass_that_frees_nothing_still_counts() {
    let mut m = MemoryManager::new(config(256));
    m.force_gc(7);
    let s = m.get_stats();
    assert_eq!(s.gc_runs, 1);
    assert_eq!(s.last_gc_time, Some(7));
    assert_eq!(s.allocated_bytes, 0);
}

#[test]
fn threshold_tick_runs_a_pass_but_keeps_fresh_entries() {
    let mut m = MemoryManager::new(config(256));
    let chunk = 100 * MIB as usize;
    m.cache_data("a".to_string(), vec![0u8; chunk], 10);
    m.cache_data("b".to_string(), vec![0u8; chunk], 20);
    m.cache_data("c".to_string(), vec![0u8; chunk], 30);
    assert!(m.should_auto_gc());
    assert!(m.auto_gc_tick(60_000));
    let s = m.get_stats();
    assert_eq!(s.gc_runs, 1);
    assert_eq!(s.allocated_bytes, 3 * chunk);
    assert!(m.get_cached_data("a").is_some());
}

#[test]
fn tick_below_threshold_does_nothing() {
    let mut m = MemoryManager::new(config(1));
    m.cache_data("a".to_string(), vec![0u8; 10], 0);
    assert!(!m.auto_gc_tick(RECLAIM_AGE_MS * 2));
    assert_eq!(m.get_stats().gc_runs, 0);
    assert!(m.get_cached_data("a").is_some());
}

#[test]
fn tick_with_auto_reclaim_off_does_nothing() {
    let mut c = config(0);
    c.enable_auto_gc = false;
    let mut m = MemoryManager::new(c);
    m.cache_data("a".to_string(), vec![0u8; 10], 0);
    assert!(!m.should_auto_gc());
    assert!(!m.auto_gc_tick(RECLAIM_AGE_MS * 2));
}

#[test]
fn remove_reports_and_adjusts_usage() {
    let mut m = MemoryManager::new(config(256));
    m.cache_data("a".to_string(), vec![0u8; 10], 0);
    m.cache_data("b".to_string(), vec![0u8; 7], 0);
    assert!(m.remove_cached_data("a"));
    assert!(!m.remove_cached_data("a"));
    assert!(!m.remove_cached_data("zzz"));
    assert_eq!(m.get_stats().allocated_bytes, 7);
}

#[test]
fn get_returns_an_independent_copy() {
    let mut m = MemoryManager::new(config(256));
    m.cache_data("a".to_string(), vec![1, 2, 3], 0);
    let mut copy = m.get_cached_data("a").unwrap();
    copy[0] = 9;
    assert_eq!(m.get_cached_data("a"), Some(vec![1, 2, 3]));
    assert_eq!(m.get_cached_data("missing"), None);
}

#[test]
fn clear_keeps_peak_and_history() {
    let mut m = MemoryManager::new(config(256));
    m.cache_data("a".to_string(), vec![0u8; 10], 0);
    m.force_gc(1);
    m.clear_cache();
    let s = m.get_stats();
    assert_eq!(s.allocated_bytes, 0);
    assert_eq!(s.peak_allocated_bytes, 10);
    assert_eq!(s.gc_runs, 1);
    assert_eq!(m.get_cached_data("a"), None);
}

#[test]
fn unconfigured_slot_is_unavailable() {
    let mut slot: Option<MemoryManager> = None;
    assert!(get_memory_manager(&slot).is_none());
    assert_eq!(get_memory_stats(&slot), None);
    assert!(!force_gc(&mut slot, 0));
    init_memory_manager(&mut slot, Some(config(64)));
    assert_eq!(get_memory_manager(&slot).unwrap().config().force_gc_threshold_mb, 64);
    init_memory_manager(&mut slot, None);
    assert_eq!(get_memory_manager(&slot).unwrap().config().force_gc_threshold_mb, 64);
    assert!(force_gc(&mut slot, 5));
    assert_eq!(
        get_memory_stats(&slot),
        Some(MemoryStats {
            allocated_bytes: 0,
            peak_allocated_bytes: 0,
            gc_runs: 1,
            last_gc_time: Some(5),
        })
    );
}

#[test]
fn default_slot_configuration() {
    let mut slot: Option<MemoryManager> = None;
    init_memory_manager(&mut slot, None);
    assert_eq!(get_memory_manager(&slot).unwrap().config().force_gc_threshold_mb, 256);
}

#[test]
fn entries_and_statistics_used_as_separate_parts() {
    let mut entries = CacheEntries::new();
    let mut stats = MemoryStats {
        allocated_bytes: 0,
        peak_allocated_bytes: 0,
        gc_runs: 0,
        last_gc_time: None,
    };
    let released = entries.insert("k".to_string(), vec![0u8; 8], 0);
    stats.record_put(released, 8);
    let released = entries.insert("k".to_string(), vec![0u8; 3], 1);
    assert_eq!(released, 8);
    stats.record_put(released, 3);
    assert_eq!((stats.allocated_bytes, stats.peak_allocated_bytes), (3, 8));
    assert_eq!(entries.held_bytes(), 3);
    let freed = entries.reclaim(RECLAIM_AGE_MS + 2);
    stats.record_pass(freed, RECLAIM_AGE_MS + 2);
    assert_eq!(freed, 3);
    assert_eq!(stats.allocated_bytes, 0);
    assert_eq!(stats.gc_runs, 1);
    assert_eq!(entries.remove("k"), None);
    stats.record_remove(10);
    assert_eq!(stats.allocated_bytes, 0);
    entries.insert("a".to_string(), vec![1], 0);
    entries.clear();
    stats.record_clear();
    assert_eq!(entries.get("a"), None);
    assert!(should_reclaim(&GcConfig::default(), 256 * MIB as usize + 1));
    assert!(!should_reclaim(&GcConfig::default(), 256 * MIB as usize));
}
