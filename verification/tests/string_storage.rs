use parquet_ruby_adapter::string_storage::{
    KeyValue, SharedLeakInterner, SharedLeakRegistry, StringStorage, StringStorageConfig,
    StringStorageMode, DEFAULT_SHARED_MAX_ENTRIES,
    DEFAULT_SHARED_MAX_VALUE_BYTES, SHARED_FALLBACK_CACHE_ENTRY_COUNT_MAX,
    SHARED_FALLBACK_CACHE_RETAINED_BYTES_MAX,
};

#[test]
fn interns_distinct_values_once_and_reuses_pointer() {
    let mut registry = SharedLeakRegistry::new();
    let mut interner =
        SharedLeakInterner::new(DEFAULT_SHARED_MAX_ENTRIES, DEFAULT_SHARED_MAX_VALUE_BYTES);

    let first = interner.intern(&mut registry, "repeat").unwrap();
    let second = interner.intern(&mut registry, "repeat").unwrap();
    let other = interner.intern(&mut registry, "different").unwrap();

    // Equal values share the same leaked allocation.
    assert_eq!(first.as_ptr(), second.as_ptr());
    assert_eq!(first, "repeat");
    // Distinct values get distinct allocations with the right contents.
    assert_ne!(first.as_ptr(), other.as_ptr());
    assert_eq!(other, "different");
    assert_eq!(registry.len(), 2);
}

#[test]
fn leak_is_bounded_and_falls_back_past_the_cap() {
    let mut registry = SharedLeakRegistry::new();
    let max_entries = 4;
    let mut interner = SharedLeakInterner::new(max_entries, DEFAULT_SHARED_MAX_VALUE_BYTES);

    for index in 0..max_entries {
        assert!(interner.intern(&mut registry, &format!("value-{index}")).is_some());
    }
    assert_eq!(registry.len(), max_entries);

    // A new distinct value past the cap is not leaked; caller must copy.
    assert!(interner.intern(&mut registry, "over-the-bound").is_none());
    assert_eq!(registry.len(), max_entries);

    // A value already interned still resolves even after the cap is hit.
    assert!(interner.intern(&mut registry, "value-0").is_some());
    assert_eq!(registry.len(), max_entries);
}

#[test]
fn oversized_values_are_not_leaked() {
    let mut registry = SharedLeakRegistry::new();
    let mut interner =
        SharedLeakInterner::new(DEFAULT_SHARED_MAX_ENTRIES, DEFAULT_SHARED_MAX_VALUE_BYTES);

    let at_limit = "x".repeat(DEFAULT_SHARED_MAX_VALUE_BYTES);
    let over_limit = "x".repeat(DEFAULT_SHARED_MAX_VALUE_BYTES + 1);

    assert!(interner.intern(&mut registry, &at_limit).is_some());
    assert!(interner.intern(&mut registry, &over_limit).is_none());
    // Only the in-bound value was leaked.
    assert_eq!(registry.len(), 1);
    assert!(
        interner.fallback_count() == 0,
        "oversized fallbacks must not be retained in the per-read cache"
    );
    assert_eq!(interner.fallback_bytes(), 0);
}

#[test]
fn fallback_cache_retained_bytes_are_bounded() {
    let mut registry = SharedLeakRegistry::new();
    let mut first = SharedLeakInterner::new(1, DEFAULT_SHARED_MAX_VALUE_BYTES);
    assert!(first.intern(&mut registry, "already-leaked").is_some());

    let mut second = SharedLeakInterner::new(1, DEFAULT_SHARED_MAX_VALUE_BYTES);
    let suffix = "x".repeat(1024);
    for index in 0..(SHARED_FALLBACK_CACHE_ENTRY_COUNT_MAX * 2) {
        assert!(second.intern(&mut registry, &format!("{index:08}-{suffix}")).is_none());
    }

    assert!(second.fallback_count() <= SHARED_FALLBACK_CACHE_ENTRY_COUNT_MAX);
    assert!(second.fallback_bytes() <= SHARED_FALLBACK_CACHE_RETAINED_BYTES_MAX);
}

#[test]
fn shared_leak_budget_is_process_wide_for_matching_budget() {
    let mut registry = SharedLeakRegistry::new();
    let mut first = SharedLeakInterner::new(4, DEFAULT_SHARED_MAX_VALUE_BYTES);
    for index in 0..4 {
        assert!(first.intern(&mut registry, &format!("reader-one-{index}")).is_some());
    }

    let mut second = SharedLeakInterner::new(4, DEFAULT_SHARED_MAX_VALUE_BYTES);
    assert!(second.intern(&mut registry, "reader-one-0").is_some());
    assert!(
        second.intern(&mut registry, "reader-two-new").is_none(),
        "the shared leak budget must not reset for each reader"
    );
}

#[test]
fn current_read_value_bound_applies_to_registry_hits() {
    let mut registry = SharedLeakRegistry::new();
    let value = "larger-than-second-budget";
    let mut first = SharedLeakInterner::new(4, value.len());
    assert!(first.intern(&mut registry, value).is_some());
    assert_eq!(registry.len(), 1);

    let mut second = SharedLeakInterner::new(4, value.len() - 1);
    assert!(second.intern(&mut registry, value).is_none());
    assert_eq!(second.entry_count(), 0);
    assert_eq!(registry.len(), 1);
}

#[test]
fn current_read_entry_bound_applies_to_registry_hits() {
    let mut registry = SharedLeakRegistry::new();
    let mut first = SharedLeakInterner::new(4, DEFAULT_SHARED_MAX_VALUE_BYTES);
    assert!(first.intern(&mut registry, "already-leaked-one").is_some());
    assert!(first.intern(&mut registry, "already-leaked-two").is_some());
    assert_eq!(registry.len(), 2);

    let mut second = SharedLeakInterner::new(1, DEFAULT_SHARED_MAX_VALUE_BYTES);
    assert!(second.intern(&mut registry, "already-leaked-one").is_some());
    assert!(second.intern(&mut registry, "already-leaked-two").is_none());
    assert_eq!(second.entry_count(), 1);
    assert_eq!(registry.len(), 2);
}

#[test]
fn mode_parses_and_round_trips() {
    for mode in [
        StringStorageMode::Copy,
        StringStorageMode::Intern,
        StringStorageMode::Shared,
    ] {
        assert_eq!(
            StringStorageMode::from_str(&mode.to_string()).unwrap(),
            mode
        );
    }
    assert_eq!(StringStorageMode::default(), StringStorageMode::Copy);
    assert!(StringStorageMode::from_str("nonsense").is_err());
}

#[test]
fn invalid_mode_message_names_the_value() {
    let err = StringStorageMode::from_str("nonsense").unwrap_err();
    assert_eq!(
        err,
        "Invalid string_storage: nonsense (expected :copy, :intern, or :shared)"
    );
}

#[test]
fn registry_counts_leaked_bytes_with_terminator() {
    let mut registry = SharedLeakRegistry::new();
    let leaked = registry.intern("abc", 4, 16).unwrap();
    assert_eq!(leaked, "abc");
    assert_eq!(registry.len(), 1);
    assert_eq!(registry.leaked_bytes(), 4);
    // The same text comes back from the registry without a new leak.
    let again = registry.intern("abc", 4, 16).unwrap();
    assert_eq!(again.as_ptr(), leaked.as_ptr());
    assert_eq!(registry.len(), 1);
}

#[test]
fn repeated_keys_reuse_the_cached_value() {
    for mode in [StringStorageMode::Copy, StringStorageMode::Intern, StringStorageMode::Shared] {
        let mut storage: StringStorage<String> = StringStorage::new(StringStorageConfig::from_mode(mode));
        let first = storage.ruby_key("id", || "id-object".to_string());
        let other = storage.ruby_key("name", || "name-object".to_string());
        let again = storage.ruby_key("id", || "another-object".to_string());
        match (first, other, again) {
            (KeyValue::Cached(i), KeyValue::Cached(j), KeyValue::Cached(k)) => {
                assert_eq!(i, k);
                assert_ne!(i, j);
                assert_eq!(storage.key_value(k), "id-object");
            }
            _ => panic!("keys are cached"),
        }
    }
}
