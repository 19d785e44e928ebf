use polyphonica::samples::{SampleError, SampleLibrary};

type Library = SampleLibrary<Vec<f32>>;

#[test]
fn test_sample_library_creation() {
    let library = Library::new();
    let stats = library.memory_stats();
    assert_eq!(stats.cached_samples, 0);
    assert_eq!(stats.current_bytes, 0);
    assert_eq!(stats.max_bytes, 0);
}

#[test]
fn test_memory_limit() {
    let library = Library::with_memory_limit(100); // 100MB
    assert_eq!(library.memory_stats().max_bytes, 100 * 1024 * 1024);
}

#[test]
fn test_search_path_management() {
    let mut library = Library::new();
    library.add_search_path("custom/path".to_string());
    assert!(library.search_paths().contains(&"custom/path".to_string()));
}

#[test]
fn test_memory_stats() {
    let library = Library::new();
    let stats = library.memory_stats();
    assert_eq!(stats.current_bytes, 0);
    assert_eq!(stats.cached_samples, 0);
}

#[test]
fn default_search_paths_in_order() {
    let library = Library::default();
    let paths: Vec<&str> = library.search_paths().iter().map(|p| p.as_str()).collect();
    assert_eq!(paths, vec!["samples/", "assets/samples/", "./"]);
}

#[test]
fn unlimited_library_keeps_everything() {
    let mut library = Library::new();
    assert!(library.store_sample("kick", vec![0.5; 4], 5000).is_ok());
    assert!(library.store_sample("snare", vec![0.25; 2], 7000).is_ok());
    let stats = library.memory_stats();
    assert_eq!(stats.cached_samples, 2);
    assert_eq!(stats.current_bytes, 12000);
    assert!(library.is_loaded("kick"));
    assert_eq!(library.get_sample("snare"), Some(&vec![0.25; 2]));
    assert_eq!(library.get_sample("hihat"), None);
}

#[test]
fn least_recently_used_sample_is_evicted() {
    let mut library = Library::with_memory_limit(1); // 1048576 bytes
    assert!(library.store_sample("a", vec![1.0], 600_000).is_ok());
    assert!(library.store_sample("b", vec![2.0], 400_000).is_ok());
    assert!(library.record_access("a"));
    assert!(!library.record_access("missing"));
    assert!(library.store_sample("c", vec![3.0], 300_000).is_ok());
    assert!(library.is_loaded("a"));
    assert!(!library.is_loaded("b"));
    assert!(library.is_loaded("c"));
    let stats = library.memory_stats();
    assert_eq!(stats.current_bytes, 900_000);
    assert_eq!(stats.cached_samples, 2);
}

#[test]
fn oversized_sample_empties_cache_and_fails() {
    let mut library = Library::with_memory_limit(1);
    assert!(library.store_sample("a", vec![1.0], 1000).is_ok());
    let result = library.store_sample("huge", vec![0.0], 2_000_000);
    assert!(matches!(result, Err(SampleError::OutOfMemory(2_000_000))));
    let stats = library.memory_stats();
    assert_eq!(stats.cached_samples, 0);
    assert_eq!(stats.current_bytes, 0);
    assert!(!library.is_loaded("huge"));
}

#[test]
fn clear_cache_keeps_budget() {
    let mut library = Library::with_memory_limit(2);
    assert!(library.store_sample("a", vec![1.0], 1000).is_ok());
    library.clear_cache();
    let stats = library.memory_stats();
    assert_eq!(stats.cached_samples, 0);
    assert_eq!(stats.current_bytes, 0);
    assert_eq!(stats.max_bytes, 2 * 1024 * 1024);
}

#[test]
fn candidate_files_try_each_extension_in_each_search_path() {
    let mut library: SampleLibrary<u32> = SampleLibrary::new();
    library.add_search_path("extra".to_string());
    let files = library.candidate_files("kick");
    assert_eq!(
        files,
        vec![
            "samples//kick.wav",
            "samples//kick.flac",
            "samples//kick.ogg",
            "assets/samples//kick.wav",
            "assets/samples//kick.flac",
            "assets/samples//kick.ogg",
            ".//kick.wav",
            ".//kick.flac",
            ".//kick.ogg",
            "extra/kick.wav",
            "extra/kick.flac",
            "extra/kick.ogg",
        ]
    );
}
