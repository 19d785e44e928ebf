use polyphonica::samples::{DrumType, SampleCatalog, SampleCategory, SampleInfo};

/// What the catalog reads of a drum sample's metadata: drum category, its
/// drum type as a tag, then the extra tags.
fn drum_info(name: &str, drum_type: DrumType, extra_tags: &[&str]) -> SampleInfo {
    let mut tags = vec![drum_type.to_string()];
    tags.extend(extra_tags.iter().map(|t| t.to_string()));
    SampleInfo { name: name.to_string(), category: SampleCategory::Drums, tags }
}

#[test]
fn test_sample_catalog() {
    let mut catalog: SampleCatalog<&str> = SampleCatalog::new();

    let kick = drum_info("kick", DrumType::Kick, &[]);
    catalog.add_sample(kick, "drums/kick.wav");

    assert_eq!(catalog.count(), 1);
    assert!(catalog.get_sample("kick").is_some());

    let drums = catalog.get_by_category(&SampleCategory::Drums);
    assert_eq!(drums.len(), 1);
}

#[test]
fn test_tag_search() {
    let mut catalog: SampleCatalog<&str> = SampleCatalog::new();

    let kick = drum_info("kick", DrumType::Kick, &["acoustic"]);
    catalog.add_sample(kick, "drums/kick.wav");

    let acoustic_samples = catalog.search_by_tag("acoustic");
    assert_eq!(acoustic_samples.len(), 1);
}

#[test]
fn replacing_a_sample_keeps_one_entry_but_lists_it_again() {
    let mut catalog: SampleCatalog<&str> = SampleCatalog::default();
    catalog.add_sample(drum_info("kick", DrumType::Kick, &[]), "old.wav");
    catalog.add_sample(drum_info("kick", DrumType::Kick, &[]), "new.wav");
    assert_eq!(catalog.count(), 1);
    assert_eq!(catalog.get_sample("kick"), Some(&"new.wav"));
    // the name is listed once per addition, each time finding the new sample
    assert_eq!(catalog.get_by_category(&SampleCategory::Drums), vec![&"new.wav", &"new.wav"]);
    assert_eq!(catalog.search_by_tag("kick").len(), 2);
}

#[test]
fn categories_and_tags_are_counted() {
    let mut catalog: SampleCatalog<u32> = SampleCatalog::new();
    catalog.add_sample(drum_info("kick", DrumType::Kick, &["acoustic"]), 1);
    catalog.add_sample(drum_info("snare", DrumType::Snare, &["acoustic"]), 2);
    catalog.add_sample(
        SampleInfo { name: "pad".to_string(), category: SampleCategory::Pad, tags: vec![] },
        3,
    );
    let mut categories = catalog.categories();
    categories.sort_by_key(|(c, _)| c.display_name());
    assert_eq!(categories, vec![(SampleCategory::Drums, 2), (SampleCategory::Pad, 1)]);
    let mut tags = catalog.tags();
    tags.sort();
    assert_eq!(
        tags,
        vec![("acoustic".to_string(), 2), ("kick".to_string(), 1), ("snare".to_string(), 1)]
    );
    assert_eq!(catalog.all_samples(), vec![&1, &2, &3]);
    assert!(catalog.search_by_tag("missing").is_empty());
    assert!(catalog.get_by_category(&SampleCategory::Bass).is_empty());
    catalog.clear();
    assert_eq!(catalog.count(), 0);
    assert!(catalog.categories().is_empty());
    assert!(catalog.tags().is_empty());
}
