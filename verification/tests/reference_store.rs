use call_sim::reference::{PreprocessStep, Reference, ReferenceStore};

fn reference(name: &str, baseline_score: u32) -> Reference {
    Reference {
        sound_name: name.to_string(),
        spectrogram: Some(format!("{name}.png")),
        baseline_score,
    }
}

#[test]
fn unknown_sound_is_to_be_computed() {
    let store = ReferenceStore::new();
    assert_eq!(store.step("normal_phrasing", true), PreprocessStep::Compute { spectrogram: true });
    assert_eq!(store.step("normal_phrasing", false), PreprocessStep::Compute { spectrogram: false });
    assert_eq!(store.lookup("normal_phrasing"), None);
}

#[test]
fn preprocess_is_idempotent() {
    let mut store = ReferenceStore::new();
    assert_eq!(store.step("normal_phrasing", true), PreprocessStep::Compute { spectrogram: true });
    assert!(store.record(reference("normal_phrasing", 4800)));
    assert_eq!(store.step("normal_phrasing", true), PreprocessStep::Reuse);
    assert_eq!(store.lookup("normal_phrasing").unwrap().baseline_score, 4800);
    assert!(!store.record(reference("normal_phrasing", 1234)));
    assert_eq!(store.step("normal_phrasing", true), PreprocessStep::Reuse);
    assert_eq!(store.lookup("normal_phrasing"), Some(&reference("normal_phrasing", 4800)));
}

#[test]
fn sounds_are_kept_apart() {
    let mut store = ReferenceStore::new();
    assert!(store.record(reference("speaker_a", 4700)));
    assert!(store.record(reference("speaker_b", 4600)));
    assert_eq!(store.lookup("speaker_a").unwrap().baseline_score, 4700);
    assert_eq!(store.lookup("speaker_b").unwrap().baseline_score, 4600);
    assert_eq!(store.lookup("speaker_c"), None);
    assert_eq!(store.lookup("speaker_a").unwrap().spectrogram, Some("speaker_a.png".to_string()));
    assert_eq!(store.step("speaker", false), PreprocessStep::Compute { spectrogram: false });
}

#[test]
fn only_unknown_sounds_are_computed_and_each_once() {
    let mut store = ReferenceStore::new();
    let names: Vec<String> = vec!["speaker_a", "speaker_b", "speaker_a", "normal_phrasing"]
        .into_iter()
        .map(|name| name.to_string())
        .collect();
    assert_eq!(store.to_compute(&names), vec!["speaker_a", "speaker_b", "normal_phrasing"]);
    assert!(store.record(reference("speaker_b", 4600)));
    assert_eq!(store.to_compute(&names), vec!["speaker_a", "normal_phrasing"]);
    assert!(store.record(reference("speaker_a", 4700)));
    assert!(store.record(reference("normal_phrasing", 4800)));
    assert_eq!(store.to_compute(&names), Vec::<String>::new());
    assert_eq!(store.to_compute(&vec![]), Vec::<String>::new());
}
