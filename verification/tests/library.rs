use std::path::PathBuf;
use superduper::nam::library::{
    candidate_file_name, current_position, download_stem, filter_library, looks_like_model_json, navigable_entries,
    next_position, position_label, prev_position, shown_entries, LibraryEntry,
};

fn stems(names: &[&str]) -> Vec<String> {
    names.iter().map(|s| s.to_string()).collect()
}

fn entry(name: &str, reason: Option<&str>) -> LibraryEntry {
    LibraryEntry {
        path: PathBuf::from(format!("/lib/{name}.nam")),
        unsupported_reason: reason.map(|r| r.to_string()),
        arch: "WaveNet".to_string(),
    }
}

#[test]
fn empty_filter_shows_everything() {
    let s = stems(&["Tube", "Fuzz", "Clean"]);
    assert_eq!(filter_library(&s, ""), vec![0, 1, 2]);
}

#[test]
fn filter_ignores_case() {
    let s = stems(&["Warm TUBE", "Fuzz Face", "tube screamer", "Clean"]);
    assert_eq!(filter_library(&s, "Tube"), vec![0, 2]);
    assert_eq!(filter_library(&s, "FACE"), vec![1]);
    assert_eq!(filter_library(&s, "zzz"), Vec::<usize>::new());
}

#[test]
fn lowercase_filter_needs_lowercase_input() {
    let lower = stems(&["warm tube", "fuzz"]);
    assert_eq!(shown_entries(&lower, "tube"), vec![0]);
    assert_eq!(shown_entries(&lower, "TUBE"), Vec::<usize>::new());
    assert_eq!(shown_entries(&lower, ""), vec![0, 1]);
    assert_eq!(shown_entries(&lower, "warm tube!"), Vec::<usize>::new());
}

#[test]
fn arrows_skip_models_that_do_not_load() {
    let entries = vec![entry("a", None), entry("b", Some("FiLM")), entry("c", None), entry("d", None)];
    let shown = vec![0, 1, 3];
    assert_eq!(navigable_entries(&shown, &entries), vec![0, 3]);
    assert_eq!(navigable_entries(&vec![7, 2], &entries), vec![2]);
}

#[test]
fn position_of_the_loaded_model() {
    let s = stems(&["a", "b", "c", "b"]);
    let nav = vec![0, 1, 3];
    assert_eq!(current_position(&nav, &s, "b"), Some(1));
    assert_eq!(current_position(&nav, &s, "c"), None);
    assert_eq!(current_position(&nav, &s, "a"), Some(0));
}

#[test]
fn arrows_wrap_round() {
    assert_eq!(next_position(Some(0), 3), 1);
    assert_eq!(next_position(Some(2), 3), 0);
    assert_eq!(next_position(None, 3), 0);
    assert_eq!(prev_position(Some(0), 3), 2);
    assert_eq!(prev_position(Some(2), 3), 1);
    assert_eq!(prev_position(None, 3), 2);
    for p in 0..5usize {
        assert_eq!(prev_position(Some(next_position(Some(p), 5)), 5), p);
        assert_eq!(next_position(Some(prev_position(Some(p), 5)), 5), p);
    }
}

#[test]
fn position_read_out() {
    assert_eq!(position_label(Some(0), 3), "[1/3]");
    assert_eq!(position_label(Some(11), 12), "[12/12]");
    assert_eq!(position_label(None, 4), "[-/4]");
    assert_eq!(position_label(None, 0), "[0/0]");
}

#[test]
fn download_names() {
    assert_eq!(download_stem("https://example.com/models/Warm%20Tube.nam"), "Warm%20Tube");
    assert_eq!(download_stem("https://h/x/amp.nam?dl=1#top"), "amp");
    assert_eq!(download_stem("https://h/x/amp.nam#frag?q"), "amp");
    assert_eq!(download_stem("https://h/x/model"), "model");
    assert_eq!(download_stem("https://h/x/a.nam.nam"), "a");
    assert_eq!(download_stem("https://h/x/"), "");
    assert_eq!(download_stem("plain.nam"), "plain");
    assert_eq!(download_stem("https://h/a.nam?x=/b.nam"), "b");
}

#[test]
fn copy_names_never_collide() {
    assert_eq!(candidate_file_name("amp", 0), "amp.nam");
    assert_eq!(candidate_file_name("amp", 1), "amp.nam");
    assert_eq!(candidate_file_name("amp", 2), "amp (2).nam");
    assert_eq!(candidate_file_name("amp", 10), "amp (10).nam");
    let names: Vec<String> = (1..20).map(|n| candidate_file_name("x", n)).collect();
    for i in 0..names.len() {
        for j in (i + 1)..names.len() {
            assert_ne!(names[i], names[j]);
        }
    }
}

#[test]
fn downloads_must_look_like_json() {
    assert!(looks_like_model_json("{\"version\": \"0.5.2\"}"));
    assert!(looks_like_model_json("  \n\t{}"));
    assert!(looks_like_model_json("\u{3000}\u{a0}{"));
    assert!(!looks_like_model_json("<!DOCTYPE html>{"));
    assert!(!looks_like_model_json(""));
    assert!(!looks_like_model_json("   "));
    assert!(!looks_like_model_json("x{"));
}

#[test]
fn filter_matches_non_ascii_case() {
    let s = stems(&["ÜBER Amp", "über", "Clean"]);
    assert_eq!(filter_library(&s, "üBeR"), vec![0, 1]);
}

#[test]
fn filters_that_lowercase_alike_show_the_same_entries() {
    let s = stems(&["Marshall JCM", "jcm clean", "Vox"]);
    assert_eq!(filter_library(&s, "JCM"), filter_library(&s, "jcm"));
    assert_eq!(filter_library(&s, "jCm"), vec![0, 1]);
}
