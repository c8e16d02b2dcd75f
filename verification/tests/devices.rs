use tcp_streamer::audio::devices::{
    compare_chars, device_cache_fresh, device_name_matches, loopback_label, loopback_supported, remove_all_chars, sorted_unique,
    strip_loopback_label,
};

fn chars(s: &str) -> Vec<char> {
    s.chars().collect()
}

#[test]
fn loopback_labels_strip_back_to_the_device_name() {
    let label = loopback_label("Speakers (Realtek)");
    assert_eq!(label, "[Loopback] Speakers (Realtek)");
    assert_eq!(strip_loopback_label(&label), chars("Speakers (Realtek)"));
    assert_eq!(strip_loopback_label("Mic"), chars("Mic"));
    assert_eq!(strip_loopback_label("a[Loopback] b[Loopback] "), chars("ab"));
    assert_eq!(
        strip_loopback_label("[Loopback] [Loopback] x"),
        "[Loopback] [Loopback] x".replace("[Loopback] ", "").chars().collect::<Vec<_>>()
    );
}

#[test]
fn remove_all_matches_str_replace() {
    for (s, p) in [("aaaa", "aa"), ("abcabcab", "abc"), ("xyz", "q"), ("", "a"), ("ééé", "é")] {
        assert_eq!(remove_all_chars(&chars(s), &chars(p)), chars(&s.replace(p, "")));
    }
}

#[test]
fn names_match_exactly_or_after_trimming() {
    assert!(device_name_matches(&chars("Speakers"), &chars("Speakers")));
    assert!(device_name_matches(&chars(" Speakers\t"), &chars("Speakers ")));
    assert!(!device_name_matches(&chars("Speakers 2"), &chars("Speakers")));
    assert!(device_name_matches(&chars(""), &chars("  ")));
}

#[test]
fn compare_orders_by_code_point() {
    assert!(compare_chars(&chars("a"), &chars("b")) < 0);
    assert!(compare_chars(&chars("ab"), &chars("a")) > 0);
    assert_eq!(compare_chars(&chars("é"), &chars("é")), 0);
    assert!(compare_chars(&chars("Z"), &chars("a")) < 0);
    assert!(compare_chars(&chars(""), &chars("a")) < 0);
}

#[test]
fn device_lists_are_sorted_without_duplicates() {
    let names: Vec<String> = ["b", "a", "b", "[Loopback] x", "é", "B", "a"].iter().map(|s| s.to_string()).collect();
    let mut expected = names.clone();
    expected.sort();
    expected.dedup();
    assert_eq!(sorted_unique(&names), expected);
    assert!(sorted_unique(&[]).is_empty());
}

#[test]
fn device_cache_lasts_thirty_seconds() {
    assert!(device_cache_fresh(0));
    assert!(device_cache_fresh(29));
    assert!(!device_cache_fresh(30));
}

#[test]
fn loopback_capture_only_on_windows() {
    assert!(loopback_supported(true, "windows"));
    assert!(!loopback_supported(true, "linux"));
    assert!(!loopback_supported(true, "macos"));
    assert!(!loopback_supported(true, "Windows"));
    assert!(loopback_supported(false, "linux"));
    assert!(loopback_supported(false, "windows"));
}
