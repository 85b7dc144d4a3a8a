use joplin_dictate::filter_transcript;

#[test]
fn filters_known_tokens_and_preserves_speech() {
    assert_eq!(filter_transcript("[Blank Audio]"), "");
    assert_eq!(filter_transcript("[ Silence ] Hello [noise]"), "Hello");
    assert_eq!(filter_transcript("[Music] Hello world"), "Hello world");
}

#[test]
fn every_marker_alone_filters_to_nothing() {
    for marker in [
        "[Blank Audio]",
        "[BLANK_AUDIO]",
        "[ Silence ]",
        "[ silence ]",
        "[Silence]",
        "[noise]",
        "[Noise]",
        "[Music]",
        "[music]",
        "(silence)",
        "(Silence)",
    ] {
        assert_eq!(filter_transcript(marker), "", "marker {marker}");
    }
}

#[test]
fn plain_speech_is_only_trimmed() {
    assert_eq!(filter_transcript("  Buy milk\nand eggs \n"), "Buy milk\nand eggs");
    assert_eq!(filter_transcript("[Applause] stays"), "[Applause] stays");
}

#[test]
fn unicode_white_space_is_trimmed() {
    assert_eq!(filter_transcript("\u{3000}\u{a0}héllo wörld\u{2029}"), "héllo wörld");
}

#[test]
fn markers_inside_text_are_removed_everywhere() {
    assert_eq!(
        filter_transcript("one [noise] two [noise] three (silence)"),
        "one  two  three"
    );
}

#[test]
fn removal_goes_marker_by_marker() {
    // Taking out "[noise]" rebuilds an earlier marker, which then stays.
    assert_eq!(filter_transcript("[Bl[noise]ank Audio]"), "[Blank Audio]");
    // Overlapping text: the leftmost occurrence is taken.
    assert_eq!(filter_transcript("[[noise]noise]"), "[noise]");
}

#[test]
fn blank_transcript_filters_to_empty() {
    assert_eq!(filter_transcript(""), "");
    assert_eq!(filter_transcript(" \t\n "), "");
}
