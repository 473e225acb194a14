use loopmachine::chroma::{note_name, note_name_nl, ChromaMode};
use loopmachine::export::{ExportFormat, ExportMode};
use loopmachine::text::{chars_of, decimal_string, is_whitespace, str_eq};
use loopmachine::waveform::{ChannelMode, MarkerKind};
use loopmachine::waveform_player::LoopBounds;

#[test]
fn channel_mode_labels() {
    assert_eq!(ChannelMode::Mono.display(), "Mono (L+R)");
    assert_eq!(ChannelMode::Left.display(), "Links (L)");
    assert_eq!(ChannelMode::Right.display(), "Rechts (R)");
    assert_eq!(ChannelMode::Mid.display(), "Mid (center)");
    assert_eq!(ChannelMode::Side.display(), "Side (breedte)");
}

#[test]
fn marker_kind_tables() {
    assert_eq!(MarkerKind::Section.prefix(), "S");
    assert_eq!(MarkerKind::Measure.prefix(), "M");
    assert_eq!(MarkerKind::Beat.prefix(), "B");
    assert_eq!(MarkerKind::Section.color(), [220, 180, 50]);
    assert_eq!(MarkerKind::Measure.stroke_color(), [50, 120, 200]);
    assert_eq!(MarkerKind::Beat.color(), [80, 220, 120]);
}

#[test]
fn note_names_wrap_around() {
    assert_eq!(note_name(0), "C");
    assert_eq!(note_name(9), "A");
    assert_eq!(note_name(13), "C#");
    assert_eq!(note_name_nl(7), "Sol");
    assert_eq!(note_name_nl(23), "Si");
    assert_ne!(ChromaMode::Full, ChromaMode::Bass);
}

#[test]
fn loop_bounds_enabled_needs_b_after_a() {
    assert!(LoopBounds { a: 1, b: 2, enabled: true }.enabled());
    assert!(!LoopBounds { a: 2, b: 2, enabled: true }.enabled());
    assert!(!LoopBounds { a: 1, b: 2, enabled: false }.enabled());
}

#[test]
fn export_choices() {
    assert_ne!(ExportMode::Separate, ExportMode::Combined);
    assert_eq!(ExportFormat::Wav, ExportFormat::Wav);
}

#[test]
fn whitespace_matches_std_for_every_char() {
    for u in 0u32..=0x10FFFF {
        if let Some(c) = char::from_u32(u) {
            assert_eq!(is_whitespace(c), c.is_whitespace(), "{:x}", u);
        }
    }
}

#[test]
fn decimal_string_matches_format() {
    for n in [0usize, 7, 10, 99, 100, 12345, usize::MAX] {
        assert_eq!(decimal_string(n), n.to_string());
    }
}

#[test]
fn text_helpers() {
    assert_eq!(chars_of("hé!"), vec!['h', 'é', '!']);
    assert!(str_eq("abc", "abc"));
    assert!(!str_eq("abc", "abd"));
}
