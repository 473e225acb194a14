use loopmachine::arrangement::{
    all_possible_ids, color_for_arranger, color_from_hash, default_color, fixup_colors,
    generate_short_id, hsv_to_rgb, parse_arranger_chars, parse_arranger_string, ArrStep,
    Arrangement,
};
use std::collections::hash_map::DefaultHasher;
use std::hash::{Hash, Hasher};

// ── generate_short_id ──

#[test]
fn test_generate_short_id_empty() {
    let ids: Vec<String> = vec![];
    assert_eq!(generate_short_id(&ids), "a");
}

#[test]
fn test_generate_short_id_sequential() {
    let mut ids: Vec<String> = vec![];
    for expected in ["a", "b", "c", "d", "e"] {
        let id = generate_short_id(&ids);
        assert_eq!(id, expected);
        ids.push(id);
    }
}

#[test]
fn test_generate_short_id_after_z() {
    let ids: Vec<String> = ('a'..='z').map(|c| c.to_string()).collect();
    let next = generate_short_id(&ids);
    assert_eq!(next, "aa");
}

#[test]
fn test_generate_short_id_with_gaps() {
    let ids = vec!["a".to_string(), "b".to_string(), "aa".to_string()];
    assert_eq!(generate_short_id(&ids), "c");
}

#[test]
fn test_generate_short_id_exhaustive_start() {
    let ids: Vec<String> = vec![];
    let first = generate_short_id(&ids);
    assert_eq!(first, "a", "eerste ID moet 'a' zijn");
}

#[test]
fn test_all_possible_ids_count() {
    let ids = all_possible_ids();
    assert_eq!(ids.len(), 702); // 26 + 26*26
    assert_eq!(ids[0], "a");
    assert_eq!(ids[25], "z");
    assert_eq!(ids[26], "aa");
    assert_eq!(ids[701], "zz");
}

#[test]
fn test_all_possible_ids_no_duplicates() {
    let ids = all_possible_ids();
    let mut sorted = ids.clone();
    sorted.sort();
    sorted.dedup();
    assert_eq!(
        sorted.len(),
        ids.len(),
        "IDs mogen geen duplicaten bevatten"
    );
}

#[test]
fn generate_short_id_all_taken_gives_question_marks() {
    let ids = all_possible_ids();
    assert_eq!(generate_short_id(&ids), "??");
}

#[test]
fn generate_short_id_after_ba_is_bb() {
    let ids = all_possible_ids();
    // the first 26 + 26 + 1 identifiers: a..z, aa..az, ba
    let taken: Vec<String> = ids[..53].to_vec();
    assert_eq!(taken[52], "ba");
    assert_eq!(generate_short_id(&taken), "bb");
}

#[test]
fn generate_short_id_is_fresh_for_any_prefix_of_taken_ids() {
    let ids = all_possible_ids();
    for n in [0usize, 1, 25, 26, 27, 300, 701] {
        let taken: Vec<String> = ids[..n].to_vec();
        let next = generate_short_id(&taken);
        assert_eq!(next, ids[n]);
        assert!(!taken.contains(&next));
    }
}

// ── parse_arranger_string ──

fn steps(v: &[(&str, u32)]) -> Vec<(String, u32)> {
    v.iter().map(|(s, n)| (s.to_string(), *n)).collect()
}

#[test]
fn test_parse_empty() {
    let result = parse_arranger_string("").unwrap();
    assert!(result.is_empty());
}

#[test]
fn test_parse_consecutive_letters_become_two_letter_id() {
    let result = parse_arranger_string("ABC").unwrap();
    assert_eq!(result, vec![("ab".to_string(), 1), ("c".to_string(), 1),]);
}

#[test]
fn test_parse_with_repeats() {
    let result = parse_arranger_string("2b3A").unwrap();
    assert_eq!(result, vec![("b".to_string(), 2), ("a".to_string(), 3),]);
}

#[test]
fn test_parse_parentheses_single_letter_inside() {
    let result = parse_arranger_string("(a)b").unwrap();
    assert_eq!(result, vec![("a".to_string(), 1), ("b".to_string(), 1),]);
}

#[test]
fn test_parse_number_before_parentheses() {
    let result = parse_arranger_string("(3a)b").unwrap();
    assert_eq!(result, vec![("a".to_string(), 3), ("b".to_string(), 1),]);
}

#[test]
fn test_parse_spaces() {
    let result = parse_arranger_string("A B C").unwrap();
    assert_eq!(
        result,
        vec![
            ("a".to_string(), 1),
            ("b".to_string(), 1),
            ("c".to_string(), 1),
        ]
    );
}

#[test]
fn test_parse_repeat_inside_parentheses() {
    let result = parse_arranger_string("(3a)b").unwrap();
    assert_eq!(result, vec![("a".to_string(), 3), ("b".to_string(), 1),]);
}

#[test]
fn test_parse_uppercase_is_lowercased() {
    let result = parse_arranger_string("aBc").unwrap();
    assert_eq!(result, vec![("ab".to_string(), 1), ("c".to_string(), 1),]);
}

#[test]
fn test_parse_invalid_char() {
    let result = parse_arranger_string("AB$C");
    assert!(result.is_err());
}

#[test]
fn test_parse_missing_closing_paren() {
    let result = parse_arranger_string("(ab");
    assert!(result.is_err());
}

#[test]
fn test_parse_double_digit_repeats() {
    let result = parse_arranger_string("12a").unwrap();
    assert_eq!(result, vec![("a".to_string(), 12)]);
}

#[test]
fn test_parse_complex_sequence() {
    let result = parse_arranger_string("(3a)b c(2d)e").unwrap();
    assert_eq!(
        result,
        vec![
            ("a".to_string(), 3),
            ("b".to_string(), 1),
            ("c".to_string(), 1),
            ("d".to_string(), 2),
            ("e".to_string(), 1),
        ]
    );
}

#[test]
fn parse_error_messages_name_character_and_position() {
    assert_eq!(
        parse_arranger_string("AB$C"),
        Err("Ongeldig teken '$' op positie 2".to_string())
    );
    assert_eq!(
        parse_arranger_string("(ab"),
        Err("Missend haakje op positie 3".to_string())
    );
    assert_eq!(
        parse_arranger_string("(3)"),
        Err("Verwacht een letter op positie 2".to_string())
    );
    assert_eq!(
        parse_arranger_string("a (12"),
        Err("Verwacht een letter op positie 5".to_string())
    );
    assert_eq!(
        parse_arranger_string("3(a)"),
        Err("Ongeldig teken '(' op positie 1".to_string())
    );
    assert_eq!(
        parse_arranger_string("(a b)"),
        Err("Missend haakje op positie 2".to_string())
    );
}

#[test]
fn parse_two_letter_ids_and_delimiters() {
    assert_eq!(parse_arranger_string("ab").unwrap(), steps(&[("a", 1), ("b", 1)]));
    assert_eq!(parse_arranger_string("abc").unwrap(), steps(&[("ab", 1), ("c", 1)]));
    assert_eq!(parse_arranger_string("abc d").unwrap(), steps(&[("ab", 1), ("c", 1), ("d", 1)]));
    assert_eq!(parse_arranger_string("zz3").unwrap(), steps(&[("z", 1), ("z", 1)]));
    assert_eq!(parse_arranger_string("xyz1").unwrap(), steps(&[("xy", 1), ("z", 1)]));
    assert_eq!(parse_arranger_string("(b)(c)").unwrap(), steps(&[("b", 1), ("c", 1)]));
}

#[test]
fn parse_two_letter_id_in_parentheses() {
    assert_eq!(parse_arranger_string("(aa)b").unwrap(), steps(&[("aa", 1), ("b", 1)]));
    assert_eq!(parse_arranger_string("(2Zq) (c)").unwrap(), steps(&[("zq", 2), ("c", 1)]));
    assert_eq!(
        parse_arranger_string("(abc)"),
        Err("Missend haakje op positie 3".to_string())
    );
    assert_eq!(
        parse_arranger_string("(a1)"),
        Err("Missend haakje op positie 2".to_string())
    );
}

#[test]
fn parse_trailing_count_is_ignored_and_zero_count_kept() {
    assert_eq!(parse_arranger_string("a12").unwrap(), steps(&[("a", 1)]));
    assert_eq!(parse_arranger_string("0a").unwrap(), steps(&[("a", 0)]));
    assert_eq!(parse_arranger_string("(0a)").unwrap(), steps(&[("a", 0)]));
}

#[test]
fn parse_repeat_count_wraps_modulo_two_to_the_32() {
    // 4294967297 = 2^32 + 1
    assert_eq!(parse_arranger_string("4294967297a").unwrap(), steps(&[("a", 1)]));
}

#[test]
fn parse_unicode_whitespace_is_skipped() {
    assert_eq!(
        parse_arranger_string("a\u{00A0}b\u{3000}\tc\n").unwrap(),
        steps(&[("a", 1), ("b", 1), ("c", 1)])
    );
}

#[test]
fn parse_chars_is_case_sensitive() {
    let chars: Vec<char> = "Ab".chars().collect();
    assert_eq!(
        parse_arranger_chars(&chars),
        Err("Ongeldig teken 'A' op positie 0".to_string())
    );
    let chars: Vec<char> = "ab".chars().collect();
    assert_eq!(parse_arranger_chars(&chars).unwrap(), steps(&[("a", 1), ("b", 1)]));
}

#[test]
fn parsed_ids_are_short_ids() {
    let all = all_possible_ids();
    for input in ["ABC", "(3a)b c(2d)e", "xyz qq", "zzz zz"] {
        for (id, _) in parse_arranger_string(input).unwrap() {
            assert!(all.contains(&id), "{}", id);
        }
    }
}

// ── hsv_to_rgb ──

#[test]
fn test_hsv_to_rgb_red() {
    let [r, g, b] = hsv_to_rgb(0, 255, 255);
    assert_eq!((r, g, b), (255, 0, 0), "h=0, s=255, v=255");
}

#[test]
fn test_hsv_to_rgb_green() {
    let [r, g, b] = hsv_to_rgb(120, 255, 255);
    assert_eq!((r, g, b), (0, 255, 0), "h=120, s=255, v=255");
}

#[test]
fn test_hsv_to_rgb_gray() {
    let [r, g, b] = hsv_to_rgb(120, 0, 128);
    assert_eq!((r, g, b), (128, 128, 128));
}

#[test]
fn test_hsv_to_rgb_black() {
    let [r, g, b] = hsv_to_rgb(0, 255, 0);
    assert_eq!((r, g, b), (0, 0, 0));
}

#[test]
fn test_hsv_to_rgb_full_white() {
    let [r, g, b] = hsv_to_rgb(300, 0, 255);
    assert_eq!((r, g, b), (255, 255, 255));
}

/// The single-precision formula the integer weights stand for.
fn hsv_to_rgb_float(h: u16, s: u8, v: u8) -> [u8; 3] {
    if s == 0 {
        return [v, v, v];
    }
    let region = h / 60;
    let fpart = (h % 60) as f32 / 60.0;
    let p = ((v as u32) * (255 - s as u32) / 255) as u8;
    let q = ((v as u32) * (255 - ((s as u32) * (fpart * 255.0) as u32 / 255)) / 255) as u8;
    let t = ((v as u32) * (255 - ((s as u32) * ((1.0 - fpart) * 255.0) as u32 / 255)) / 255) as u8;
    match region {
        0 => [v, t, p],
        1 => [q, v, p],
        2 => [p, v, t],
        3 => [p, q, v],
        4 => [t, p, v],
        _ => [v, p, q],
    }
}

#[test]
fn hsv_to_rgb_agrees_with_single_precision_formula() {
    for h in 0u16..360 {
        for s in [0u8, 1, 17, 100, 180, 254, 255] {
            for v in [0u8, 1, 99, 128, 230, 255] {
                assert_eq!(hsv_to_rgb(h, s, v), hsv_to_rgb_float(h, s, v), "{} {} {}", h, s, v);
            }
        }
    }
    for s in 0u8..=255 {
        for v in 0u8..=255 {
            for h in [0u16, 20, 28, 59, 60, 100, 200, 356, 359] {
                assert_eq!(hsv_to_rgb(h, s, v), hsv_to_rgb_float(h, s, v));
            }
        }
    }
}

#[test]
fn hsv_to_rgb_regions() {
    assert_eq!(hsv_to_rgb(60, 255, 255), [255, 255, 0]);
    assert_eq!(hsv_to_rgb(180, 255, 255), [0, 255, 255]);
    assert_eq!(hsv_to_rgb(240, 255, 255), [0, 0, 255]);
    assert_eq!(hsv_to_rgb(300, 255, 255), [255, 0, 255]);
    assert_eq!(hsv_to_rgb(20, 255, 255), [255, 86, 0]);
}

// ── color_for_arranger ──

#[test]
fn test_color_for_arranger_deterministic() {
    let c1 = color_for_arranger("a", "/track.wav");
    let c2 = color_for_arranger("a", "/track.wav");
    assert_eq!(c1, c2, "zelfde input moet dezelfde kleur geven");
}

#[test]
fn test_color_for_arranger_different_ids() {
    let c1 = color_for_arranger("a", "/track.wav");
    let c2 = color_for_arranger("b", "/track.wav");
    assert_ne!(
        c1, c2,
        "verschillende IDs moeten (bijna altijd) andere kleur geven"
    );
}

#[test]
fn test_color_for_arranger_different_tracks() {
    let c1 = color_for_arranger("a", "/track1.wav");
    let c2 = color_for_arranger("a", "/track2.wav");
    assert_ne!(c1, c2, "zelfde ID in andere track = andere kleur");
}

#[test]
fn test_color_for_arranger_bounds() {
    let [r, g, b] = color_for_arranger("zz", "/some/long/path.wav");
    assert!(
        r <= 230 && g <= 230 && b <= 230,
        "value (V) is 230, dus RGB mag niet hoger zijn: got ({},{},{})",
        r,
        g,
        b
    );
}

#[test]
fn color_for_arranger_hashes_track_colon_id() {
    let mut hasher = DefaultHasher::new();
    format!("{}:{}", "/track.wav", "a").hash(&mut hasher);
    let hash = hasher.finish();
    assert_eq!(color_for_arranger("a", "/track.wav"), color_from_hash(hash));
    assert_eq!(color_from_hash(hash), hsv_to_rgb((hash % 360) as u16, 180, 230));
}

#[test]
fn color_from_hash_exact_values() {
    // hue 0: [v, t, p] with v = 230, s = 180
    assert_eq!(color_from_hash(0), [230, 67, 67]);
    assert_eq!(color_from_hash(360), [230, 67, 67]);
    assert_eq!(color_from_hash(120), [67, 230, 67]);
}

fn step(loop_id: &str, track_path: &str, color: [u8; 3]) -> ArrStep {
    ArrStep {
        loop_id: loop_id.to_string(),
        track_path: track_path.to_string(),
        repeats: 2,
        pitch_semitones: 0.0f32.to_bits(),
        tempo: 1.0f32.to_bits(),
        color,
    }
}

#[test]
fn fixup_colors_recolours_only_default_grey() {
    let mut arrangements = vec![Arrangement {
        name: "set".to_string(),
        steps: vec![
            step("a", "/t.wav", default_color()),
            step("b", "/t.wav", [1, 2, 3]),
        ],
    }];
    fixup_colors(&mut arrangements);
    assert_eq!(arrangements[0].steps[0].color, color_for_arranger("a", "/t.wav"));
    assert_eq!(arrangements[0].steps[1].color, [1, 2, 3]);
    assert_eq!(arrangements[0].steps[0].repeats, 2);
    assert_eq!(arrangements[0].name, "set");
}

#[test]
fn parse_whitespace_after_count_is_invalid() {
    assert_eq!(
        parse_arranger_string("xyz1 qq"),
        Err("Ongeldig teken ' ' op positie 4".to_string())
    );
}
