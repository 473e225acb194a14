//! Arrangements: ordered lists of loop steps, the short loop identifiers
//! that name them, the textual arranger notation and step colours.
use vstd::prelude::*;

use crate::text::{
    chars_of, decimal, decimal_string, digit_value, is_ascii_digit, is_ascii_lowercase, is_digit,
    is_lower, is_unicode_whitespace, is_upper, is_whitespace, push_char,
};
use std::collections::hash_map::DefaultHasher;
use std::hash::Hasher;
use vstd::std_specs::hash::DefaultHasherAdditionalSpecFns;

verus! {

// ───────────────────────────────────────────────
// Data model
// ───────────────────────────────────────────────

/// A named arrangement: an ordered list of loop steps.
#[derive(Debug, Clone)]
pub struct Arrangement {
    pub name: String,
    pub steps: Vec<ArrStep>,
}

/// One step of an arrangement.
///
/// `pitch_semitones` and `tempo` hold the IEEE-754 bit patterns (`f32::to_bits`)
/// of the pitch shift in semitones and of the tempo factor; nothing in this
/// crate computes with them.
#[derive(Debug, Clone)]
pub struct ArrStep {
    /// Short identifier of the loop ("a", "b", "aa", ...).
    pub loop_id: String,
    /// Path of the audio file the loop belongs to.
    pub track_path: String,
    /// How often the step repeats (0 = forever).
    pub repeats: u32,
    /// Bit pattern of the pitch override in semitones.
    pub pitch_semitones: u32,
    /// Bit pattern of the tempo override (1.0 = normal).
    pub tempo: u32,
    /// Display colour.
    pub color: [u8; 3],
}

/// The grey that marks a step whose colour was never chosen.
pub fn default_color() -> (res: [u8; 3])
    ensures
        res@ == seq![128u8, 128u8, 128u8],
{
    [128u8, 128u8, 128u8]
}

// ───────────────────────────────────────────────
// HSV → RGB
// ───────────────────────────────────────────────

/// `floor(255 * r / 60)`: the rising weight at offset `r` inside a 60° hue sector.
pub open spec fn rise_weight(r: int) -> int {
    r * 17 / 4
}

/// Offsets inside a hue sector at which the falling weight, computed in single
/// precision, truncates to one below `floor(255 * (60 - r) / 60)`.
pub open spec fn fall_weight_truncated_low(r: int) -> bool {
    r == 20 || r == 28 || r == 32 || r == 36 || r == 40 || r == 44 || r == 48 || r == 52 || r
        == 56
}

/// The falling weight `(1 - r/60) * 255` at offset `r` inside a 60° hue sector,
/// truncated as single-precision arithmetic truncates it.
pub open spec fn fall_weight(r: int) -> int {
    (60 - r) * 17 / 4 - (if fall_weight_truncated_low(r) {
        1int
    } else {
        0int
    })
}

/// `v * (255 - s * w / 255) / 255`: a channel scaled down by saturation `s` and weight `w`.
pub open spec fn scaled_channel(v: int, s: int, w: int) -> u8 {
    (v * (255 - s * w / 255) / 255) as u8
}

/// The RGB channels of the colour with hue `h` (degrees), saturation `s` and value `v`.
pub open spec fn hsv_channels(h: int, s: int, v: int) -> Seq<u8> {
    if s == 0 {
        seq![v as u8, v as u8, v as u8]
    } else {
        let r = h % 60;
        let p = scaled_channel(v, s, 255);
        let q = scaled_channel(v, s, rise_weight(r));
        let t = scaled_channel(v, s, fall_weight(r));
        let vv = v as u8;
        let region = h / 60;
        if region == 0 {
            seq![vv, t, p]
        } else if region == 1 {
            seq![q, vv, p]
        } else if region == 2 {
            seq![p, vv, t]
        } else if region == 3 {
            seq![p, q, vv]
        } else if region == 4 {
            seq![t, p, vv]
        } else {
            seq![vv, p, q]
        }
    }
}

proof fn lemma_scaled_channel_bound(v: int, s: int, w: int)
    requires
        0 <= v <= 255,
        0 <= s <= 255,
        0 <= w <= 255,
    ensures
        0 <= s * w / 255 <= 255,
        0 <= v * (255 - s * w / 255) / 255 <= v,
{
    assert(0 <= s * w <= 255 * 255) by (nonlinear_arith)
        requires
            0 <= s <= 255,
            0 <= w <= 255,
    ;
    let x = s * w / 255;
    assert(0 <= x <= 255);
    assert(0 <= v * (255 - x) <= v * 255) by (nonlinear_arith)
        requires
            0 <= v <= 255,
            0 <= x <= 255,
    ;
    assert(v * (255 - x) / 255 <= v * 255 / 255) by (nonlinear_arith)
        requires
            0 <= v * (255 - x) <= v * 255,
    ;
    assert(v * 255 / 255 == v) by (nonlinear_arith);
}

fn rising_weight(r: u32) -> (w: u32)
    requires
        r < 60,
    ensures
        w == rise_weight(r as int),
        w <= 255,
{
    r * 17 / 4
}

fn falling_weight(r: u32) -> (w: u32)
    requires
        r < 60,
    ensures
        w == fall_weight(r as int),
        w <= 255,
{
    let base = (60 - r) * 17 / 4;
    if r == 20 || r == 28 || r == 32 || r == 36 || r == 40 || r == 44 || r == 48 || r == 52 || r
        == 56 {
        base - 1
    } else {
        base
    }
}

fn scale_channel(v: u8, s: u8, w: u32) -> (res: u8)
    requires
        w <= 255,
    ensures
        res == scaled_channel(v as int, s as int, w as int),
        res <= v,
{
    proof {
        lemma_scaled_channel_bound(v as int, s as int, w as int);
    }
    let x = (s as u32) * w / 255;
    ((v as u32) * (255 - x) / 255) as u8
}

/// Converts HSV to RGB: `h` in degrees (0..360), `s` and `v` in 0..=255.
/// No channel exceeds the value `v`; with `s == 0` the colour is the grey `v`.
pub fn hsv_to_rgb(h: u16, s: u8, v: u8) -> (res: [u8; 3])
    ensures
        res@ == hsv_channels(h as int, s as int, v as int),
        res[0] <= v && res[1] <= v && res[2] <= v,
        s == 0 ==> res[0] == v && res[1] == v && res[2] == v,
{
    if s == 0 {
        return [v, v, v];
    }
    let region = h / 60;
    let r = (h % 60) as u32;
    let p = scale_channel(v, s, 255);
    let q = scale_channel(v, s, rising_weight(r));
    let t = scale_channel(v, s, falling_weight(r));
    match region {
        0 => [v, t, p],
        1 => [q, v, p],
        2 => [p, v, t],
        3 => [p, q, v],
        4 => [t, p, v],
        _ => [v, p, q],
    }
}

// ───────────────────────────────────────────────
// Short identifiers
// ───────────────────────────────────────────────

/// The lower-case letter with alphabet index `k` (0 = 'a').
pub open spec fn letter(k: int) -> char {
    (97 + k) as char
}

/// The `k`-th short identifier in the order a, b, ..., z, aa, ab, ..., zz.
pub open spec fn short_id_at(k: int) -> Seq<char> {
    if k < 26 {
        seq![letter(k)]
    } else {
        seq![letter((k - 26) / 26), letter((k - 26) % 26)]
    }
}

/// The number of short identifiers: 26 of one letter and 26 * 26 of two.
pub open spec fn short_id_count() -> int {
    702
}

/// `ids` lists every short identifier, in order.
pub open spec fn lists_all_short_ids(ids: Seq<String>) -> bool {
    &&& ids.len() == short_id_count()
    &&& forall|k: int| 0 <= k < short_id_count() ==> #[trigger] ids[k]@ == short_id_at(k)
}

/// The texts of a sequence of strings.
pub open spec fn texts(strings: Seq<String>) -> Seq<Seq<char>> {
    strings.map_values(|s: String| s@)
}

/// The first short identifier at index `k` or later that `existing` lacks;
/// `"??"` when there is none.
pub open spec fn first_free_id_from(existing: Seq<Seq<char>>, k: int) -> Seq<char>
    decreases short_id_count() - k,
{
    if k < 0 || k >= short_id_count() {
        "??"@
    } else if !existing.contains(short_id_at(k)) {
        short_id_at(k)
    } else {
        first_free_id_from(existing, k + 1)
    }
}

/// The short identifier that a new loop receives when `existing` are taken.
pub open spec fn next_short_id(existing: Seq<Seq<char>>) -> Seq<char> {
    first_free_id_from(existing, 0)
}

/// Every short identifier, in the order a, b, ..., z, aa, ab, ..., az, ba, ..., zz.
pub fn all_possible_ids() -> (ids: Vec<String>)
    ensures
        lists_all_short_ids(ids@),
{
    let mut ids: Vec<String> = Vec::new();
    let mut c: u8 = 0;
    while c < 26
        invariant
            c <= 26,
            ids.len() == c,
            forall|k: int| 0 <= k < c ==> #[trigger] ids@[k]@ == short_id_at(k),
        decreases 26 - c,
    {
        let mut s = String::new();
        push_char(&mut s, (97u8 + c) as char);
        ids.push(s);
        c += 1;
    }
    let mut c1: u8 = 0;
    while c1 < 26
        invariant
            c1 <= 26,
            ids.len() == 26 + 26 * c1,
            forall|k: int| 0 <= k < ids.len() ==> #[trigger] ids@[k]@ == short_id_at(k),
        decreases 26 - c1,
    {
        let mut c2: u8 = 0;
        while c2 < 26
            invariant
                c1 < 26,
                c2 <= 26,
                ids.len() == 26 + 26 * c1 + c2,
                forall|k: int| 0 <= k < ids.len() ==> #[trigger] ids@[k]@ == short_id_at(k),
            decreases 26 - c2,
        {
            let mut s = String::new();
            push_char(&mut s, (97u8 + c1) as char);
            push_char(&mut s, (97u8 + c2) as char);
            let ghost k: int = 26 + 26 * c1 + c2;
            assert((k - 26) / 26 == c1 && (k - 26) % 26 == c2) by (nonlinear_arith)
                requires
                    k == 26 + 26 * c1 + c2,
                    0 <= c2 < 26,
                    0 <= c1,
            ;
            ids.push(s);
            c2 += 1;
        }
        c1 += 1;
    }
    ids
}

/// The first `n` short identifiers, in order.
pub open spec fn first_short_ids(n: int) -> Seq<Seq<char>> {
    Seq::new(n as nat, |k: int| short_id_at(k))
}

proof fn lemma_letter_injective(j: int, k: int)
    requires
        0 <= j < 26,
        0 <= k < 26,
        letter(j) == letter(k),
    ensures
        j == k,
{
    assert(letter(j) as int == 97 + j);
    assert(letter(k) as int == 97 + k);
}

/// Law: the 702 short identifiers are pairwise distinct.
pub proof fn law_short_ids_distinct(j: int, k: int)
    requires
        0 <= j < short_id_count(),
        0 <= k < short_id_count(),
        j != k,
    ensures
        short_id_at(j) != short_id_at(k),
{
    if j < 26 && k < 26 {
        if short_id_at(j) == short_id_at(k) {
            assert(short_id_at(j)[0] == letter(j));
            lemma_letter_injective(j, k);
        }
    } else if j >= 26 && k >= 26 {
        if short_id_at(j) == short_id_at(k) {
            assert(short_id_at(j)[0] == short_id_at(k)[0]);
            assert(short_id_at(j)[1] == short_id_at(k)[1]);
            assert(0 <= (j - 26) / 26 < 26 && 0 <= (j - 26) % 26 < 26) by (nonlinear_arith)
                requires
                    26 <= j < 702,
            ;
            assert(0 <= (k - 26) / 26 < 26 && 0 <= (k - 26) % 26 < 26) by (nonlinear_arith)
                requires
                    26 <= k < 702,
            ;
            lemma_letter_injective((j - 26) / 26, (k - 26) / 26);
            lemma_letter_injective((j - 26) % 26, (k - 26) % 26);
            assert(j == k) by (nonlinear_arith)
                requires
                    (j - 26) / 26 == (k - 26) / 26,
                    (j - 26) % 26 == (k - 26) % 26,
            ;
        }
    } else {
        assert(short_id_at(j).len() != short_id_at(k).len());
    }
}

proof fn lemma_first_free_from(existing: Seq<Seq<char>>, i: int)
    requires
        0 <= i <= short_id_count(),
    ensures
        (forall|k: int| i <= k < short_id_count() ==> existing.contains(#[trigger] short_id_at(k)))
            ==> first_free_id_from(existing, i) == "??"@,
        (exists|k: int| i <= k < short_id_count() && !existing.contains(#[trigger] short_id_at(k)))
            ==> exists|j: int|
            i <= j < short_id_count() && first_free_id_from(existing, i) == #[trigger] short_id_at(j)
                && !existing.contains(short_id_at(j)) && forall|m: int|
                i <= m < j ==> existing.contains(#[trigger] short_id_at(m)),
    decreases short_id_count() - i,
{
    if i < short_id_count() {
        lemma_first_free_from(existing, i + 1);
        if !existing.contains(short_id_at(i)) {
            assert(first_free_id_from(existing, i) == short_id_at(i));
        } else {
            if exists|k: int| i <= k < short_id_count() && !existing.contains(#[trigger] short_id_at(k)) {
                let k = choose|k: int| i <= k < short_id_count() && !existing.contains(#[trigger] short_id_at(k));
                assert(k != i);
                assert(i + 1 <= k < short_id_count() && !existing.contains(short_id_at(k)));
                let j = choose|j: int|
                    i + 1 <= j < short_id_count() && first_free_id_from(existing, i + 1) == #[trigger] short_id_at(j)
                        && !existing.contains(short_id_at(j)) && forall|m: int|
                        i + 1 <= m < j ==> existing.contains(#[trigger] short_id_at(m));
                assert forall|m: int| i <= m < j implies existing.contains(#[trigger] short_id_at(m)) by {
                    if m > i {
                        assert(i + 1 <= m < j);
                    }
                }
            }
        }
    }
}

/// Law: while fewer than 702 identifiers are taken, the next short identifier is
/// one of the 702 and is not among the taken ones.
pub proof fn law_next_short_id_is_fresh(existing: Seq<Seq<char>>)
    requires
        existing.len() < short_id_count(),
    ensures
        is_short_id(next_short_id(existing)),
        !existing.contains(next_short_id(existing)),
{
    let all = first_short_ids(short_id_count());
    if forall|k: int| 0 <= k < short_id_count() ==> existing.contains(#[trigger] short_id_at(k)) {
        assert forall|a: int, b: int| 0 <= a < all.len() && 0 <= b < all.len() && a != b implies all[a]
            != all[b] by {
            law_short_ids_distinct(a, b);
        }
        all.unique_seq_to_set();
        assert(all.to_set().subset_of(existing.to_set())) by {
            assert forall|t: Seq<char>| all.to_set().contains(t) implies existing.to_set().contains(t) by {
                let k = choose|k: int| 0 <= k < all.len() && all[k] == t;
                assert(existing.contains(short_id_at(k)));
            }
        }
        existing.lemma_cardinality_of_set();
        vstd::seq_lib::seq_to_set_is_finite(existing);
        vstd::set_lib::lemma_len_subset(all.to_set(), existing.to_set());
        assert(false);
    }
    lemma_first_free_from(existing, 0);
    let k = choose|k: int| 0 <= k < short_id_count() && !existing.contains(#[trigger] short_id_at(k));
    assert(0 <= k < short_id_count() && !existing.contains(short_id_at(k)));
}

/// Law: when exactly the first `n` identifiers are taken, in order, the next one is
/// the `n`-th (a, b, ..., z, aa, ab, ...).
pub proof fn law_short_ids_in_order(n: int)
    requires
        0 <= n < short_id_count(),
    ensures
        next_short_id(first_short_ids(n)) == short_id_at(n),
{
    let existing = first_short_ids(n);
    assert forall|k: int| 0 <= k < n implies existing.contains(#[trigger] short_id_at(k)) by {
        assert(existing[k] == short_id_at(k));
    }
    assert(!existing.contains(short_id_at(n))) by {
        if existing.contains(short_id_at(n)) {
            let k = choose|k: int| 0 <= k < existing.len() && existing[k] == short_id_at(n);
            law_short_ids_distinct(k, n);
        }
    }
    lemma_first_free_from(existing, 0);
    let j = choose|j: int|
        0 <= j < short_id_count() && next_short_id(existing) == #[trigger] short_id_at(j)
            && !existing.contains(short_id_at(j)) && forall|m: int|
            0 <= m < j ==> existing.contains(#[trigger] short_id_at(m));
    if j < n {
        assert(existing.contains(short_id_at(j)));
    }
    if j > n {
        assert(existing.contains(short_id_at(n)));
    }
}

/// Whether `list` holds a string with the text of `s`.
pub(crate) fn contains_text(list: &[String], s: &String) -> (res: bool)
    ensures
        res == texts(list@).contains(s@),
{
    let mut i: usize = 0;
    while i < list.len()
        invariant
            i <= list.len(),
            forall|j: int| 0 <= j < i ==> list@[j]@ != s@,
        decreases list.len() - i,
    {
        if list[i] == *s {
            assert(texts(list@)[i as int] == s@);
            return true;
        }
        i += 1;
    }
    proof {
        if texts(list@).contains(s@) {
            let j = choose|j: int| 0 <= j < texts(list@).len() && texts(list@)[j] == s@;
            assert(list@[j]@ == s@);
        }
    }
    false
}

/// A new short identifier that none of `existing_ids` holds: the first one in the
/// order a, b, ..., z, aa, ab, ..., zz that is free, or `"??"` when all 702 are taken.
pub fn generate_short_id(existing_ids: &[String]) -> (res: String)
    ensures
        res@ == next_short_id(texts(existing_ids@)),
{
    let ids = all_possible_ids();
    let ghost existing = texts(existing_ids@);
    let mut i: usize = 0;
    while i < ids.len()
        invariant
            ids.len() == short_id_count(),
            lists_all_short_ids(ids@),
            existing == texts(existing_ids@),
            i <= ids.len(),
            next_short_id(existing) == first_free_id_from(existing, i as int),
        decreases ids.len() - i,
    {
        assert(ids@[i as int]@ == short_id_at(i as int));
        if !contains_text(existing_ids, &ids[i]) {
            return ids[i].clone();
        }
        i += 1;
    }
    "??".to_owned()
}

// ───────────────────────────────────────────────
// Arranger notation
// ───────────────────────────────────────────────

/// The end of the run of ASCII digits that starts at `i`.
pub open spec fn digit_run_end(s: Seq<char>, i: int) -> int
    decreases s.len() - i,
{
    if 0 <= i < s.len() && is_digit(s[i]) {
        digit_run_end(s, i + 1)
    } else {
        i
    }
}

/// The decimal value of the digits `s[a..b]`.
pub open spec fn digits_nat(s: Seq<char>, a: int, b: int) -> nat
    decreases b - a,
{
    if b <= a {
        0
    } else {
        digits_nat(s, a, b - 1) * 10 + digit_value(s[b - 1])
    }
}

/// The repeat count that the digits `s[a..b]` give: 1 when there are none,
/// else their decimal value modulo 2^32.
pub open spec fn repeat_count(s: Seq<char>, a: int, b: int) -> u32 {
    if b > a {
        (digits_nat(s, a, b) % 0x1_0000_0000) as u32
    } else {
        1
    }
}

/// The character after position `j` ends an identifier: there is none, or it is
/// a digit, whitespace or a parenthesis.
pub open spec fn delimiter_follows(s: Seq<char>, j: int) -> bool {
    ||| j + 1 >= s.len()
    ||| is_digit(s[j + 1])
    ||| is_unicode_whitespace(s[j + 1])
    ||| s[j + 1] == ')'
    ||| s[j + 1] == '('
}

/// The length of the identifier that starts with the letter at `k`. Inside a
/// group (`grouped`) it is two when a second letter follows, so that "(aa)" names
/// "aa"; elsewhere it is two when a second letter follows that is itself not the
/// last character before a delimiter, so that "abc" reads as "ab" then "c".
pub open spec fn id_len(s: Seq<char>, k: int, grouped: bool) -> int {
    if k + 1 < s.len() && is_lower(s[k + 1]) && (grouped || !delimiter_follows(s, k + 1)) {
        2
    } else {
        1
    }
}

/// The error for a missing letter at `pos`.
pub open spec fn expected_letter_message(pos: int) -> Seq<char> {
    "Verwacht een letter op positie "@ + decimal(pos as nat)
}

/// The error for a missing closing parenthesis at `pos`.
pub open spec fn missing_paren_message(pos: int) -> Seq<char> {
    "Missend haakje op positie "@ + decimal(pos as nat)
}

/// The error for the character `c` at `pos`, which no step can start with.
pub open spec fn invalid_char_message(c: char, pos: int) -> Seq<char> {
    "Ongeldig teken '"@ + seq![c] + "' op positie "@ + decimal(pos as nat)
}

/// `steps` followed by the steps of `rest`, or the error of `rest`.
pub open spec fn prepend(
    steps: Seq<(Seq<char>, u32)>,
    rest: Result<Seq<(Seq<char>, u32)>, Seq<char>>,
) -> Result<Seq<(Seq<char>, u32)>, Seq<char>> {
    match rest {
        Ok(v) => Ok(steps + v),
        Err(e) => Err(e),
    }
}

pub proof fn lemma_digit_run_end(s: Seq<char>, i: int)
    requires
        0 <= i <= s.len(),
    ensures
        i <= digit_run_end(s, i) <= s.len(),
        forall|j: int| i <= j < digit_run_end(s, i) ==> is_digit(#[trigger] s[j]),
        digit_run_end(s, i) < s.len() ==> !is_digit(s[digit_run_end(s, i)]),
    decreases s.len() - i,
{
    if i < s.len() && is_digit(s[i]) {
        lemma_digit_run_end(s, i + 1);
    }
}

/// The steps that the lower-cased notation `s` describes from position `i` on.
///
/// Whitespace is skipped. `(` opens a group holding an optional repeat count
/// and one identifier of one or two letters, closed by `)`. Outside a group a step is an optional
/// repeat count followed by an identifier; a trailing count without identifier
/// is ignored. Identifiers are one or two letters (see `id_len`).
pub open spec fn parse_from(s: Seq<char>, i: int) -> Result<Seq<(Seq<char>, u32)>, Seq<char>>
    decreases s.len() - i,
{
    if i < 0 || i >= s.len() {
        Ok(seq![])
    } else if is_unicode_whitespace(s[i]) {
        parse_from(s, i + 1)
    } else if s[i] == '(' {
        proof {
            lemma_digit_run_end(s, i + 1);
        }
        let k = digit_run_end(s, i + 1);
        let rep = repeat_count(s, i + 1, k);
        if k >= s.len() || !is_lower(s[k]) {
            Err(expected_letter_message(k))
        } else {
            let e = k + id_len(s, k, true);
            if e >= s.len() || s[e] != ')' {
                Err(missing_paren_message(e))
            } else {
                prepend(seq![(s.subrange(k, e), rep)], parse_from(s, e + 1))
            }
        }
    } else {
        proof {
            lemma_digit_run_end(s, i);
        }
        let k = digit_run_end(s, i);
        let rep = repeat_count(s, i, k);
        if k < s.len() && is_lower(s[k]) {
            let e = k + id_len(s, k, false);
            prepend(seq![(s.subrange(k, e), rep)], parse_from(s, e))
        } else if k < s.len() {
            Err(invalid_char_message(s[k], k))
        } else {
            Ok(seq![])
        }
    }
}

/// The steps (identifier, repeat count) that the lower-cased notation `s` describes,
/// or the error message for it.
pub open spec fn parse_notation(s: Seq<char>) -> Result<Seq<(Seq<char>, u32)>, Seq<char>> {
    parse_from(s, 0)
}

/// The texts and counts of parsed steps.
pub open spec fn steps_view(v: Seq<(String, u32)>) -> Seq<(Seq<char>, u32)> {
    v.map_values(|p: (String, u32)| (p.0@, p.1))
}

/// A parse outcome seen through its texts.
pub open spec fn outcome_view(r: Result<Vec<(String, u32)>, String>) -> Result<
    Seq<(Seq<char>, u32)>,
    Seq<char>,
> {
    match r {
        Ok(v) => Ok(steps_view(v@)),
        Err(e) => Err(e@),
    }
}

fn message_with_position(prefix: &str, pos: usize) -> (res: String)
    ensures
        res@ == prefix@ + decimal(pos as nat),
{
    let mut m = prefix.to_owned();
    let d = decimal_string(pos);
    m.append(d.as_str());
    m
}

fn invalid_char_error(c: char, pos: usize) -> (res: String)
    ensures
        res@ == invalid_char_message(c, pos as int),
{
    let mut m = "Ongeldig teken '".to_owned();
    push_char(&mut m, c);
    m.append("' op positie ");
    let d = decimal_string(pos);
    m.append(d.as_str());
    proof {
        assert(m@ =~= invalid_char_message(c, pos as int));
    }
    m
}

/// Reads the run of digits that starts at `i`: its value modulo 2^32 and its end.
fn read_number(s: &[char], i: usize) -> (res: (u32, usize))
    requires
        i <= s.len(),
    ensures
        res.1 == digit_run_end(s@, i as int),
        res.0 == (digits_nat(s@, i as int, res.1 as int) % 0x1_0000_0000) as u32,
{
    proof {
        lemma_digit_run_end(s@, i as int);
    }
    let mut n: u32 = 0;
    let mut j: usize = i;
    while j < s.len() && is_ascii_digit(s[j])
        invariant
            i <= j <= s.len(),
            digit_run_end(s@, i as int) == digit_run_end(s@, j as int),
            n == (digits_nat(s@, i as int, j as int) % 0x1_0000_0000) as u32,
        decreases s.len() - j,
    {
        let d: u32 = (s[j] as u32) - 48;
        proof {
            let m: int = 0x1_0000_0000;
            let x = digits_nat(s@, i as int, j as int) as int;
            assert(digits_nat(s@, i as int, j + 1) == x * 10 + d);
            vstd::arithmetic::div_mod::lemma_mul_mod_noop_left(x, 10, m);
            vstd::arithmetic::div_mod::lemma_add_mod_noop(x * 10, d as int, m);
            vstd::arithmetic::div_mod::lemma_mod_twice((x % m) * 10, m);
            assert((n as int * 10) % m == (x * 10) % m);
        }
        n = n.wrapping_mul(10).wrapping_add(d);
        j += 1;
    }
    (n, j)
}

/// Whether the character after position `i` ends an identifier.
fn is_delimiter_after(s: &[char], i: usize) -> (res: bool)
    requires
        i < s.len(),
    ensures
        res == delimiter_follows(s@, i as int),
{
    if i + 1 >= s.len() {
        return true;
    }
    let next = s[i + 1];
    is_ascii_digit(next) || is_whitespace(next) || next == ')' || next == '('
}

/// Reads one identifier of one or two letters at `*i` and moves past it; `grouped`
/// tells whether it stands inside parentheses (see `id_len`).
fn read_id(s: &[char], i: &mut usize, grouped: bool) -> (res: Result<String, String>)
    requires
        *old(i) <= s.len(),
    ensures
        ({
            let i0 = *old(i) as int;
            if i0 < s.len() && is_lower(s@[i0]) {
                &&& *final(i) == i0 + id_len(s@, i0, grouped)
                &&& res matches Ok(id) && id@ == s@.subrange(i0, i0 + id_len(s@, i0, grouped))
            } else {
                &&& *final(i) == i0
                &&& res matches Err(e) && e@ == expected_letter_message(i0)
            }
        }),
{
    if *i >= s.len() || !is_ascii_lowercase(s[*i]) {
        return Err(message_with_position("Verwacht een letter op positie ", *i));
    }
    let ghost i0 = *i as int;
    let mut id = String::new();
    push_char(&mut id, s[*i]);
    *i += 1;
    if *i < s.len() && is_ascii_lowercase(s[*i]) && (grouped || !is_delimiter_after(s, *i)) {
        push_char(&mut id, s[*i]);
        *i += 1;
    }
    proof {
        assert(id@ =~= s@.subrange(i0, i0 + id_len(s@, i0, grouped)));
    }
    Ok(id)
}

proof fn lemma_prepend_prepend(
    a: Seq<(Seq<char>, u32)>,
    b: Seq<(Seq<char>, u32)>,
    r: Result<Seq<(Seq<char>, u32)>, Seq<char>>,
)
    ensures
        prepend(a, prepend(b, r)) == prepend(a + b, r),
{
    match r {
        Ok(v) => {
            assert(a + (b + v) =~= (a + b) + v);
        },
        Err(e) => {},
    }
}

/// Parses arranger notation whose letters are already lower case into
/// (identifier, repeats) steps; see `parse_from` for the grammar.
pub fn parse_arranger_chars(s: &[char]) -> (res: Result<Vec<(String, u32)>, String>)
    ensures
        outcome_view(res) == parse_notation(s@),
{
    let mut i: usize = 0;
    let mut result: Vec<(String, u32)> = Vec::new();
    while i < s.len()
        invariant
            i <= s.len(),
            parse_notation(s@) == prepend(steps_view(result@), parse_from(s@, i as int)),
        decreases s.len() - i,
    {
        let ghost start = i as int;
        if is_whitespace(s[i]) {
            i += 1;
        } else if s[i] == '(' {
            i += 1;
            proof {
                lemma_digit_run_end(s@, i as int);
            }
            let mut repeats: u32 = 1;
            if i < s.len() && is_ascii_digit(s[i]) {
                let (n, j) = read_number(s, i);
                repeats = n;
                i = j;
            }
            assert(i == digit_run_end(s@, start + 1));
            assert(repeats == repeat_count(s@, start + 1, i as int));
            let id = match read_id(s, &mut i, true) {
                Ok(id) => id,
                Err(e) => {
                    return Err(e);
                },
            };
            if i >= s.len() || s[i] != ')' {
                return Err(message_with_position("Missend haakje op positie ", i));
            }
            i += 1;
            let ghost old_result = result@;
            result.push((id, repeats));
            proof {
                let step = seq![(id@, repeats)];
                assert(steps_view(result@) =~= steps_view(old_result) + step);
                lemma_prepend_prepend(steps_view(old_result), step, parse_from(s@, i as int));
            }
        } else {
            proof {
                lemma_digit_run_end(s@, i as int);
            }
            let mut repeats: u32 = 1;
            if is_ascii_digit(s[i]) {
                let (n, j) = read_number(s, i);
                repeats = n;
                i = j;
            }
            assert(i == digit_run_end(s@, start));
            assert(repeats == repeat_count(s@, start, i as int));
            if i < s.len() && is_ascii_lowercase(s[i]) {
                let id = match read_id(s, &mut i, false) {
                    Ok(id) => id,
                    Err(e) => {
                        return Err(e);
                    },
                };
                let ghost old_result = result@;
                result.push((id, repeats));
                proof {
                    let step = seq![(id@, repeats)];
                    assert(steps_view(result@) =~= steps_view(old_result) + step);
                    lemma_prepend_prepend(steps_view(old_result), step, parse_from(s@, i as int));
                }
            } else if i < s.len() {
                return Err(invalid_char_error(s[i], i));
            } else {
                assert(parse_from(s@, start) == Ok::<Seq<(Seq<char>, u32)>, Seq<char>>(seq![]));
            }
        }
    }
    assert(steps_view(result@) + seq![] =~= steps_view(result@));
    Ok(result)
}

/// What `str::to_lowercase` returns for a string with these characters.
pub uninterp spec fn lowercase_text(s: Seq<char>) -> Seq<char>;

/// Every character of `s` is ASCII.
pub open spec fn all_ascii(s: Seq<char>) -> bool {
    forall|i: int| 0 <= i < s.len() ==> (#[trigger] s[i] as u32) < 128
}

/// `s` with the ASCII upper-case letters replaced by their lower-case forms.
pub open spec fn ascii_lowercase(s: Seq<char>) -> Seq<char> {
    s.map_values(|c: char| if is_upper(c) { (c as int + 32) as char } else { c })
}

/// `str::to_lowercase`: the Unicode lower-case mapping of `s`. Its result is
/// named by `lowercase_text`; on ASCII text it lowers exactly the letters A-Z.
#[verifier::external_body]
fn to_lowercase(s: &str) -> (res: String)
    ensures
        res@ == lowercase_text(s@),
        all_ascii(s@) ==> res@ == ascii_lowercase(s@),
{
    s.to_lowercase()
}

/// Parses arranger notation into (identifier, repeats) steps after lower-casing it.
///
/// Examples: "ABC" gives [(ab, 1), (c, 1)]; "2b3A" gives [(b, 2), (a, 3)];
/// "(aa)b" gives [(aa, 1), (b, 1)]; "(3a)b" gives [(a, 3), (b, 1)]. Letters are
/// case-insensitive.
pub fn parse_arranger_string(input: &str) -> (res: Result<Vec<(String, u32)>, String>)
    ensures
        outcome_view(res) == parse_notation(lowercase_text(input@)),
        all_ascii(input@) ==> outcome_view(res) == parse_notation(ascii_lowercase(input@)),
{
    let lower = to_lowercase(input);
    let chars = chars_of(lower.as_str());
    parse_arranger_chars(chars.as_slice())
}

/// `text` is one of the 702 short identifiers.
pub open spec fn is_short_id(text: Seq<char>) -> bool {
    exists|k: int| 0 <= k < short_id_count() && #[trigger] short_id_at(k) == text
}

proof fn lemma_letter_index(c: char)
    requires
        is_lower(c),
    ensures
        letter(c as int - 97) == c,
{
}

proof fn lemma_one_letter_is_short_id(c: char)
    requires
        is_lower(c),
    ensures
        is_short_id(seq![c]),
{
    lemma_letter_index(c);
    let k = c as int - 97;
    assert(short_id_at(k) =~= seq![c]);
}

proof fn lemma_two_letters_are_short_id(c1: char, c2: char)
    requires
        is_lower(c1),
        is_lower(c2),
    ensures
        is_short_id(seq![c1, c2]),
{
    lemma_letter_index(c1);
    lemma_letter_index(c2);
    let a = c1 as int - 97;
    let b = c2 as int - 97;
    let k = 26 + 26 * a + b;
    assert((k - 26) / 26 == a && (k - 26) % 26 == b) by (nonlinear_arith)
        requires
            k == 26 + 26 * a + b,
            0 <= a < 26,
            0 <= b < 26,
    ;
    assert(short_id_at(k) =~= seq![c1, c2]);
}

proof fn lemma_parsed_id_is_short_id(s: Seq<char>, k: int, grouped: bool)
    requires
        0 <= k < s.len(),
        is_lower(s[k]),
    ensures
        is_short_id(s.subrange(k, k + id_len(s, k, grouped))),
{
    if id_len(s, k, grouped) == 1 {
        lemma_one_letter_is_short_id(s[k]);
        assert(s.subrange(k, k + 1) =~= seq![s[k]]);
    } else {
        lemma_two_letters_are_short_id(s[k], s[k + 1]);
        assert(s.subrange(k, k + 2) =~= seq![s[k], s[k + 1]]);
    }
}

proof fn lemma_parse_from_short_ids(s: Seq<char>, i: int)
    ensures
        parse_from(s, i) matches Ok(steps) ==> forall|j: int|
            0 <= j < steps.len() ==> is_short_id(#[trigger] steps[j].0),
    decreases s.len() - i,
{
    if i < 0 || i >= s.len() {
    } else if is_unicode_whitespace(s[i]) {
        lemma_parse_from_short_ids(s, i + 1);
    } else if s[i] == '(' {
        lemma_digit_run_end(s, i + 1);
        let k = digit_run_end(s, i + 1);
        if k < s.len() && is_lower(s[k]) {
            let e = k + id_len(s, k, true);
            if e < s.len() && s[e] == ')' {
                lemma_parse_from_short_ids(s, e + 1);
                lemma_parsed_id_is_short_id(s, k, true);
            }
        }
    } else {
        lemma_digit_run_end(s, i);
        let k = digit_run_end(s, i);
        if k < s.len() && is_lower(s[k]) {
            let e = k + id_len(s, k, false);
            lemma_parse_from_short_ids(s, e);
            lemma_parsed_id_is_short_id(s, k, false);
        }
    }
}

/// Law: outside parentheses, two letters followed by a digit, whitespace, '(' or
/// ')', or by nothing, are two one-letter steps: e.g. "ab(2c)" starts with the
/// steps a and b.
pub proof fn law_letters_before_delimiter_stay_apart(s: Seq<char>, k: int)
    requires
        0 <= k,
        k + 1 < s.len(),
        is_lower(s[k]),
        is_lower(s[k + 1]),
        k + 2 == s.len() || s[k + 2] == '(' || s[k + 2] == ')' || is_digit(s[k + 2])
            || is_unicode_whitespace(s[k + 2]),
    ensures
        parse_from(s, k) == prepend(seq![(seq![s[k]], 1u32), (seq![s[k + 1]], 1u32)], parse_from(s, k + 2)),
{
    lemma_digit_run_end(s, k);
    lemma_digit_run_end(s, k + 1);
    assert(digit_run_end(s, k) == k);
    assert(digit_run_end(s, k + 1) == k + 1);
    assert(delimiter_follows(s, k + 1));
    assert(id_len(s, k, false) == 1);
    assert(k + 2 < s.len() ==> !is_lower(s[k + 2])) by {
        if k + 2 < s.len() && is_unicode_whitespace(s[k + 2]) {
            assert(!('a' <= s[k + 2] && s[k + 2] <= 'z'));
        }
    }
    assert(id_len(s, k + 1, false) == 1);
    assert(!is_unicode_whitespace(s[k]) && !is_unicode_whitespace(s[k + 1]));
    assert(s.subrange(k, k + 1) =~= seq![s[k]]);
    assert(s.subrange(k + 1, k + 2) =~= seq![s[k + 1]]);
    assert(s[k + 1] != '(' && is_lower(s[k + 1]) && !is_digit(s[k + 1]));
    assert(repeat_count(s, k + 1, k + 1) == 1);
    assert(parse_from(s, k + 1) == prepend(seq![(seq![s[k + 1]], 1u32)], parse_from(s, k + 2)));
    lemma_prepend_prepend(seq![(seq![s[k]], 1u32)], seq![(seq![s[k + 1]], 1u32)], parse_from(s, k + 2));
    assert(seq![(seq![s[k]], 1u32)] + seq![(seq![s[k + 1]], 1u32)] =~= seq![
        (seq![s[k]], 1u32),
        (seq![s[k + 1]], 1u32),
    ]);
}

/// Law: outside parentheses, two letters followed by a third letter form one
/// two-letter step: e.g. "abc" starts with the step ab.
pub proof fn law_letters_before_letter_join(s: Seq<char>, k: int)
    requires
        0 <= k,
        k + 2 < s.len(),
        is_lower(s[k]),
        is_lower(s[k + 1]),
        is_lower(s[k + 2]),
    ensures
        parse_from(s, k) == prepend(seq![(seq![s[k], s[k + 1]], 1u32)], parse_from(s, k + 2)),
{
    lemma_digit_run_end(s, k);
    assert(digit_run_end(s, k) == k);
    assert(s.subrange(k, k + 2) =~= seq![s[k], s[k + 1]]);
}

/// Law: inside parentheses an identifier of two letters is accepted: "(" then two
/// letters then ")" is one step with those two letters, e.g. "(aa)b" starts with aa.
pub proof fn law_two_letters_in_parentheses(s: Seq<char>, k: int)
    requires
        0 <= k,
        k + 3 < s.len(),
        s[k] == '(',
        is_lower(s[k + 1]),
        is_lower(s[k + 2]),
        s[k + 3] == ')',
    ensures
        parse_from(s, k) == prepend(seq![(seq![s[k + 1], s[k + 2]], 1u32)], parse_from(s, k + 4)),
{
    lemma_digit_run_end(s, k + 1);
    assert(digit_run_end(s, k + 1) == k + 1);
    assert(s.subrange(k + 1, k + 3) =~= seq![s[k + 1], s[k + 2]]);
}

/// Law: whitespace between steps is skipped.
pub proof fn law_whitespace_is_skipped(s: Seq<char>, k: int)
    requires
        0 <= k < s.len(),
        is_unicode_whitespace(s[k]),
    ensures
        parse_from(s, k) == parse_from(s, k + 1),
{
}

/// Law: outside parentheses, a digit before a letter that no further letter
/// follows is that letter's repeat count: "3a" is the step a, three times.
pub proof fn law_digit_before_letter_is_its_count(s: Seq<char>, k: int)
    requires
        0 <= k,
        k + 1 < s.len(),
        is_digit(s[k]),
        is_lower(s[k + 1]),
        k + 2 == s.len() || !is_lower(s[k + 2]),
    ensures
        parse_from(s, k) == prepend(seq![(seq![s[k + 1]], digit_value(s[k]) as u32)], parse_from(s, k + 2)),
{
    lemma_digit_run_end(s, k);
    lemma_digit_run_end(s, k + 1);
    assert(digit_run_end(s, k + 1) == k + 1);
    assert(digit_run_end(s, k) == k + 1);
    assert(digits_nat(s, k, k) == 0);
    assert(digits_nat(s, k, k + 1) == digit_value(s[k]));
    assert(digit_value(s[k]) < 10);
    assert(repeat_count(s, k, k + 1) == digit_value(s[k]) as u32);
    assert(!is_unicode_whitespace(s[k]));
    assert(id_len(s, k + 1, false) == 1);
    assert(s.subrange(k + 1, k + 2) =~= seq![s[k + 1]]);
}

/// Law: every identifier that the arranger notation yields is one of the short
/// identifiers that `generate_short_id` hands out (one or two letters a-z).
pub proof fn law_parsed_ids_are_short_ids(s: Seq<char>)
    ensures
        parse_notation(s) matches Ok(steps) ==> forall|j: int|
            0 <= j < steps.len() ==> is_short_id(#[trigger] steps[j].0),
{
    lemma_parse_from_short_ids(s, 0);
}

// ───────────────────────────────────────────────
// Step colours
// ───────────────────────────────────────────────

/// The write history (vstd's view of a `DefaultHasher`) after `<str as Hash>::hash`
/// fed `text` to a hasher whose history was `history`.
pub uninterp spec fn str_hash_writes(history: Seq<Seq<u8>>, text: Seq<char>) -> Seq<Seq<u8>>;

/// Feeds `text` to `hasher` with `Hash::hash` for `str`; what that writes is named
/// by `str_hash_writes`. `DefaultHasher::new` and `Hasher::finish` have their
/// specifications from vstd.
#[verifier::external_body]
fn hash_str(text: &str, hasher: &mut DefaultHasher)
    ensures
        final(hasher)@ == str_hash_writes(old(hasher)@, text@),
{
    std::hash::Hash::hash(text, hasher);
}

/// The digest of a fresh `DefaultHasher` (`DefaultHasher::new`, whose keys are
/// fixed) after hashing `text`, as `Hasher::finish` reports it.
pub open spec fn key_hash(text: Seq<char>) -> u64 {
    DefaultHasher::spec_finish(str_hash_writes(Seq::empty(), text))
}

/// The colour for a step whose key hashed to `hash`: hue `hash % 360`,
/// saturation 180 (about 70%), value 230 (about 90%).
pub open spec fn color_of_hash(hash: u64) -> Seq<u8> {
    hsv_channels((hash % 360) as int, 180, 230)
}

/// The key that a step colour is derived from: `"{track_path}:{loop_id}"`.
pub open spec fn color_key(loop_id: Seq<char>, track_path: Seq<char>) -> Seq<char> {
    track_path + ":"@ + loop_id
}

/// The colour for a step whose key hashed to `hash`; no channel exceeds 230.
pub fn color_from_hash(hash: u64) -> (res: [u8; 3])
    ensures
        res@ == color_of_hash(hash),
        res[0] <= 230 && res[1] <= 230 && res[2] <= 230,
{
    let hue = (hash % 360) as u16;
    hsv_to_rgb(hue, 180, 230)
}

/// A stable colour for a loop of a track, derived from the hash of
/// `"{track_path}:{loop_id}"`; no channel exceeds 230.
pub fn color_for_arranger(loop_id: &str, track_path: &str) -> (res: [u8; 3])
    ensures
        res@ == color_of_hash(key_hash(color_key(loop_id@, track_path@))),
        res[0] <= 230 && res[1] <= 230 && res[2] <= 230,
{
    let mut key = track_path.to_owned();
    key.append(":");
    key.append(loop_id);
    let mut hasher = DefaultHasher::new();
    hash_str(key.as_str(), &mut hasher);
    let h = hasher.finish();
    color_from_hash(h)
}

/// The colour a step has after `fixup_colors`: its hashed colour if it still had
/// the default grey, else its own.
pub open spec fn fixed_color(step: ArrStep) -> Seq<u8> {
    if step.color@ == seq![128u8, 128u8, 128u8] {
        color_of_hash(key_hash(color_key(step.loop_id@, step.track_path@)))
    } else {
        step.color@
    }
}

/// `new` is `old` with the colour replaced by `fixed_color(old)`.
pub open spec fn step_fixed(old: ArrStep, new: ArrStep) -> bool {
    &&& new.loop_id == old.loop_id
    &&& new.track_path == old.track_path
    &&& new.repeats == old.repeats
    &&& new.pitch_semitones == old.pitch_semitones
    &&& new.tempo == old.tempo
    &&& new.color@ == fixed_color(old)
}

/// Gives every step that still has the default grey its hashed colour.
pub fn fixup_colors(arrangements: &mut Vec<Arrangement>)
    ensures
        final(arrangements).len() == old(arrangements).len(),
        forall|a: int|
            0 <= a < old(arrangements).len() ==> {
                let o = #[trigger] old(arrangements)@[a];
                let n = final(arrangements)@[a];
                &&& n.name == o.name
                &&& n.steps.len() == o.steps.len()
                &&& forall|k: int|
                    0 <= k < o.steps.len() ==> step_fixed(#[trigger] o.steps@[k], n.steps@[k])
            },
{
    let ghost orig = arrangements@;
    let mut a: usize = 0;
    while a < arrangements.len()
        invariant
            a <= arrangements.len(),
            arrangements.len() == orig.len(),
            forall|b: int|
                a <= b < orig.len() ==> #[trigger] arrangements@[b] == orig[b],
            forall|b: int|
                0 <= b < a ==> {
                    let o = #[trigger] orig[b];
                    let n = arrangements@[b];
                    &&& n.name == o.name
                    &&& n.steps.len() == o.steps.len()
                    &&& forall|k: int|
                        0 <= k < o.steps.len() ==> step_fixed(#[trigger] o.steps@[k], n.steps@[k])
                },
        decreases arrangements.len() - a,
    {
        let mut k: usize = 0;
        let ghost before = arrangements@;
        while k < arrangements[a].steps.len()
            invariant
                a < arrangements.len(),
                arrangements.len() == orig.len(),
                before.len() == orig.len(),
                forall|b: int| 0 <= b < orig.len() && b != a ==> #[trigger] arrangements@[b] == before[b],
                arrangements@[a as int].name == orig[a as int].name,
                arrangements@[a as int].steps.len() == orig[a as int].steps.len(),
                k <= arrangements@[a as int].steps.len(),
                forall|j: int|
                    k <= j < orig[a as int].steps.len() ==> #[trigger] arrangements@[a as int].steps@[j]
                        == orig[a as int].steps@[j],
                forall|j: int|
                    0 <= j < k ==> step_fixed(#[trigger] orig[a as int].steps@[j], arrangements@[a as int].steps@[j]),
            decreases arrangements@[a as int].steps.len() - k,
        {
            let grey = {
                let c = &arrangements[a].steps[k].color;
                c[0] == 128 && c[1] == 128 && c[2] == 128
            };
            if grey {
                let color = color_for_arranger(
                    arrangements[a].steps[k].loop_id.as_str(),
                    arrangements[a].steps[k].track_path.as_str(),
                );
                assert(arrangements@[a as int].steps@[k as int].color@ =~= seq![128u8, 128u8, 128u8]);
                arrangements[a].steps[k].color = color;
            } else {
                assert(arrangements@[a as int].steps@[k as int].color@ != seq![128u8, 128u8, 128u8]);
            }
            k += 1;
        }
        a += 1;
    }
}

} // verus!
