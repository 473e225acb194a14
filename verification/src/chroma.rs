//! Note names for chroma bins and the chroma analysis modes.
use vstd::prelude::*;

verus! {

/// Which part of the spectrum a chroma analysis looks at.
#[derive(Debug, Clone, Copy, PartialEq, Eq, Structural)]
pub enum ChromaMode {
    /// The whole spectrum.
    Full,
    /// Only the bass range (40–250 Hz), which catches a bass guitar's low E/F.
    Bass,
}

/// The twelve pitch-class names, C first.
pub open spec fn note_names() -> Seq<Seq<char>> {
    seq![
        "C"@,
        "C#"@,
        "D"@,
        "D#"@,
        "E"@,
        "F"@,
        "F#"@,
        "G"@,
        "G#"@,
        "A"@,
        "A#"@,
        "B"@,
    ]
}

/// The twelve solfège names, Do first.
pub open spec fn note_names_nl() -> Seq<Seq<char>> {
    seq![
        "Do"@,
        "Do#"@,
        "Re"@,
        "Re#"@,
        "Mi"@,
        "Fa"@,
        "Fa#"@,
        "Sol"@,
        "Sol#"@,
        "La"@,
        "La#"@,
        "Si"@,
    ]
}

/// The name of pitch class `index % 12` (0 = C).
pub fn note_name(index: usize) -> (res: &'static str)
    ensures
        res@ == note_names()[(index % 12) as int],
{
    match index % 12 {
        0 => "C",
        1 => "C#",
        2 => "D",
        3 => "D#",
        4 => "E",
        5 => "F",
        6 => "F#",
        7 => "G",
        8 => "G#",
        9 => "A",
        10 => "A#",
        _ => "B",
    }
}

/// The solfège name of pitch class `index % 12` (0 = Do).
pub fn note_name_nl(index: usize) -> (res: &'static str)
    ensures
        res@ == note_names_nl()[(index % 12) as int],
{
    match index % 12 {
        0 => "Do",
        1 => "Do#",
        2 => "Re",
        3 => "Re#",
        4 => "Mi",
        5 => "Fa",
        6 => "Fa#",
        7 => "Sol",
        8 => "Sol#",
        9 => "La",
        10 => "La#",
        _ => "Si",
    }
}

} // verus!
