//! Waveform display vocabulary: channel modes and markers.
use vstd::prelude::*;

verus! {

/// How stereo audio is mixed down to one channel.
#[derive(Debug, Clone, Copy, PartialEq, Eq, Structural)]
pub enum ChannelMode {
    Mono,
    Left,
    Right,
    Mid,
    Side,
}

impl ChannelMode {
    /// The label shown for this mode.
    pub open spec fn display_text(self) -> Seq<char> {
        match self {
            ChannelMode::Mono => "Mono (L+R)"@,
            ChannelMode::Left => "Links (L)"@,
            ChannelMode::Right => "Rechts (R)"@,
            ChannelMode::Mid => "Mid (center)"@,
            ChannelMode::Side => "Side (breedte)"@,
        }
    }

    /// The label shown for this mode.
    pub fn display(&self) -> (res: &'static str)
        ensures
            res@ == self.display_text(),
    {
        match self {
            Self::Mono => "Mono (L+R)",
            Self::Left => "Links (L)",
            Self::Right => "Rechts (R)",
            Self::Mid => "Mid (center)",
            Self::Side => "Side (breedte)",
        }
    }
}

/// Kind of marker; it decides the marker's colour and role.
#[derive(Debug, Clone, Copy, PartialEq, Eq, Structural)]
pub enum MarkerKind {
    /// A section ("Intro", "Chorus"): gold.
    Section,
    /// A measure: blue.
    Measure,
    /// A beat: green.
    Beat,
}

impl MarkerKind {
    /// The fill colour (RGB) of the marker triangle.
    pub open spec fn color_rgb(self) -> Seq<u8> {
        match self {
            MarkerKind::Section => seq![220u8, 180u8, 50u8],
            MarkerKind::Measure => seq![80u8, 160u8, 255u8],
            MarkerKind::Beat => seq![80u8, 220u8, 120u8],
        }
    }

    /// The outline colour (RGB), a little darker than the fill.
    pub open spec fn stroke_rgb(self) -> Seq<u8> {
        match self {
            MarkerKind::Section => seq![180u8, 140u8, 30u8],
            MarkerKind::Measure => seq![50u8, 120u8, 200u8],
            MarkerKind::Beat => seq![50u8, 170u8, 80u8],
        }
    }

    /// The prefix of generated marker names.
    pub open spec fn prefix_text(self) -> Seq<char> {
        match self {
            MarkerKind::Section => "S"@,
            MarkerKind::Measure => "M"@,
            MarkerKind::Beat => "B"@,
        }
    }

    /// The fill colour (RGB) of the marker triangle.
    pub fn color(&self) -> (res: [u8; 3])
        ensures
            res@ == self.color_rgb(),
    {
        let res = match self {
            MarkerKind::Section => [220u8, 180u8, 50u8],
            MarkerKind::Measure => [80u8, 160u8, 255u8],
            MarkerKind::Beat => [80u8, 220u8, 120u8],
        };
        assert(res@ =~= self.color_rgb());
        res
    }

    /// The outline colour (RGB), a little darker than the fill.
    pub fn stroke_color(&self) -> (res: [u8; 3])
        ensures
            res@ == self.stroke_rgb(),
    {
        let res = match self {
            MarkerKind::Section => [180u8, 140u8, 30u8],
            MarkerKind::Measure => [50u8, 120u8, 200u8],
            MarkerKind::Beat => [50u8, 170u8, 80u8],
        };
        assert(res@ =~= self.stroke_rgb());
        res
    }

    /// The prefix of generated marker names.
    pub fn prefix(&self) -> (res: &'static str)
        ensures
            res@ == self.prefix_text(),
    {
        match self {
            MarkerKind::Section => "S",
            MarkerKind::Measure => "M",
            MarkerKind::Beat => "B",
        }
    }
}

/// A named marker at a position in a track.
///
/// `position_secs` holds the IEEE-754 bit pattern (`f32::to_bits`) of the
/// position in seconds; nothing in this crate computes with it.
#[derive(Debug, Clone)]
pub struct Marker {
    pub name: String,
    pub position_secs: u32,
    pub kind: MarkerKind,
}

} // verus!
