//! Keyboard shortcuts, their bindings and the customisable toolbar.
use vstd::prelude::*;


verus! {

/// Actions that can appear as a button in the user-defined toolbar.
#[derive(Debug, Clone, Copy, PartialEq, Eq, Hash, Structural)]
pub enum ToolbarAction {
    Detect,
    ExtendBeats,
    ClearLoop,
    Undo,
    Redo,
    SaveLoop,
    CenterLoop,
    ZoomOut,
    ZoomIn,
    ResetZoom,
    PlaceBeats,
    ToggleArranger,
    Export,
    Setup,
    ToggleAudit,
    TempoDown,
    TempoUp,
    PitchDown,
    PitchUp,
}

impl ToolbarAction {
    /// Short name shown on the button.
    pub open spec fn spec_display_name(self) -> Seq<char> {
        match self {
            Self::Detect => "Detecteer"@,
            Self::ExtendBeats => "Verleng beats"@,
            Self::ClearLoop => "Wis loop"@,
            Self::Undo => "Undo"@,
            Self::Redo => "Redo"@,
            Self::SaveLoop => "Save Loop"@,
            Self::CenterLoop => "Center Loop"@,
            Self::ZoomOut => "Zoom −"@,
            Self::ZoomIn => "Zoom +"@,
            Self::ResetZoom => "Reset"@,
            Self::PlaceBeats => "Beats"@,
            Self::ToggleArranger => "ARR"@,
            Self::Export => "Export"@,
            Self::Setup => "Setup"@,
            Self::ToggleAudit => "Audit"@,
            Self::TempoDown => "Tempo −10%"@,
            Self::TempoUp => "Tempo +10%"@,
            Self::PitchDown => "Pitch −1"@,
            Self::PitchUp => "Pitch +1"@,
        }
    }

    /// Short name shown on the button.
    pub fn display_name(&self) -> (res: &'static str)
        ensures
            res@ == self.spec_display_name(),
    {
        match self {
            Self::Detect => "Detecteer",
            Self::ExtendBeats => "Verleng beats",
            Self::ClearLoop => "Wis loop",
            Self::Undo => "Undo",
            Self::Redo => "Redo",
            Self::SaveLoop => "Save Loop",
            Self::CenterLoop => "Center Loop",
            Self::ZoomOut => "Zoom −",
            Self::ZoomIn => "Zoom +",
            Self::ResetZoom => "Reset",
            Self::PlaceBeats => "Beats",
            Self::ToggleArranger => "ARR",
            Self::Export => "Export",
            Self::Setup => "Setup",
            Self::ToggleAudit => "Audit",
            Self::TempoDown => "Tempo −10%",
            Self::TempoUp => "Tempo +10%",
            Self::PitchDown => "Pitch −1",
            Self::PitchUp => "Pitch +1",
        }
    }

    /// Icon (emoji) of the button.
    pub open spec fn spec_icon(self) -> Seq<char> {
        match self {
            Self::Detect => "\u{1F50D}"@,
            Self::ExtendBeats => "\u{2197}"@,
            Self::ClearLoop => "\u{2715}"@,
            Self::Undo => "\u{21A9}"@,
            Self::Redo => "\u{21AA}"@,
            Self::SaveLoop => "\u{1F4BE}"@,
            Self::CenterLoop => "\u{1F3AF}"@,
            Self::ZoomOut => "\u{1F50D}\u{2212}"@,
            Self::ZoomIn => "\u{1F50D}\u{002B}"@,
            Self::ResetZoom => "\u{27F2}"@,
            Self::PlaceBeats => "\u{1F4CC}"@,
            Self::ToggleArranger => "ARR"@,
            Self::Export => "\u{1F4E4}"@,
            Self::Setup => "\u{2699}"@,
            Self::ToggleAudit => "\u{1F507}"@,
            Self::TempoDown => "\u{1F504}\u{2193}"@,
            Self::TempoUp => "\u{1F504}\u{2191}"@,
            Self::PitchDown => "\u{2B07}"@,
            Self::PitchUp => "\u{2B06}"@,
        }
    }

    /// Icon (emoji) of the button.
    pub fn icon(&self) -> (res: &'static str)
        ensures
            res@ == self.spec_icon(),
    {
        match self {
            Self::Detect => "\u{1F50D}",
            Self::ExtendBeats => "\u{2197}",
            Self::ClearLoop => "\u{2715}",
            Self::Undo => "\u{21A9}",
            Self::Redo => "\u{21AA}",
            Self::SaveLoop => "\u{1F4BE}",
            Self::CenterLoop => "\u{1F3AF}",
            Self::ZoomOut => "\u{1F50D}\u{2212}",
            Self::ZoomIn => "\u{1F50D}\u{002B}",
            Self::ResetZoom => "\u{27F2}",
            Self::PlaceBeats => "\u{1F4CC}",
            Self::ToggleArranger => "ARR",
            Self::Export => "\u{1F4E4}",
            Self::Setup => "\u{2699}",
            Self::ToggleAudit => "\u{1F507}",
            Self::TempoDown => "\u{1F504}\u{2193}",
            Self::TempoUp => "\u{1F504}\u{2191}",
            Self::PitchDown => "\u{2B07}",
            Self::PitchUp => "\u{2B06}",
        }
    }

    /// Long hover text, naming the shortcut.
    pub open spec fn spec_hover_text(self) -> Seq<char> {
        match self {
            Self::Detect => "Analyseer A-B selectie op toonhoogtes en BPM"@,
            Self::ExtendBeats => "Verspreid beat markers over de hele audio"@,
            Self::ClearLoop => "Verwijder A-B selectie (Ctrl+Backspace)"@,
            Self::Undo => "Ongedaan maken (Ctrl+Z)"@,
            Self::Redo => "Opnieuw doen (Ctrl+Y)"@,
            Self::SaveLoop => "Bewaar huidige A-B loop in de bibliotheek (Ctrl+S)"@,
            Self::CenterLoop => "Centreer weergave op de A-B loop (C)"@,
            Self::ZoomOut => "Uitzoomen (Ctrl+\u{2212})"@,
            Self::ZoomIn => "Inzoomen (Ctrl+=)"@,
            Self::ResetZoom => "Reset zoom en scroll (Ctrl+0)"@,
            Self::PlaceBeats => "Plaats een beat marker bij de playhead (B)"@,
            Self::ToggleArranger => "Open/sluit de arranger view"@,
            Self::Export => "Exporteer loops naar WAV (Ctrl+E)"@,
            Self::Setup => "Open setup-venster voor latency, kalibratie en beat audit"@,
            Self::ToggleAudit => "Schakel beat-audit kliktrack aan/uit"@,
            Self::TempoDown => "Verlaag afspeelsnelheid met 10%"@,
            Self::TempoUp => "Verhoog afspeelsnelheid met 10%"@,
            Self::PitchDown => "Verlaag toonhoogte met 1 semitone"@,
            Self::PitchUp => "Verhoog toonhoogte met 1 semitone"@,
        }
    }

    /// Long hover text, naming the shortcut.
    pub fn hover_text(&self) -> (res: &'static str)
        ensures
            res@ == self.spec_hover_text(),
    {
        match self {
            Self::Detect => "Analyseer A-B selectie op toonhoogtes en BPM",
            Self::ExtendBeats => "Verspreid beat markers over de hele audio",
            Self::ClearLoop => "Verwijder A-B selectie (Ctrl+Backspace)",
            Self::Undo => "Ongedaan maken (Ctrl+Z)",
            Self::Redo => "Opnieuw doen (Ctrl+Y)",
            Self::SaveLoop => "Bewaar huidige A-B loop in de bibliotheek (Ctrl+S)",
            Self::CenterLoop => "Centreer weergave op de A-B loop (C)",
            Self::ZoomOut => "Uitzoomen (Ctrl+\u{2212})",
            Self::ZoomIn => "Inzoomen (Ctrl+=)",
            Self::ResetZoom => "Reset zoom en scroll (Ctrl+0)",
            Self::PlaceBeats => "Plaats een beat marker bij de playhead (B)",
            Self::ToggleArranger => "Open/sluit de arranger view",
            Self::Export => "Exporteer loops naar WAV (Ctrl+E)",
            Self::Setup => "Open setup-venster voor latency, kalibratie en beat audit",
            Self::ToggleAudit => "Schakel beat-audit kliktrack aan/uit",
            Self::TempoDown => "Verlaag afspeelsnelheid met 10%",
            Self::TempoUp => "Verhoog afspeelsnelheid met 10%",
            Self::PitchDown => "Verlaag toonhoogte met 1 semitone",
            Self::PitchUp => "Verhoog toonhoogte met 1 semitone",
        }
    }

    /// The shortcut action this button performs.
    pub open spec fn spec_shortcut_action(self) -> Option<ShortcutAction> {
        match self {
            Self::ClearLoop => Some(ShortcutAction::ClearLoop),
            Self::Undo => Some(ShortcutAction::Undo),
            Self::Redo => Some(ShortcutAction::Redo),
            Self::SaveLoop => Some(ShortcutAction::SaveLoop),
            Self::CenterLoop => Some(ShortcutAction::CenterLoop),
            Self::ZoomOut => Some(ShortcutAction::ZoomOut),
            Self::ZoomIn => Some(ShortcutAction::ZoomIn),
            Self::ResetZoom => Some(ShortcutAction::ResetZoom),
            Self::Export => Some(ShortcutAction::ExportLoops),
            Self::Detect => Some(ShortcutAction::Detect),
            Self::ExtendBeats => Some(ShortcutAction::ExtendBeats),
            Self::PlaceBeats => Some(ShortcutAction::PlaceBeats),
            Self::ToggleArranger => Some(ShortcutAction::ToggleArranger),
            Self::Setup => Some(ShortcutAction::Setup),
            Self::ToggleAudit => Some(ShortcutAction::ToggleAudit),
            Self::TempoDown => Some(ShortcutAction::TempoDown),
            Self::TempoUp => Some(ShortcutAction::TempoUp),
            Self::PitchDown => Some(ShortcutAction::PitchDown),
            Self::PitchUp => Some(ShortcutAction::PitchUp),
        }
    }

    /// The shortcut action this button performs; every button has one.
    pub fn shortcut_action(&self) -> (res: Option<ShortcutAction>)
        ensures
            res == self.spec_shortcut_action(),
            res is Some,
    {
        match self {
            Self::ClearLoop => Some(ShortcutAction::ClearLoop),
            Self::Undo => Some(ShortcutAction::Undo),
            Self::Redo => Some(ShortcutAction::Redo),
            Self::SaveLoop => Some(ShortcutAction::SaveLoop),
            Self::CenterLoop => Some(ShortcutAction::CenterLoop),
            Self::ZoomOut => Some(ShortcutAction::ZoomOut),
            Self::ZoomIn => Some(ShortcutAction::ZoomIn),
            Self::ResetZoom => Some(ShortcutAction::ResetZoom),
            Self::Export => Some(ShortcutAction::ExportLoops),
            Self::Detect => Some(ShortcutAction::Detect),
            Self::ExtendBeats => Some(ShortcutAction::ExtendBeats),
            Self::PlaceBeats => Some(ShortcutAction::PlaceBeats),
            Self::ToggleArranger => Some(ShortcutAction::ToggleArranger),
            Self::Setup => Some(ShortcutAction::Setup),
            Self::ToggleAudit => Some(ShortcutAction::ToggleAudit),
            Self::TempoDown => Some(ShortcutAction::TempoDown),
            Self::TempoUp => Some(ShortcutAction::TempoUp),
            Self::PitchDown => Some(ShortcutAction::PitchDown),
            Self::PitchUp => Some(ShortcutAction::PitchUp),
        }
    }

    /// Every toolbar action, in menu order.
    pub open spec fn spec_all() -> Seq<ToolbarAction> {
        seq![
            ToolbarAction::Detect,
            ToolbarAction::ExtendBeats,
            ToolbarAction::ClearLoop,
            ToolbarAction::Undo,
            ToolbarAction::Redo,
            ToolbarAction::SaveLoop,
            ToolbarAction::CenterLoop,
            ToolbarAction::ZoomOut,
            ToolbarAction::ZoomIn,
            ToolbarAction::ResetZoom,
            ToolbarAction::PlaceBeats,
            ToolbarAction::ToggleArranger,
            ToolbarAction::Export,
            ToolbarAction::Setup,
            ToolbarAction::ToggleAudit,
            ToolbarAction::TempoDown,
            ToolbarAction::TempoUp,
            ToolbarAction::PitchDown,
            ToolbarAction::PitchUp,
        ]
    }

    /// Every toolbar action, in menu order (for the customise window).
    pub fn all() -> (res: &'static [ToolbarAction])
        ensures
            res@ == Self::spec_all(),
    {
        let res: &'static [ToolbarAction] = &[
            ToolbarAction::Detect,
            ToolbarAction::ExtendBeats,
            ToolbarAction::ClearLoop,
            ToolbarAction::Undo,
            ToolbarAction::Redo,
            ToolbarAction::SaveLoop,
            ToolbarAction::CenterLoop,
            ToolbarAction::ZoomOut,
            ToolbarAction::ZoomIn,
            ToolbarAction::ResetZoom,
            ToolbarAction::PlaceBeats,
            ToolbarAction::ToggleArranger,
            ToolbarAction::Export,
            ToolbarAction::Setup,
            ToolbarAction::ToggleAudit,
            ToolbarAction::TempoDown,
            ToolbarAction::TempoUp,
            ToolbarAction::PitchDown,
            ToolbarAction::PitchUp,
        ];
        assert(res@ =~= Self::spec_all());
        res
    }

    /// The standard toolbar.
    pub open spec fn spec_default_toolbar() -> Seq<ToolbarAction> {
        seq![
            ToolbarAction::Detect,
            ToolbarAction::ExtendBeats,
            ToolbarAction::ClearLoop,
            ToolbarAction::Undo,
            ToolbarAction::Redo,
            ToolbarAction::Setup,
            ToolbarAction::ToggleAudit,
        ]
    }

    /// The standard toolbar.
    pub fn default_toolbar() -> (res: Vec<ToolbarAction>)
        ensures
            res@ == Self::spec_default_toolbar(),
    {
        let res = vec![
            ToolbarAction::Detect,
            ToolbarAction::ExtendBeats,
            ToolbarAction::ClearLoop,
            ToolbarAction::Undo,
            ToolbarAction::Redo,
            ToolbarAction::Setup,
            ToolbarAction::ToggleAudit,
        ];
        assert(res@ =~= Self::spec_default_toolbar());
        res
    }
}

/// Every action of the application that a key can be bound to.
#[derive(Debug, Clone, Copy, PartialEq, Eq, Hash, Structural)]
pub enum ShortcutAction {
    PlayPause,
    Stop,
    SeekForward,
    SeekBackward,
    Detect,
    ExtendBeats,
    PlaceBeats,
    ToggleArranger,
    Setup,
    ToggleAudit,
    TempoDown,
    TempoUp,
    PitchDown,
    PitchUp,
    SetLoopA,
    SetLoopB,
    ClearLoop,
    ToggleLoopBypass,
    NudgeLoopLeft,
    NudgeLoopRight,
    ToggleLoopPoint,
    NudgeALeft,
    NudgeARight,
    NudgeBLeft,
    NudgeBRight,
    NudgePlayheadLeft,
    NudgePlayheadRight,
    CenterLoop,
    SaveLoop,
    AddSectionMarker,
    AddMeasureMarker,
    AddBeatMarker,
    DeleteNearestMarker,
    ZoomIn,
    ZoomOut,
    ResetZoom,
    ShowShortcuts,
    OpenFile,
    Undo,
    Redo,
    RestartLoop,
    DoubleLoopLength,
    HalveLoopLength,
    SnapLoopLeft,
    SnapLoopRight,
    MarkerPrev,
    MarkerNext,
    ExportLoops,
}

impl ShortcutAction {
    /// Readable name for the user interface.
    pub open spec fn spec_display_name(self) -> Seq<char> {
        match self {
            Self::PlayPause => "Play / Pause"@,
            Self::Stop => "Stop playback"@,
            Self::SeekForward => "Seek forward 2s"@,
            Self::SeekBackward => "Seek backward 2s"@,
            Self::SetLoopA => "Set loop A at playhead"@,
            Self::SetLoopB => "Set loop B at playhead"@,
            Self::ClearLoop => "Clear A-B loop"@,
            Self::ToggleLoopBypass => "Toggle loop bypass"@,
            Self::NudgeLoopLeft => "Nudge loop left"@,
            Self::NudgeLoopRight => "Nudge loop right"@,
            Self::ToggleLoopPoint => "Toggle loop point (1e=set, 2e=A-B)"@,
            Self::NudgeALeft => "Nudge marker A left"@,
            Self::NudgeARight => "Nudge marker A right"@,
            Self::NudgeBLeft => "Nudge marker B left"@,
            Self::NudgeBRight => "Nudge marker B right"@,
            Self::NudgePlayheadLeft => "Nudge playhead left"@,
            Self::NudgePlayheadRight => "Nudge playhead right"@,
            Self::CenterLoop => "Center view on loop"@,
            Self::SaveLoop => "Save current loop"@,
            Self::AddSectionMarker => "Toggle section marker (S)"@,
            Self::AddMeasureMarker => "Toggle measure marker (M)"@,
            Self::AddBeatMarker => "Toggle beat marker (B)"@,
            Self::DeleteNearestMarker => "Delete nearest marker"@,
            Self::ZoomIn => "Zoom in"@,
            Self::ZoomOut => "Zoom out"@,
            Self::ResetZoom => "Reset zoom/scroll"@,
            Self::ShowShortcuts => "Show shortcuts help"@,
            Self::OpenFile => "Open audio file"@,
            Self::Undo => "Undo"@,
            Self::Redo => "Redo"@,
            Self::RestartLoop => "Restart loop (seek to A & play)"@,
            Self::DoubleLoopLength => "Double loop length"@,
            Self::HalveLoopLength => "Halve loop length"@,
            Self::SnapLoopLeft => "Snap loop to nearest marker left"@,
            Self::SnapLoopRight => "Snap loop to nearest marker right"@,
            Self::MarkerPrev => "Seek playhead to previous marker"@,
            Self::MarkerNext => "Seek playhead to next marker"@,
            Self::Detect => "Detect key & BPM"@,
            Self::ExtendBeats => "Extend beats across track"@,
            Self::PlaceBeats => "Place beat markers"@,
            Self::ToggleArranger => "Toggle arranger window"@,
            Self::Setup => "Open setup window"@,
            Self::ToggleAudit => "Toggle beat audit"@,
            Self::TempoDown => "Tempo -10%"@,
            Self::TempoUp => "Tempo +10%"@,
            Self::PitchDown => "Pitch -1 semitone"@,
            Self::PitchUp => "Pitch +1 semitone"@,
            Self::ExportLoops => "Export loops..."@,
        }
    }

    /// Readable name for the user interface.
    pub fn display_name(&self) -> (res: &'static str)
        ensures
            res@ == self.spec_display_name(),
    {
        match self {
            Self::PlayPause => "Play / Pause",
            Self::Stop => "Stop playback",
            Self::SeekForward => "Seek forward 2s",
            Self::SeekBackward => "Seek backward 2s",
            Self::SetLoopA => "Set loop A at playhead",
            Self::SetLoopB => "Set loop B at playhead",
            Self::ClearLoop => "Clear A-B loop",
            Self::ToggleLoopBypass => "Toggle loop bypass",
            Self::NudgeLoopLeft => "Nudge loop left",
            Self::NudgeLoopRight => "Nudge loop right",
            Self::ToggleLoopPoint => "Toggle loop point (1e=set, 2e=A-B)",
            Self::NudgeALeft => "Nudge marker A left",
            Self::NudgeARight => "Nudge marker A right",
            Self::NudgeBLeft => "Nudge marker B left",
            Self::NudgeBRight => "Nudge marker B right",
            Self::NudgePlayheadLeft => "Nudge playhead left",
            Self::NudgePlayheadRight => "Nudge playhead right",
            Self::CenterLoop => "Center view on loop",
            Self::SaveLoop => "Save current loop",
            Self::AddSectionMarker => "Toggle section marker (S)",
            Self::AddMeasureMarker => "Toggle measure marker (M)",
            Self::AddBeatMarker => "Toggle beat marker (B)",
            Self::DeleteNearestMarker => "Delete nearest marker",
            Self::ZoomIn => "Zoom in",
            Self::ZoomOut => "Zoom out",
            Self::ResetZoom => "Reset zoom/scroll",
            Self::ShowShortcuts => "Show shortcuts help",
            Self::OpenFile => "Open audio file",
            Self::Undo => "Undo",
            Self::Redo => "Redo",
            Self::RestartLoop => "Restart loop (seek to A & play)",
            Self::DoubleLoopLength => "Double loop length",
            Self::HalveLoopLength => "Halve loop length",
            Self::SnapLoopLeft => "Snap loop to nearest marker left",
            Self::SnapLoopRight => "Snap loop to nearest marker right",
            Self::MarkerPrev => "Seek playhead to previous marker",
            Self::MarkerNext => "Seek playhead to next marker",
            Self::Detect => "Detect key & BPM",
            Self::ExtendBeats => "Extend beats across track",
            Self::PlaceBeats => "Place beat markers",
            Self::ToggleArranger => "Toggle arranger window",
            Self::Setup => "Open setup window",
            Self::ToggleAudit => "Toggle beat audit",
            Self::TempoDown => "Tempo -10%",
            Self::TempoUp => "Tempo +10%",
            Self::PitchDown => "Pitch -1 semitone",
            Self::PitchUp => "Pitch +1 semitone",
            Self::ExportLoops => "Export loops...",
        }
    }

    /// Category that groups the action in the user interface.
    pub open spec fn spec_category(self) -> Seq<char> {
        match self {
            Self::PlayPause | Self::Stop | Self::SeekForward | Self::SeekBackward => "Playback"@,
            Self::SetLoopA | Self::SetLoopB | Self::ClearLoop | Self::ToggleLoopBypass | Self::NudgeLoopLeft | Self::NudgeLoopRight | Self::ToggleLoopPoint | Self::NudgeALeft | Self::NudgeARight | Self::NudgeBLeft | Self::NudgeBRight | Self::NudgePlayheadLeft | Self::NudgePlayheadRight | Self::CenterLoop | Self::SaveLoop | Self::DoubleLoopLength | Self::HalveLoopLength | Self::SnapLoopLeft | Self::SnapLoopRight => "Loop"@,
            Self::AddSectionMarker | Self::AddMeasureMarker | Self::AddBeatMarker | Self::DeleteNearestMarker | Self::MarkerPrev | Self::MarkerNext => "Markers"@,
            Self::ZoomIn | Self::ZoomOut | Self::ResetZoom | Self::ShowShortcuts => "View"@,
            Self::OpenFile => "File"@,
            Self::Undo | Self::Redo | Self::RestartLoop => "Edit"@,
            Self::Detect | Self::ExtendBeats | Self::PlaceBeats | Self::ToggleArranger | Self::Setup | Self::ToggleAudit | Self::TempoDown | Self::TempoUp | Self::PitchDown | Self::PitchUp => "Tools"@,
            Self::ExportLoops => "File"@,
        }
    }

    /// Category that groups the action in the user interface.
    pub fn category(&self) -> (res: &'static str)
        ensures
            res@ == self.spec_category(),
    {
        match self {
            Self::PlayPause | Self::Stop | Self::SeekForward | Self::SeekBackward => "Playback",
            Self::SetLoopA | Self::SetLoopB | Self::ClearLoop | Self::ToggleLoopBypass | Self::NudgeLoopLeft | Self::NudgeLoopRight | Self::ToggleLoopPoint | Self::NudgeALeft | Self::NudgeARight | Self::NudgeBLeft | Self::NudgeBRight | Self::NudgePlayheadLeft | Self::NudgePlayheadRight | Self::CenterLoop | Self::SaveLoop | Self::DoubleLoopLength | Self::HalveLoopLength | Self::SnapLoopLeft | Self::SnapLoopRight => "Loop",
            Self::AddSectionMarker | Self::AddMeasureMarker | Self::AddBeatMarker | Self::DeleteNearestMarker | Self::MarkerPrev | Self::MarkerNext => "Markers",
            Self::ZoomIn | Self::ZoomOut | Self::ResetZoom | Self::ShowShortcuts => "View",
            Self::OpenFile => "File",
            Self::Undo | Self::Redo | Self::RestartLoop => "Edit",
            Self::Detect | Self::ExtendBeats | Self::PlaceBeats | Self::ToggleArranger | Self::Setup | Self::ToggleAudit | Self::TempoDown | Self::TempoUp | Self::PitchDown | Self::PitchUp => "Tools",
            Self::ExportLoops => "File",
        }
    }

    /// Every action, in menu order.
    pub open spec fn spec_all() -> Seq<ShortcutAction> {
        seq![
            ShortcutAction::PlayPause,
            ShortcutAction::Stop,
            ShortcutAction::SeekForward,
            ShortcutAction::SeekBackward,
            ShortcutAction::SetLoopA,
            ShortcutAction::SetLoopB,
            ShortcutAction::ClearLoop,
            ShortcutAction::ToggleLoopBypass,
            ShortcutAction::NudgeLoopLeft,
            ShortcutAction::NudgeLoopRight,
            ShortcutAction::ToggleLoopPoint,
            ShortcutAction::NudgeALeft,
            ShortcutAction::NudgeARight,
            ShortcutAction::NudgeBLeft,
            ShortcutAction::NudgeBRight,
            ShortcutAction::NudgePlayheadLeft,
            ShortcutAction::NudgePlayheadRight,
            ShortcutAction::AddSectionMarker,
            ShortcutAction::AddMeasureMarker,
            ShortcutAction::AddBeatMarker,
            ShortcutAction::DeleteNearestMarker,
            ShortcutAction::MarkerPrev,
            ShortcutAction::MarkerNext,
            ShortcutAction::ZoomIn,
            ShortcutAction::ZoomOut,
            ShortcutAction::ResetZoom,
            ShortcutAction::ShowShortcuts,
            ShortcutAction::OpenFile,
            ShortcutAction::Undo,
            ShortcutAction::Redo,
            ShortcutAction::RestartLoop,
            ShortcutAction::CenterLoop,
            ShortcutAction::SaveLoop,
            ShortcutAction::DoubleLoopLength,
            ShortcutAction::HalveLoopLength,
            ShortcutAction::SnapLoopLeft,
            ShortcutAction::SnapLoopRight,
            ShortcutAction::ExportLoops,
            ShortcutAction::Detect,
            ShortcutAction::ExtendBeats,
            ShortcutAction::PlaceBeats,
            ShortcutAction::ToggleArranger,
            ShortcutAction::Setup,
            ShortcutAction::ToggleAudit,
            ShortcutAction::TempoDown,
            ShortcutAction::TempoUp,
            ShortcutAction::PitchDown,
            ShortcutAction::PitchUp,
        ]
    }

    /// Every action, in menu order.
    pub fn all() -> (res: &'static [ShortcutAction])
        ensures
            res@ == Self::spec_all(),
    {
        let res: &'static [ShortcutAction] = &[
            ShortcutAction::PlayPause,
            ShortcutAction::Stop,
            ShortcutAction::SeekForward,
            ShortcutAction::SeekBackward,
            ShortcutAction::SetLoopA,
            ShortcutAction::SetLoopB,
            ShortcutAction::ClearLoop,
            ShortcutAction::ToggleLoopBypass,
            ShortcutAction::NudgeLoopLeft,
            ShortcutAction::NudgeLoopRight,
            ShortcutAction::ToggleLoopPoint,
            ShortcutAction::NudgeALeft,
            ShortcutAction::NudgeARight,
            ShortcutAction::NudgeBLeft,
            ShortcutAction::NudgeBRight,
            ShortcutAction::NudgePlayheadLeft,
            ShortcutAction::NudgePlayheadRight,
            ShortcutAction::AddSectionMarker,
            ShortcutAction::AddMeasureMarker,
            ShortcutAction::AddBeatMarker,
            ShortcutAction::DeleteNearestMarker,
            ShortcutAction::MarkerPrev,
            ShortcutAction::MarkerNext,
            ShortcutAction::ZoomIn,
            ShortcutAction::ZoomOut,
            ShortcutAction::ResetZoom,
            ShortcutAction::ShowShortcuts,
            ShortcutAction::OpenFile,
            ShortcutAction::Undo,
            ShortcutAction::Redo,
            ShortcutAction::RestartLoop,
            ShortcutAction::CenterLoop,
            ShortcutAction::SaveLoop,
            ShortcutAction::DoubleLoopLength,
            ShortcutAction::HalveLoopLength,
            ShortcutAction::SnapLoopLeft,
            ShortcutAction::SnapLoopRight,
            ShortcutAction::ExportLoops,
            ShortcutAction::Detect,
            ShortcutAction::ExtendBeats,
            ShortcutAction::PlaceBeats,
            ShortcutAction::ToggleArranger,
            ShortcutAction::Setup,
            ShortcutAction::ToggleAudit,
            ShortcutAction::TempoDown,
            ShortcutAction::TempoUp,
            ShortcutAction::PitchDown,
            ShortcutAction::PitchUp,
        ];
        assert(res@ =~= Self::spec_all());
        res
    }
}

/// The keys that can be bound to an action.
#[derive(Debug, Clone, Copy, PartialEq, Eq, Hash, Structural)]
pub enum SerializableKey {
    Space,
    Enter,
    Escape,
    Backspace,
    Tab,
    ArrowLeft,
    ArrowRight,
    ArrowUp,
    ArrowDown,
    A,
    B,
    C,
    D,
    E,
    F,
    G,
    H,
    I,
    J,
    K,
    L,
    M,
    N,
    O,
    P,
    Q,
    R,
    S,
    T,
    U,
    V,
    W,
    X,
    Y,
    Z,
    Num0,
    Num1,
    Num2,
    Num3,
    Num4,
    Num5,
    Num6,
    Num7,
    Num8,
    Num9,
    OpenBracket,
    CloseBracket,
    F1,
    F2,
    F3,
    F4,
    F5,
    F6,
    F7,
    F8,
    F9,
    F10,
    F11,
    F12,
}

impl SerializableKey {
    /// How the key is written in the user interface.
    pub open spec fn spec_display_name(self) -> Seq<char> {
        match self {
            Self::Space => "Space"@,
            Self::Enter => "Enter"@,
            Self::Escape => "Esc"@,
            Self::Backspace => "Backspace"@,
            Self::Tab => "Tab"@,
            Self::ArrowLeft => "◀"@,
            Self::ArrowRight => "→"@,
            Self::ArrowUp => "↑"@,
            Self::ArrowDown => "↓"@,
            Self::A => "A"@,
            Self::B => "B"@,
            Self::C => "C"@,
            Self::D => "D"@,
            Self::E => "E"@,
            Self::F => "F"@,
            Self::G => "G"@,
            Self::H => "H"@,
            Self::I => "I"@,
            Self::J => "J"@,
            Self::K => "K"@,
            Self::L => "L"@,
            Self::M => "M"@,
            Self::N => "N"@,
            Self::O => "O"@,
            Self::P => "P"@,
            Self::Q => "Q"@,
            Self::R => "R"@,
            Self::S => "S"@,
            Self::T => "T"@,
            Self::U => "U"@,
            Self::V => "V"@,
            Self::W => "W"@,
            Self::X => "X"@,
            Self::Y => "Y"@,
            Self::Z => "Z"@,
            Self::Num0 => "0"@,
            Self::Num1 => "1"@,
            Self::Num2 => "2"@,
            Self::Num3 => "3"@,
            Self::Num4 => "4"@,
            Self::Num5 => "5"@,
            Self::Num6 => "6"@,
            Self::Num7 => "7"@,
            Self::Num8 => "8"@,
            Self::Num9 => "9"@,
            Self::OpenBracket => "["@,
            Self::CloseBracket => "]"@,
            Self::F1 => "F1"@,
            Self::F2 => "F2"@,
            Self::F3 => "F3"@,
            Self::F4 => "F4"@,
            Self::F5 => "F5"@,
            Self::F6 => "F6"@,
            Self::F7 => "F7"@,
            Self::F8 => "F8"@,
            Self::F9 => "F9"@,
            Self::F10 => "F10"@,
            Self::F11 => "F11"@,
            Self::F12 => "F12"@,
        }
    }

    /// How the key is written in the user interface.
    pub fn display_name(&self) -> (res: &'static str)
        ensures
            res@ == self.spec_display_name(),
    {
        match self {
            Self::Space => "Space",
            Self::Enter => "Enter",
            Self::Escape => "Esc",
            Self::Backspace => "Backspace",
            Self::Tab => "Tab",
            Self::ArrowLeft => "◀",
            Self::ArrowRight => "→",
            Self::ArrowUp => "↑",
            Self::ArrowDown => "↓",
            Self::A => "A",
            Self::B => "B",
            Self::C => "C",
            Self::D => "D",
            Self::E => "E",
            Self::F => "F",
            Self::G => "G",
            Self::H => "H",
            Self::I => "I",
            Self::J => "J",
            Self::K => "K",
            Self::L => "L",
            Self::M => "M",
            Self::N => "N",
            Self::O => "O",
            Self::P => "P",
            Self::Q => "Q",
            Self::R => "R",
            Self::S => "S",
            Self::T => "T",
            Self::U => "U",
            Self::V => "V",
            Self::W => "W",
            Self::X => "X",
            Self::Y => "Y",
            Self::Z => "Z",
            Self::Num0 => "0",
            Self::Num1 => "1",
            Self::Num2 => "2",
            Self::Num3 => "3",
            Self::Num4 => "4",
            Self::Num5 => "5",
            Self::Num6 => "6",
            Self::Num7 => "7",
            Self::Num8 => "8",
            Self::Num9 => "9",
            Self::OpenBracket => "[",
            Self::CloseBracket => "]",
            Self::F1 => "F1",
            Self::F2 => "F2",
            Self::F3 => "F3",
            Self::F4 => "F4",
            Self::F5 => "F5",
            Self::F6 => "F6",
            Self::F7 => "F7",
            Self::F8 => "F8",
            Self::F9 => "F9",
            Self::F10 => "F10",
            Self::F11 => "F11",
            Self::F12 => "F12",
        }
    }

}

/// A key binding: a key with modifiers.
#[derive(Debug, Clone, Copy, PartialEq, Eq, Structural)]
pub struct KeyBinding {
    pub key: SerializableKey,
    pub ctrl: bool,
    pub shift: bool,
    pub alt: bool,
}

/// The keyboard facts that a binding is matched against: the modifiers held and
/// the keys pressed in this frame.
#[derive(Debug, Clone)]
pub struct InputState {
    pub ctrl: bool,
    pub shift: bool,
    pub alt: bool,
    pub pressed: Vec<SerializableKey>,
}

impl KeyBinding {
    /// `key` without modifiers.
    pub fn new(key: SerializableKey) -> (res: Self)
        ensures
            res == (KeyBinding { key, ctrl: false, shift: false, alt: false }),
    {
        Self { key, ctrl: false, shift: false, alt: false }
    }

    /// This binding with Ctrl held.
    pub fn with_ctrl(self) -> (res: Self)
        ensures
            res == (KeyBinding { ctrl: true, ..self }),
    {
        KeyBinding { ctrl: true, ..self }
    }

    /// This binding with Shift held.
    pub fn with_shift(self) -> (res: Self)
        ensures
            res == (KeyBinding { shift: true, ..self }),
    {
        KeyBinding { shift: true, ..self }
    }

    /// This binding with Alt held.
    pub fn with_alt(self) -> (res: Self)
        ensures
            res == (KeyBinding { alt: true, ..self }),
    {
        KeyBinding { alt: true, ..self }
    }

    /// The binding as shown to the user: the held modifiers in the order Ctrl,
    /// Shift, Alt, then the key, joined by "+" (e.g. "Ctrl+Shift+S", "Space").
    pub open spec fn spec_display(self) -> Seq<char> {
        (if self.ctrl {
            "Ctrl+"@
        } else {
            seq![]
        }) + (if self.shift {
            "Shift+"@
        } else {
            seq![]
        }) + (if self.alt {
            "Alt+"@
        } else {
            seq![]
        }) + self.key.spec_display_name()
    }

    /// The binding as shown to the user, e.g. "Ctrl+Shift+S" or "Space".
    pub fn display(&self) -> (res: String)
        ensures
            res@ == self.spec_display(),
    {
        let mut s = String::new();
        if self.ctrl {
            s.append("Ctrl+");
        }
        if self.shift {
            s.append("Shift+");
        }
        if self.alt {
            s.append("Alt+");
        }
        s.append(self.key.display_name());
        proof {
            assert(s@ =~= self.spec_display());
        }
        s
    }

    /// The input holds exactly this binding's modifiers and its key is pressed.
    pub open spec fn spec_matches(self, input: InputState) -> bool {
        &&& self.ctrl == input.ctrl
        &&& self.shift == input.shift
        &&& self.alt == input.alt
        &&& input.pressed@.contains(self.key)
    }

    /// Whether this binding fires for `input`.
    pub fn matches(&self, input: &InputState) -> (res: bool)
        ensures
            res == self.spec_matches(*input),
    {
        let mods_match = self.ctrl == input.ctrl && self.shift == input.shift && self.alt == input.alt;
        if !mods_match {
            return false;
        }
        let mut i: usize = 0;
        while i < input.pressed.len()
            invariant
                i <= input.pressed.len(),
                self.ctrl == input.ctrl && self.shift == input.shift && self.alt == input.alt,
                forall|j: int| 0 <= j < i ==> input.pressed@[j] != self.key,
            decreases input.pressed.len() - i,
        {
            if input.pressed[i] == self.key {
                assert(input.pressed@[i as int] == self.key);
                return true;
            }
            i += 1;
        }
        false
    }
}

/// Law: a binding fires for an input exactly when the input holds the same Ctrl,
/// Shift and Alt state as the binding and the binding's key is among the pressed
/// keys. So an input that differs from a firing one in any single modifier (Alt
/// held or released, say) does not fire it.
pub proof fn law_binding_fires_on_exact_modifiers(b: KeyBinding, input: InputState)
    ensures
        b.spec_matches(input) <==> {
            &&& b.ctrl == input.ctrl
            &&& b.shift == input.shift
            &&& b.alt == input.alt
            &&& exists|j: int| 0 <= j < input.pressed.len() && input.pressed@[j] == b.key
        },
        b.spec_matches(input) ==> !b.spec_matches(InputState { alt: !input.alt, ..input }),
        b.spec_matches(input) ==> !b.spec_matches(InputState { ctrl: !input.ctrl, ..input }),
        b.spec_matches(input) ==> !b.spec_matches(InputState { shift: !input.shift, ..input }),
        !(exists|j: int| 0 <= j < input.pressed.len() && input.pressed@[j] == b.key) ==> !b.spec_matches(input),
{
}

// ───────────────────────────────────────────────
// Bindings per action
// ───────────────────────────────────────────────

/// The map that the entries describe, later entries overriding earlier ones.
pub open spec fn entries_map(s: Seq<(ShortcutAction, KeyBinding)>) -> Map<ShortcutAction, KeyBinding>
    decreases s.len(),
{
    if s.len() == 0 {
        Map::empty()
    } else {
        entries_map(s.drop_last()).insert(s.last().0, s.last().1)
    }
}

/// No action occurs twice among the entries.
pub open spec fn keys_unique(s: Seq<(ShortcutAction, KeyBinding)>) -> bool {
    forall|i: int, j: int| 0 <= i < s.len() && 0 <= j < s.len() && i != j ==> s[i].0 != s[j].0
}

proof fn lemma_entries_map(s: Seq<(ShortcutAction, KeyBinding)>)
    requires
        keys_unique(s),
    ensures
        entries_map(s).dom().finite(),
        entries_map(s).dom().len() == s.len(),
        forall|a: ShortcutAction|
            entries_map(s).dom().contains(a) <==> exists|i: int| 0 <= i < s.len() && (#[trigger] s[i]).0 == a,
        forall|i: int| 0 <= i < s.len() ==> entries_map(s)[(#[trigger] s[i]).0] == s[i].1,
    decreases s.len(),
{
    if s.len() > 0 {
        let t = s.drop_last();
        assert(keys_unique(t));
        lemma_entries_map(t);
        let last = s.last();
        assert(!entries_map(t).dom().contains(last.0)) by {
            if entries_map(t).dom().contains(last.0) {
                let i = choose|i: int| 0 <= i < t.len() && (#[trigger] t[i]).0 == last.0;
                assert(s[i].0 == s[s.len() - 1].0);
            }
        }
        assert forall|a: ShortcutAction|
            entries_map(s).dom().contains(a) implies exists|i: int| 0 <= i < s.len() && (#[trigger] s[i]).0 == a by {
            if a == last.0 {
                assert(s[s.len() - 1].0 == a);
            } else {
                let i = choose|i: int| 0 <= i < t.len() && (#[trigger] t[i]).0 == a;
                assert(s[i].0 == a);
            }
        }
        assert forall|a: ShortcutAction|
            (exists|i: int| 0 <= i < s.len() && (#[trigger] s[i]).0 == a) implies entries_map(s).dom().contains(a) by {
            let i = choose|i: int| 0 <= i < s.len() && (#[trigger] s[i]).0 == a;
            if i < s.len() - 1 {
                assert(t[i].0 == a);
            }
        }
        assert forall|i: int| 0 <= i < s.len() implies entries_map(s)[(#[trigger] s[i]).0] == s[i].1 by {
            if i < s.len() - 1 {
                assert(t[i] == s[i]);
                assert(s[i].0 != last.0);
            }
        }
    }
}

proof fn lemma_entries_map_update(s: Seq<(ShortcutAction, KeyBinding)>, i: int, b: KeyBinding)
    requires
        keys_unique(s),
        0 <= i < s.len(),
    ensures
        keys_unique(s.update(i, (s[i].0, b))),
        entries_map(s.update(i, (s[i].0, b))) == entries_map(s).insert(s[i].0, b),
    decreases s.len(),
{
    let u = s.update(i, (s[i].0, b));
    assert(keys_unique(u)) by {
        assert forall|x: int, y: int| 0 <= x < u.len() && 0 <= y < u.len() && x != y implies u[x].0 != u[y].0 by {
            assert(u[x].0 == s[x].0);
            assert(u[y].0 == s[y].0);
        }
    }
    if i == s.len() - 1 {
        assert(u.drop_last() =~= s.drop_last());
        assert(entries_map(u) =~= entries_map(s).insert(s[i].0, b));
    } else {
        let t = s.drop_last();
        assert(keys_unique(t));
        lemma_entries_map_update(t, i, b);
        assert(u.drop_last() =~= t.update(i, (t[i].0, b)));
        assert(s.last().0 != s[i].0);
        assert(entries_map(u) =~= entries_map(s).insert(s[i].0, b));
    }
}

/// The key binding of each bound action. No action is bound twice.
///
/// Held as a list of (action, binding) pairs rather than a `HashMap`: vstd models a
/// `HashMap` only for keys known to obey its key model (`obeys_key_model`), which
/// holds of primitive types and cannot be established for `ShortcutAction`.
#[derive(Debug)]
pub struct BindingMap {
    entries: Vec<(ShortcutAction, KeyBinding)>,
}

impl View for BindingMap {
    type V = Map<ShortcutAction, KeyBinding>;

    closed spec fn view(&self) -> Map<ShortcutAction, KeyBinding> {
        entries_map(self.entries@)
    }
}

impl Clone for BindingMap {
    fn clone(&self) -> (res: Self)
        ensures
            res@ == self@,
    {
        proof {
            use_type_invariant(self);
        }
        BindingMap { entries: self.copy_entries() }
    }
}

impl BindingMap {
    #[verifier::type_invariant]
    spec fn unique(self) -> bool {
        keys_unique(self.entries@)
    }

    /// A map without bindings.
    pub fn new() -> (res: Self)
        ensures
            res@ == Map::<ShortcutAction, KeyBinding>::empty(),
    {
        BindingMap { entries: Vec::new() }
    }

    /// The index of the entry for `action`.
    fn position(&self, action: ShortcutAction) -> (res: Option<usize>)
        ensures
            match res {
                Some(i) => i < self.entries.len() && self.entries@[i as int].0 == action,
                None => forall|i: int| 0 <= i < self.entries.len() ==> self.entries@[i].0 != action,
            },
    {
        let mut i: usize = 0;
        while i < self.entries.len()
            invariant
                i <= self.entries.len(),
                forall|j: int| 0 <= j < i ==> self.entries@[j].0 != action,
            decreases self.entries.len() - i,
        {
            if self.entries[i].0 == action {
                return Some(i);
            }
            i += 1;
        }
        None
    }

    /// How many actions are bound.
    pub fn len(&self) -> (res: usize)
        ensures
            self@.dom().finite(),
            res == self@.dom().len(),
    {
        proof {
            use_type_invariant(self);
            lemma_entries_map(self.entries@);
        }
        self.entries.len()
    }

    /// Whether no action is bound.
    pub fn is_empty(&self) -> (res: bool)
        ensures
            self@.dom().finite(),
            res == (self@.dom().len() == 0),
    {
        proof {
            use_type_invariant(self);
            lemma_entries_map(self.entries@);
        }
        self.entries.len() == 0
    }

    /// Whether `action` is bound.
    pub fn contains_key(&self, action: &ShortcutAction) -> (res: bool)
        ensures
            res == self@.dom().contains(*action),
    {
        proof {
            use_type_invariant(self);
            lemma_entries_map(self.entries@);
        }
        match self.position(*action) {
            Some(i) => {
                assert(self.entries@[i as int].0 == *action);
                true
            },
            None => false,
        }
    }

    /// The binding of `action`, if it is bound.
    pub fn get(&self, action: &ShortcutAction) -> (res: Option<&KeyBinding>)
        ensures
            match res {
                Some(b) => self@.dom().contains(*action) && *b == self@[*action],
                None => !self@.dom().contains(*action),
            },
    {
        proof {
            use_type_invariant(self);
            lemma_entries_map(self.entries@);
        }
        match self.position(*action) {
            Some(i) => {
                assert(self.entries@[i as int].0 == *action);
                Some(&self.entries[i].1)
            },
            None => None,
        }
    }

    /// Binds `action` to `binding`; returns the binding it replaces, if any.
    pub fn insert(&mut self, action: ShortcutAction, binding: KeyBinding) -> (res: Option<KeyBinding>)
        ensures
            final(self)@ == old(self)@.insert(action, binding),
            match res {
                Some(b) => old(self)@.dom().contains(action) && b == old(self)@[action],
                None => !old(self)@.dom().contains(action),
            },
    {
        proof {
            use_type_invariant(&*self);
            lemma_entries_map(self.entries@);
        }
        let pos = self.position(action);
        let mut entries: Vec<(ShortcutAction, KeyBinding)> = Vec::new();
        std::mem::swap(&mut entries, &mut self.entries);
        let ghost s = entries@;
        match pos {
            Some(i) => {
                let previous = entries[i].1;
                proof {
                    lemma_entries_map_update(s, i as int, binding);
                }
                entries.set(i, (action, binding));
                self.entries = entries;
                Some(previous)
            },
            None => {
                entries.push((action, binding));
                proof {
                    assert(entries@.drop_last() =~= s);
                    assert(keys_unique(entries@)) by {
                        assert forall|x: int, y: int|
                            0 <= x < entries@.len() && 0 <= y < entries@.len() && x != y implies entries@[x].0
                            != entries@[y].0 by {
                            if x < s.len() && y < s.len() {
                                assert(entries@[x] == s[x]);
                                assert(entries@[y] == s[y]);
                            } else if x == s.len() {
                                assert(entries@[y] == s[y]);
                            } else {
                                assert(entries@[x] == s[x]);
                            }
                        }
                    }
                }
                self.entries = entries;
                None
            },
        }
    }

    /// A copy of the entries.
    fn copy_entries(&self) -> (res: Vec<(ShortcutAction, KeyBinding)>)
        ensures
            res@ == self.entries@,
    {
        let mut res: Vec<(ShortcutAction, KeyBinding)> = Vec::new();
        let mut i: usize = 0;
        while i < self.entries.len()
            invariant
                i <= self.entries.len(),
                res@ == self.entries@.take(i as int),
            decreases self.entries.len() - i,
        {
            res.push(self.entries[i]);
            i += 1;
            assert(res@ =~= self.entries@.take(i as int));
        }
        assert(self.entries@.take(self.entries.len() as int) =~= self.entries@);
        res
    }

    /// The bindings as (action, binding) pairs, each action once.
    pub fn to_vec(&self) -> (res: Vec<(ShortcutAction, KeyBinding)>)
        ensures
            keys_unique(res@),
            entries_map(res@) == self@,
    {
        proof {
            use_type_invariant(self);
        }
        self.copy_entries()
    }

    /// The action other than `exclude` that is bound to `binding`, if any.
    fn find_bound(&self, binding: &KeyBinding, exclude: ShortcutAction) -> (res: Option<ShortcutAction>)
        ensures
            match res {
                Some(a) => a != exclude && self@.dom().contains(a) && self@[a] == *binding,
                None => forall|a: ShortcutAction|
                    #[trigger] self@.dom().contains(a) && a != exclude ==> self@[a] != *binding,
            },
    {
        proof {
            use_type_invariant(self);
            lemma_entries_map(self.entries@);
        }
        let mut i: usize = 0;
        while i < self.entries.len()
            invariant
                i <= self.entries.len(),
                keys_unique(self.entries@),
                forall|j: int| 0 <= j < i ==> (#[trigger] self.entries@[j]).0 == exclude || self.entries@[j].1 != *binding,
            decreases self.entries.len() - i,
        {
            let (action, existing) = self.entries[i];
            if action != exclude && existing == *binding {
                proof {
                    lemma_entries_map(self.entries@);
                    assert(self@[self.entries@[i as int].0] == self.entries@[i as int].1);
                }
                return Some(action);
            }
            i += 1;
        }
        proof {
            assert forall|a: ShortcutAction| #[trigger] self@.dom().contains(a) && a != exclude implies self@[a] != *binding by {
                let j = choose|j: int| 0 <= j < self.entries@.len() && (#[trigger] self.entries@[j]).0 == a;
                assert(self@[self.entries@[j].0] == self.entries@[j].1);
            }
        }
        None
    }
}

// ───────────────────────────────────────────────
// Shortcut configuration
// ───────────────────────────────────────────────

/// The version of the shortcut configuration format.
pub const CURRENT_VERSION: u32 = 1;

/// The key bindings of all actions, with a format version.
#[derive(Debug, Clone)]
pub struct ShortcutsConfig {
    pub version: u32,
    pub bindings: BindingMap,
}

/// The binding of `key` with the given modifiers.
pub open spec fn kb(key: SerializableKey, ctrl: bool, shift: bool, alt: bool) -> KeyBinding {
    KeyBinding { key, ctrl, shift, alt }
}

/// The default bindings. The tool actions (Detect, ExtendBeats, PlaceBeats,
/// ToggleArranger, Setup, ToggleAudit, TempoDown/Up, PitchDown/Up) have none.
pub open spec fn default_bindings() -> Map<ShortcutAction, KeyBinding> {
    map![
        ShortcutAction::PlayPause => KeyBinding { key: SerializableKey::Space, ctrl: false, shift: false, alt: false },
        ShortcutAction::Stop => KeyBinding { key: SerializableKey::Escape, ctrl: false, shift: false, alt: false },
        ShortcutAction::SeekForward => KeyBinding { key: SerializableKey::ArrowUp, ctrl: false, shift: false, alt: false },
        ShortcutAction::SeekBackward => KeyBinding { key: SerializableKey::ArrowDown, ctrl: false, shift: false, alt: false },
        ShortcutAction::SetLoopA => KeyBinding { key: SerializableKey::OpenBracket, ctrl: false, shift: false, alt: false },
        ShortcutAction::SetLoopB => KeyBinding { key: SerializableKey::CloseBracket, ctrl: false, shift: false, alt: false },
        ShortcutAction::ClearLoop => KeyBinding { key: SerializableKey::Backspace, ctrl: true, shift: false, alt: false },
        ShortcutAction::ToggleLoopBypass => KeyBinding { key: SerializableKey::B, ctrl: true, shift: false, alt: false },
        ShortcutAction::NudgeLoopLeft => KeyBinding { key: SerializableKey::ArrowLeft, ctrl: false, shift: true, alt: false },
        ShortcutAction::NudgeLoopRight => KeyBinding { key: SerializableKey::ArrowRight, ctrl: false, shift: true, alt: false },
        ShortcutAction::ToggleLoopPoint => KeyBinding { key: SerializableKey::OpenBracket, ctrl: false, shift: false, alt: false },
        ShortcutAction::NudgeALeft => KeyBinding { key: SerializableKey::J, ctrl: false, shift: false, alt: false },
        ShortcutAction::NudgeARight => KeyBinding { key: SerializableKey::J, ctrl: false, shift: true, alt: false },
        ShortcutAction::NudgeBLeft => KeyBinding { key: SerializableKey::L, ctrl: false, shift: false, alt: false },
        ShortcutAction::NudgeBRight => KeyBinding { key: SerializableKey::L, ctrl: false, shift: true, alt: false },
        ShortcutAction::NudgePlayheadLeft => KeyBinding { key: SerializableKey::ArrowLeft, ctrl: false, shift: false, alt: false },
        ShortcutAction::NudgePlayheadRight => KeyBinding { key: SerializableKey::ArrowRight, ctrl: false, shift: false, alt: false },
        ShortcutAction::AddSectionMarker => KeyBinding { key: SerializableKey::S, ctrl: false, shift: false, alt: false },
        ShortcutAction::AddMeasureMarker => KeyBinding { key: SerializableKey::M, ctrl: false, shift: false, alt: false },
        ShortcutAction::AddBeatMarker => KeyBinding { key: SerializableKey::B, ctrl: false, shift: false, alt: false },
        ShortcutAction::DeleteNearestMarker => KeyBinding { key: SerializableKey::Backspace, ctrl: false, shift: false, alt: false },
        ShortcutAction::ZoomIn => KeyBinding { key: SerializableKey::Num0, ctrl: true, shift: false, alt: false },
        ShortcutAction::ZoomOut => KeyBinding { key: SerializableKey::Num0, ctrl: true, shift: true, alt: false },
        ShortcutAction::ResetZoom => KeyBinding { key: SerializableKey::R, ctrl: true, shift: false, alt: false },
        ShortcutAction::ShowShortcuts => KeyBinding { key: SerializableKey::F1, ctrl: false, shift: false, alt: false },
        ShortcutAction::OpenFile => KeyBinding { key: SerializableKey::O, ctrl: true, shift: false, alt: false },
        ShortcutAction::Undo => KeyBinding { key: SerializableKey::Z, ctrl: true, shift: false, alt: false },
        ShortcutAction::Redo => KeyBinding { key: SerializableKey::Z, ctrl: true, shift: true, alt: false },
        ShortcutAction::RestartLoop => KeyBinding { key: SerializableKey::Enter, ctrl: false, shift: false, alt: false },
        ShortcutAction::CenterLoop => KeyBinding { key: SerializableKey::C, ctrl: false, shift: false, alt: false },
        ShortcutAction::SaveLoop => KeyBinding { key: SerializableKey::S, ctrl: true, shift: false, alt: false },
        ShortcutAction::ExportLoops => KeyBinding { key: SerializableKey::E, ctrl: true, shift: false, alt: false },
        ShortcutAction::DoubleLoopLength => KeyBinding { key: SerializableKey::D, ctrl: true, shift: false, alt: false },
        ShortcutAction::HalveLoopLength => KeyBinding { key: SerializableKey::D, ctrl: true, shift: true, alt: false },
        ShortcutAction::MarkerPrev => KeyBinding { key: SerializableKey::ArrowLeft, ctrl: true, shift: false, alt: false },
        ShortcutAction::MarkerNext => KeyBinding { key: SerializableKey::ArrowRight, ctrl: true, shift: false, alt: false },
        ShortcutAction::SnapLoopLeft => KeyBinding { key: SerializableKey::Q, ctrl: false, shift: false, alt: false },
        ShortcutAction::SnapLoopRight => KeyBinding { key: SerializableKey::Q, ctrl: false, shift: false, alt: false },
    ]
}

/// `m` holds every binding of `loaded`, plus the default binding of each action of
/// `listed` that `loaded` does not bind.
pub open spec fn merge_holds(
    m: Map<ShortcutAction, KeyBinding>,
    loaded: Map<ShortcutAction, KeyBinding>,
    listed: Seq<ShortcutAction>,
) -> bool {
    &&& forall|a: ShortcutAction|
        #[trigger] m.dom().contains(a) <==> (loaded.dom().contains(a) || (
        default_bindings().dom().contains(a) && listed.contains(a)))
    &&& forall|a: ShortcutAction| #[trigger] loaded.dom().contains(a) ==> m[a] == loaded[a]
    &&& forall|a: ShortcutAction|
        #[trigger] m.dom().contains(a) && !loaded.dom().contains(a) ==> m[a] == default_bindings()[a]
}

impl Default for ShortcutsConfig {
    /// The current format version with the default bindings.
    fn default() -> (res: Self)
        ensures
            res.version == CURRENT_VERSION,
            res.bindings@ == default_bindings(),
    {
        let mut bindings = BindingMap::new();
        bindings.insert(ShortcutAction::PlayPause, KeyBinding::new(SerializableKey::Space));
        bindings.insert(ShortcutAction::Stop, KeyBinding::new(SerializableKey::Escape));
        bindings.insert(ShortcutAction::SeekForward, KeyBinding::new(SerializableKey::ArrowUp));
        bindings.insert(ShortcutAction::SeekBackward, KeyBinding::new(SerializableKey::ArrowDown));
        bindings.insert(ShortcutAction::SetLoopA, KeyBinding::new(SerializableKey::OpenBracket));
        bindings.insert(ShortcutAction::SetLoopB, KeyBinding::new(SerializableKey::CloseBracket));
        bindings.insert(ShortcutAction::ClearLoop, KeyBinding::new(SerializableKey::Backspace).with_ctrl());
        bindings.insert(ShortcutAction::ToggleLoopBypass, KeyBinding::new(SerializableKey::B).with_ctrl());
        bindings.insert(ShortcutAction::NudgeLoopLeft, KeyBinding::new(SerializableKey::ArrowLeft).with_shift());
        bindings.insert(ShortcutAction::NudgeLoopRight, KeyBinding::new(SerializableKey::ArrowRight).with_shift());
        bindings.insert(ShortcutAction::ToggleLoopPoint, KeyBinding::new(SerializableKey::OpenBracket));
        bindings.insert(ShortcutAction::NudgeALeft, KeyBinding::new(SerializableKey::J));
        bindings.insert(ShortcutAction::NudgeARight, KeyBinding::new(SerializableKey::J).with_shift());
        bindings.insert(ShortcutAction::NudgeBLeft, KeyBinding::new(SerializableKey::L));
        bindings.insert(ShortcutAction::NudgeBRight, KeyBinding::new(SerializableKey::L).with_shift());
        bindings.insert(ShortcutAction::NudgePlayheadLeft, KeyBinding::new(SerializableKey::ArrowLeft));
        bindings.insert(ShortcutAction::NudgePlayheadRight, KeyBinding::new(SerializableKey::ArrowRight));
        bindings.insert(ShortcutAction::AddSectionMarker, KeyBinding::new(SerializableKey::S));
        bindings.insert(ShortcutAction::AddMeasureMarker, KeyBinding::new(SerializableKey::M));
        bindings.insert(ShortcutAction::AddBeatMarker, KeyBinding::new(SerializableKey::B));
        bindings.insert(ShortcutAction::DeleteNearestMarker, KeyBinding::new(SerializableKey::Backspace));
        bindings.insert(ShortcutAction::ZoomIn, KeyBinding::new(SerializableKey::Num0).with_ctrl());
        bindings.insert(ShortcutAction::ZoomOut, KeyBinding::new(SerializableKey::Num0).with_ctrl().with_shift());
        bindings.insert(ShortcutAction::ResetZoom, KeyBinding::new(SerializableKey::R).with_ctrl());
        bindings.insert(ShortcutAction::ShowShortcuts, KeyBinding::new(SerializableKey::F1));
        bindings.insert(ShortcutAction::OpenFile, KeyBinding::new(SerializableKey::O).with_ctrl());
        bindings.insert(ShortcutAction::Undo, KeyBinding::new(SerializableKey::Z).with_ctrl());
        bindings.insert(ShortcutAction::Redo, KeyBinding::new(SerializableKey::Z).with_ctrl().with_shift());
        bindings.insert(ShortcutAction::RestartLoop, KeyBinding::new(SerializableKey::Enter));
        bindings.insert(ShortcutAction::CenterLoop, KeyBinding::new(SerializableKey::C));
        bindings.insert(ShortcutAction::SaveLoop, KeyBinding::new(SerializableKey::S).with_ctrl());
        bindings.insert(ShortcutAction::ExportLoops, KeyBinding::new(SerializableKey::E).with_ctrl());
        bindings.insert(ShortcutAction::DoubleLoopLength, KeyBinding::new(SerializableKey::D).with_ctrl());
        bindings.insert(ShortcutAction::HalveLoopLength, KeyBinding::new(SerializableKey::D).with_ctrl().with_shift());
        bindings.insert(ShortcutAction::MarkerPrev, KeyBinding::new(SerializableKey::ArrowLeft).with_ctrl());
        bindings.insert(ShortcutAction::MarkerNext, KeyBinding::new(SerializableKey::ArrowRight).with_ctrl());
        bindings.insert(ShortcutAction::SnapLoopLeft, KeyBinding::new(SerializableKey::Q));
        bindings.insert(ShortcutAction::SnapLoopRight, KeyBinding::new(SerializableKey::Q));
        ShortcutsConfig { version: CURRENT_VERSION, bindings }
    }
}

impl ShortcutsConfig {
    /// The binding of `action`, if it has one.
    pub fn binding_for(&self, action: ShortcutAction) -> (res: Option<&KeyBinding>)
        ensures
            match res {
                Some(b) => self.bindings@.dom().contains(action) && *b == self.bindings@[action],
                None => !self.bindings@.dom().contains(action),
            },
    {
        self.bindings.get(&action)
    }

    /// Binds `action` to `binding`. The change is in memory only: the caller
    /// persists the configuration; the result is that step's slot and is `Ok` here.
    pub fn set_binding(&mut self, action: ShortcutAction, binding: KeyBinding) -> (res: Result<(), String>)
        ensures
            final(self).version == old(self).version,
            final(self).bindings@ == old(self).bindings@.insert(action, binding),
            res is Ok,
    {
        self.bindings.insert(action, binding);
        Ok(())
    }

    /// Gives `action` its default binding again; an action without default keeps
    /// its binding. Returns whether the action has a default and was reset, which is
    /// when the caller persists the configuration.
    pub fn reset_action(&mut self, action: ShortcutAction) -> (reset: bool)
        ensures
            final(self).version == old(self).version,
            final(self).bindings@ == (if default_bindings().dom().contains(action) {
                old(self).bindings@.insert(action, default_bindings()[action])
            } else {
                old(self).bindings@
            }),
            reset == default_bindings().dom().contains(action),
    {
        let defaults = Self::default();
        match defaults.bindings.get(&action) {
            Some(binding) => {
                self.bindings.insert(action, *binding);
                true
            },
            None => false,
        }
    }

    /// Restores the default configuration. In memory only, like `set_binding`.
    pub fn reset_all(&mut self) -> (res: Result<(), String>)
        ensures
            final(self).version == CURRENT_VERSION,
            final(self).bindings@ == default_bindings(),
            res is Ok,
    {
        *self = Self::default();
        Ok(())
    }

    /// An action other than `exclude` that is already bound to `binding`, if any
    /// (for conflict detection). Which one, when several are, is left open.
    pub fn find_conflict(&self, binding: &KeyBinding, exclude: ShortcutAction) -> (res: Option<ShortcutAction>)
        ensures
            match res {
                Some(a) => a != exclude && self.bindings@.dom().contains(a) && self.bindings@[a] == *binding,
                None => forall|a: ShortcutAction|
                    #[trigger] self.bindings@.dom().contains(a) && a != exclude ==> self.bindings@[a] != *binding,
            },
    {
        self.bindings.find_bound(binding, exclude)
    }

    /// Whether `action` is bound and its binding fires for `input`.
    pub fn is_pressed(&self, action: ShortcutAction, input: &InputState) -> (res: bool)
        ensures
            res == (self.bindings@.dom().contains(action) && self.bindings@[action].spec_matches(*input)),
    {
        match self.bindings.get(&action) {
            Some(binding) => binding.matches(input),
            None => false,
        }
    }

    /// The configuration to use after reading `loaded` from disk, and whether it
    /// must be written back. Another format version is replaced by the defaults
    /// (written back); otherwise every action without a binding that has a
    /// default gets it, and the loaded bindings stay.
    pub fn from_loaded(loaded: ShortcutsConfig) -> (res: (ShortcutsConfig, bool))
        ensures
            loaded.version != CURRENT_VERSION ==> {
                &&& res.0.version == CURRENT_VERSION
                &&& res.0.bindings@ == default_bindings()
                &&& res.1
            },
            loaded.version == CURRENT_VERSION ==> {
                &&& res.0.version == loaded.version
                &&& res.0.bindings@ == default_bindings().union_prefer_right(loaded.bindings@)
                &&& !res.1
            },
    {
        if loaded.version != CURRENT_VERSION {
            return (Self::default(), true);
        }
        let defaults = Self::default();
        let mut merged = loaded;
        let all = ShortcutAction::all();
        let mut i: usize = 0;
        while i < all.len()
            invariant
                i <= all.len(),
                all@ == ShortcutAction::spec_all(),
                defaults.bindings@ == default_bindings(),
                merged.version == loaded.version,
                merge_holds(merged.bindings@, loaded.bindings@, all@.take(i as int)),
            decreases all.len() - i,
        {
            let action = all[i];
            let ghost before = merged.bindings@;
            if !merged.bindings.contains_key(&action) {
                if let Some(binding) = defaults.bindings.get(&action) {
                    merged.bindings.insert(action, *binding);
                }
            }
            proof {
                let prev = all@.take(i as int);
                let next = all@.take(i + 1);
                assert(next =~= prev.push(action));
                assert forall|a: ShortcutAction| #[trigger] next.contains(a) <==> (prev.contains(a) || a == action) by {
                    if next.contains(a) && a != action {
                        let k = choose|k: int| 0 <= k < next.len() && next[k] == a;
                        assert(prev[k] == a);
                    }
                    if prev.contains(a) {
                        let k = choose|k: int| 0 <= k < prev.len() && prev[k] == a;
                        assert(next[k] == a);
                    }
                    if a == action {
                        assert(next[i as int] == a);
                    }
                }
            }
            i += 1;
        }
        proof {
            law_all_shortcut_actions_listed();
            assert(all@.take(all@.len() as int) =~= all@);
            assert(merged.bindings@ =~= default_bindings().union_prefer_right(loaded.bindings@));
        }
        (merged, false)
    }
}

/// The position of `a` in `ShortcutAction::all`.
pub open spec fn shortcut_action_index(a: ShortcutAction) -> int {
    match a {
        ShortcutAction::PlayPause => 0,
        ShortcutAction::Stop => 1,
        ShortcutAction::SeekForward => 2,
        ShortcutAction::SeekBackward => 3,
        ShortcutAction::SetLoopA => 4,
        ShortcutAction::SetLoopB => 5,
        ShortcutAction::ClearLoop => 6,
        ShortcutAction::ToggleLoopBypass => 7,
        ShortcutAction::NudgeLoopLeft => 8,
        ShortcutAction::NudgeLoopRight => 9,
        ShortcutAction::ToggleLoopPoint => 10,
        ShortcutAction::NudgeALeft => 11,
        ShortcutAction::NudgeARight => 12,
        ShortcutAction::NudgeBLeft => 13,
        ShortcutAction::NudgeBRight => 14,
        ShortcutAction::NudgePlayheadLeft => 15,
        ShortcutAction::NudgePlayheadRight => 16,
        ShortcutAction::AddSectionMarker => 17,
        ShortcutAction::AddMeasureMarker => 18,
        ShortcutAction::AddBeatMarker => 19,
        ShortcutAction::DeleteNearestMarker => 20,
        ShortcutAction::MarkerPrev => 21,
        ShortcutAction::MarkerNext => 22,
        ShortcutAction::ZoomIn => 23,
        ShortcutAction::ZoomOut => 24,
        ShortcutAction::ResetZoom => 25,
        ShortcutAction::ShowShortcuts => 26,
        ShortcutAction::OpenFile => 27,
        ShortcutAction::Undo => 28,
        ShortcutAction::Redo => 29,
        ShortcutAction::RestartLoop => 30,
        ShortcutAction::CenterLoop => 31,
        ShortcutAction::SaveLoop => 32,
        ShortcutAction::DoubleLoopLength => 33,
        ShortcutAction::HalveLoopLength => 34,
        ShortcutAction::SnapLoopLeft => 35,
        ShortcutAction::SnapLoopRight => 36,
        ShortcutAction::ExportLoops => 37,
        ShortcutAction::Detect => 38,
        ShortcutAction::ExtendBeats => 39,
        ShortcutAction::PlaceBeats => 40,
        ShortcutAction::ToggleArranger => 41,
        ShortcutAction::Setup => 42,
        ShortcutAction::ToggleAudit => 43,
        ShortcutAction::TempoDown => 44,
        ShortcutAction::TempoUp => 45,
        ShortcutAction::PitchDown => 46,
        ShortcutAction::PitchUp => 47,
    }
}

proof fn lemma_shortcut_action_positions()
    ensures
        forall|i: int| 0 <= i < ShortcutAction::spec_all().len() ==> shortcut_action_index(#[trigger] ShortcutAction::spec_all()[i]) == i,
{
    assert forall|i: int| 0 <= i < ShortcutAction::spec_all().len() implies shortcut_action_index(#[trigger] ShortcutAction::spec_all()[i]) == i by {
        assert(ShortcutAction::spec_all()[0] == ShortcutAction::PlayPause);
        assert(ShortcutAction::spec_all()[1] == ShortcutAction::Stop);
        assert(ShortcutAction::spec_all()[2] == ShortcutAction::SeekForward);
        assert(ShortcutAction::spec_all()[3] == ShortcutAction::SeekBackward);
        assert(ShortcutAction::spec_all()[4] == ShortcutAction::SetLoopA);
        assert(ShortcutAction::spec_all()[5] == ShortcutAction::SetLoopB);
        assert(ShortcutAction::spec_all()[6] == ShortcutAction::ClearLoop);
        assert(ShortcutAction::spec_all()[7] == ShortcutAction::ToggleLoopBypass);
        assert(ShortcutAction::spec_all()[8] == ShortcutAction::NudgeLoopLeft);
        assert(ShortcutAction::spec_all()[9] == ShortcutAction::NudgeLoopRight);
        assert(ShortcutAction::spec_all()[10] == ShortcutAction::ToggleLoopPoint);
        assert(ShortcutAction::spec_all()[11] == ShortcutAction::NudgeALeft);
        assert(ShortcutAction::spec_all()[12] == ShortcutAction::NudgeARight);
        assert(ShortcutAction::spec_all()[13] == ShortcutAction::NudgeBLeft);
        assert(ShortcutAction::spec_all()[14] == ShortcutAction::NudgeBRight);
        assert(ShortcutAction::spec_all()[15] == ShortcutAction::NudgePlayheadLeft);
        assert(ShortcutAction::spec_all()[16] == ShortcutAction::NudgePlayheadRight);
        assert(ShortcutAction::spec_all()[17] == ShortcutAction::AddSectionMarker);
        assert(ShortcutAction::spec_all()[18] == ShortcutAction::AddMeasureMarker);
        assert(ShortcutAction::spec_all()[19] == ShortcutAction::AddBeatMarker);
        assert(ShortcutAction::spec_all()[20] == ShortcutAction::DeleteNearestMarker);
        assert(ShortcutAction::spec_all()[21] == ShortcutAction::MarkerPrev);
        assert(ShortcutAction::spec_all()[22] == ShortcutAction::MarkerNext);
        assert(ShortcutAction::spec_all()[23] == ShortcutAction::ZoomIn);
        assert(ShortcutAction::spec_all()[24] == ShortcutAction::ZoomOut);
        assert(ShortcutAction::spec_all()[25] == ShortcutAction::ResetZoom);
        assert(ShortcutAction::spec_all()[26] == ShortcutAction::ShowShortcuts);
        assert(ShortcutAction::spec_all()[27] == ShortcutAction::OpenFile);
        assert(ShortcutAction::spec_all()[28] == ShortcutAction::Undo);
        assert(ShortcutAction::spec_all()[29] == ShortcutAction::Redo);
        assert(ShortcutAction::spec_all()[30] == ShortcutAction::RestartLoop);
        assert(ShortcutAction::spec_all()[31] == ShortcutAction::CenterLoop);
        assert(ShortcutAction::spec_all()[32] == ShortcutAction::SaveLoop);
        assert(ShortcutAction::spec_all()[33] == ShortcutAction::DoubleLoopLength);
        assert(ShortcutAction::spec_all()[34] == ShortcutAction::HalveLoopLength);
        assert(ShortcutAction::spec_all()[35] == ShortcutAction::SnapLoopLeft);
        assert(ShortcutAction::spec_all()[36] == ShortcutAction::SnapLoopRight);
        assert(ShortcutAction::spec_all()[37] == ShortcutAction::ExportLoops);
        assert(ShortcutAction::spec_all()[38] == ShortcutAction::Detect);
        assert(ShortcutAction::spec_all()[39] == ShortcutAction::ExtendBeats);
        assert(ShortcutAction::spec_all()[40] == ShortcutAction::PlaceBeats);
        assert(ShortcutAction::spec_all()[41] == ShortcutAction::ToggleArranger);
        assert(ShortcutAction::spec_all()[42] == ShortcutAction::Setup);
        assert(ShortcutAction::spec_all()[43] == ShortcutAction::ToggleAudit);
        assert(ShortcutAction::spec_all()[44] == ShortcutAction::TempoDown);
        assert(ShortcutAction::spec_all()[45] == ShortcutAction::TempoUp);
        assert(ShortcutAction::spec_all()[46] == ShortcutAction::PitchDown);
        assert(ShortcutAction::spec_all()[47] == ShortcutAction::PitchUp);
        assert(i == 0 || i == 1 || i == 2 || i == 3 || i == 4 || i == 5 || i == 6 || i == 7 || i == 8 || i == 9 || i == 10 || i == 11 || i == 12 || i == 13 || i == 14 || i == 15 || i == 16 || i == 17 || i == 18 || i == 19 || i == 20 || i == 21 || i == 22 || i == 23 || i == 24 || i == 25 || i == 26 || i == 27 || i == 28 || i == 29 || i == 30 || i == 31 || i == 32 || i == 33 || i == 34 || i == 35 || i == 36 || i == 37 || i == 38 || i == 39 || i == 40 || i == 41 || i == 42 || i == 43 || i == 44 || i == 45 || i == 46 || i == 47);
    }
}

/// Law: `ShortcutAction::all` lists every action exactly once.
pub proof fn law_all_shortcut_actions_listed()
    ensures
        forall|a: ShortcutAction| #[trigger] ShortcutAction::spec_all().contains(a),
        ShortcutAction::spec_all().no_duplicates(),
{
    assert forall|a: ShortcutAction| #[trigger] ShortcutAction::spec_all().contains(a) by {
        match a {
            ShortcutAction::PlayPause => {
                assert(ShortcutAction::spec_all()[0] == ShortcutAction::PlayPause);
            },
            ShortcutAction::Stop => {
                assert(ShortcutAction::spec_all()[1] == ShortcutAction::Stop);
            },
            ShortcutAction::SeekForward => {
                assert(ShortcutAction::spec_all()[2] == ShortcutAction::SeekForward);
            },
            ShortcutAction::SeekBackward => {
                assert(ShortcutAction::spec_all()[3] == ShortcutAction::SeekBackward);
            },
            ShortcutAction::SetLoopA => {
                assert(ShortcutAction::spec_all()[4] == ShortcutAction::SetLoopA);
            },
            ShortcutAction::SetLoopB => {
                assert(ShortcutAction::spec_all()[5] == ShortcutAction::SetLoopB);
            },
            ShortcutAction::ClearLoop => {
                assert(ShortcutAction::spec_all()[6] == ShortcutAction::ClearLoop);
            },
            ShortcutAction::ToggleLoopBypass => {
                assert(ShortcutAction::spec_all()[7] == ShortcutAction::ToggleLoopBypass);
            },
            ShortcutAction::NudgeLoopLeft => {
                assert(ShortcutAction::spec_all()[8] == ShortcutAction::NudgeLoopLeft);
            },
            ShortcutAction::NudgeLoopRight => {
                assert(ShortcutAction::spec_all()[9] == ShortcutAction::NudgeLoopRight);
            },
            ShortcutAction::ToggleLoopPoint => {
                assert(ShortcutAction::spec_all()[10] == ShortcutAction::ToggleLoopPoint);
            },
            ShortcutAction::NudgeALeft => {
                assert(ShortcutAction::spec_all()[11] == ShortcutAction::NudgeALeft);
            },
            ShortcutAction::NudgeARight => {
                assert(ShortcutAction::spec_all()[12] == ShortcutAction::NudgeARight);
            },
            ShortcutAction::NudgeBLeft => {
                assert(ShortcutAction::spec_all()[13] == ShortcutAction::NudgeBLeft);
            },
            ShortcutAction::NudgeBRight => {
                assert(ShortcutAction::spec_all()[14] == ShortcutAction::NudgeBRight);
            },
            ShortcutAction::NudgePlayheadLeft => {
                assert(ShortcutAction::spec_all()[15] == ShortcutAction::NudgePlayheadLeft);
            },
            ShortcutAction::NudgePlayheadRight => {
                assert(ShortcutAction::spec_all()[16] == ShortcutAction::NudgePlayheadRight);
            },
            ShortcutAction::AddSectionMarker => {
                assert(ShortcutAction::spec_all()[17] == ShortcutAction::AddSectionMarker);
            },
            ShortcutAction::AddMeasureMarker => {
                assert(ShortcutAction::spec_all()[18] == ShortcutAction::AddMeasureMarker);
            },
            ShortcutAction::AddBeatMarker => {
                assert(ShortcutAction::spec_all()[19] == ShortcutAction::AddBeatMarker);
            },
            ShortcutAction::DeleteNearestMarker => {
                assert(ShortcutAction::spec_all()[20] == ShortcutAction::DeleteNearestMarker);
            },
            ShortcutAction::MarkerPrev => {
                assert(ShortcutAction::spec_all()[21] == ShortcutAction::MarkerPrev);
            },
            ShortcutAction::MarkerNext => {
                assert(ShortcutAction::spec_all()[22] == ShortcutAction::MarkerNext);
            },
            ShortcutAction::ZoomIn => {
                assert(ShortcutAction::spec_all()[23] == ShortcutAction::ZoomIn);
            },
            ShortcutAction::ZoomOut => {
                assert(ShortcutAction::spec_all()[24] == ShortcutAction::ZoomOut);
            },
            ShortcutAction::ResetZoom => {
                assert(ShortcutAction::spec_all()[25] == ShortcutAction::ResetZoom);
            },
            ShortcutAction::ShowShortcuts => {
                assert(ShortcutAction::spec_all()[26] == ShortcutAction::ShowShortcuts);
            },
            ShortcutAction::OpenFile => {
                assert(ShortcutAction::spec_all()[27] == ShortcutAction::OpenFile);
            },
            ShortcutAction::Undo => {
                assert(ShortcutAction::spec_all()[28] == ShortcutAction::Undo);
            },
            ShortcutAction::Redo => {
                assert(ShortcutAction::spec_all()[29] == ShortcutAction::Redo);
            },
            ShortcutAction::RestartLoop => {
                assert(ShortcutAction::spec_all()[30] == ShortcutAction::RestartLoop);
            },
            ShortcutAction::CenterLoop => {
                assert(ShortcutAction::spec_all()[31] == ShortcutAction::CenterLoop);
            },
            ShortcutAction::SaveLoop => {
                assert(ShortcutAction::spec_all()[32] == ShortcutAction::SaveLoop);
            },
            ShortcutAction::DoubleLoopLength => {
                assert(ShortcutAction::spec_all()[33] == ShortcutAction::DoubleLoopLength);
            },
            ShortcutAction::HalveLoopLength => {
                assert(ShortcutAction::spec_all()[34] == ShortcutAction::HalveLoopLength);
            },
            ShortcutAction::SnapLoopLeft => {
                assert(ShortcutAction::spec_all()[35] == ShortcutAction::SnapLoopLeft);
            },
            ShortcutAction::SnapLoopRight => {
                assert(ShortcutAction::spec_all()[36] == ShortcutAction::SnapLoopRight);
            },
            ShortcutAction::ExportLoops => {
                assert(ShortcutAction::spec_all()[37] == ShortcutAction::ExportLoops);
            },
            ShortcutAction::Detect => {
                assert(ShortcutAction::spec_all()[38] == ShortcutAction::Detect);
            },
            ShortcutAction::ExtendBeats => {
                assert(ShortcutAction::spec_all()[39] == ShortcutAction::ExtendBeats);
            },
            ShortcutAction::PlaceBeats => {
                assert(ShortcutAction::spec_all()[40] == ShortcutAction::PlaceBeats);
            },
            ShortcutAction::ToggleArranger => {
                assert(ShortcutAction::spec_all()[41] == ShortcutAction::ToggleArranger);
            },
            ShortcutAction::Setup => {
                assert(ShortcutAction::spec_all()[42] == ShortcutAction::Setup);
            },
            ShortcutAction::ToggleAudit => {
                assert(ShortcutAction::spec_all()[43] == ShortcutAction::ToggleAudit);
            },
            ShortcutAction::TempoDown => {
                assert(ShortcutAction::spec_all()[44] == ShortcutAction::TempoDown);
            },
            ShortcutAction::TempoUp => {
                assert(ShortcutAction::spec_all()[45] == ShortcutAction::TempoUp);
            },
            ShortcutAction::PitchDown => {
                assert(ShortcutAction::spec_all()[46] == ShortcutAction::PitchDown);
            },
            ShortcutAction::PitchUp => {
                assert(ShortcutAction::spec_all()[47] == ShortcutAction::PitchUp);
            },
        }
    }
    lemma_shortcut_action_positions();
    assert forall|i: int, j: int|
        0 <= i < ShortcutAction::spec_all().len() && 0 <= j < ShortcutAction::spec_all().len() && i != j implies #[trigger] ShortcutAction::spec_all()[i]
        != #[trigger] ShortcutAction::spec_all()[j] by {
        assert(shortcut_action_index(ShortcutAction::spec_all()[i]) == i);
        assert(shortcut_action_index(ShortcutAction::spec_all()[j]) == j);
    }
}

/// The position of `a` in `ToolbarAction::all`.
pub open spec fn toolbar_action_index(a: ToolbarAction) -> int {
    match a {
        ToolbarAction::Detect => 0,
        ToolbarAction::ExtendBeats => 1,
        ToolbarAction::ClearLoop => 2,
        ToolbarAction::Undo => 3,
        ToolbarAction::Redo => 4,
        ToolbarAction::SaveLoop => 5,
        ToolbarAction::CenterLoop => 6,
        ToolbarAction::ZoomOut => 7,
        ToolbarAction::ZoomIn => 8,
        ToolbarAction::ResetZoom => 9,
        ToolbarAction::PlaceBeats => 10,
        ToolbarAction::ToggleArranger => 11,
        ToolbarAction::Export => 12,
        ToolbarAction::Setup => 13,
        ToolbarAction::ToggleAudit => 14,
        ToolbarAction::TempoDown => 15,
        ToolbarAction::TempoUp => 16,
        ToolbarAction::PitchDown => 17,
        ToolbarAction::PitchUp => 18,
    }
}

proof fn lemma_toolbar_action_positions()
    ensures
        forall|i: int| 0 <= i < ToolbarAction::spec_all().len() ==> toolbar_action_index(#[trigger] ToolbarAction::spec_all()[i]) == i,
{
    assert forall|i: int| 0 <= i < ToolbarAction::spec_all().len() implies toolbar_action_index(#[trigger] ToolbarAction::spec_all()[i]) == i by {
        assert(ToolbarAction::spec_all()[0] == ToolbarAction::Detect);
        assert(ToolbarAction::spec_all()[1] == ToolbarAction::ExtendBeats);
        assert(ToolbarAction::spec_all()[2] == ToolbarAction::ClearLoop);
        assert(ToolbarAction::spec_all()[3] == ToolbarAction::Undo);
        assert(ToolbarAction::spec_all()[4] == ToolbarAction::Redo);
        assert(ToolbarAction::spec_all()[5] == ToolbarAction::SaveLoop);
        assert(ToolbarAction::spec_all()[6] == ToolbarAction::CenterLoop);
        assert(ToolbarAction::spec_all()[7] == ToolbarAction::ZoomOut);
        assert(ToolbarAction::spec_all()[8] == ToolbarAction::ZoomIn);
        assert(ToolbarAction::spec_all()[9] == ToolbarAction::ResetZoom);
        assert(ToolbarAction::spec_all()[10] == ToolbarAction::PlaceBeats);
        assert(ToolbarAction::spec_all()[11] == ToolbarAction::ToggleArranger);
        assert(ToolbarAction::spec_all()[12] == ToolbarAction::Export);
        assert(ToolbarAction::spec_all()[13] == ToolbarAction::Setup);
        assert(ToolbarAction::spec_all()[14] == ToolbarAction::ToggleAudit);
        assert(ToolbarAction::spec_all()[15] == ToolbarAction::TempoDown);
        assert(ToolbarAction::spec_all()[16] == ToolbarAction::TempoUp);
        assert(ToolbarAction::spec_all()[17] == ToolbarAction::PitchDown);
        assert(ToolbarAction::spec_all()[18] == ToolbarAction::PitchUp);
        assert(i == 0 || i == 1 || i == 2 || i == 3 || i == 4 || i == 5 || i == 6 || i == 7 || i == 8 || i == 9 || i == 10 || i == 11 || i == 12 || i == 13 || i == 14 || i == 15 || i == 16 || i == 17 || i == 18);
    }
}

/// Law: `ToolbarAction::all` lists every toolbar action exactly once.
pub proof fn law_all_toolbar_actions_listed()
    ensures
        forall|a: ToolbarAction| #[trigger] ToolbarAction::spec_all().contains(a),
        ToolbarAction::spec_all().no_duplicates(),
{
    assert forall|a: ToolbarAction| #[trigger] ToolbarAction::spec_all().contains(a) by {
        match a {
            ToolbarAction::Detect => {
                assert(ToolbarAction::spec_all()[0] == ToolbarAction::Detect);
            },
            ToolbarAction::ExtendBeats => {
                assert(ToolbarAction::spec_all()[1] == ToolbarAction::ExtendBeats);
            },
            ToolbarAction::ClearLoop => {
                assert(ToolbarAction::spec_all()[2] == ToolbarAction::ClearLoop);
            },
            ToolbarAction::Undo => {
                assert(ToolbarAction::spec_all()[3] == ToolbarAction::Undo);
            },
            ToolbarAction::Redo => {
                assert(ToolbarAction::spec_all()[4] == ToolbarAction::Redo);
            },
            ToolbarAction::SaveLoop => {
                assert(ToolbarAction::spec_all()[5] == ToolbarAction::SaveLoop);
            },
            ToolbarAction::CenterLoop => {
                assert(ToolbarAction::spec_all()[6] == ToolbarAction::CenterLoop);
            },
            ToolbarAction::ZoomOut => {
                assert(ToolbarAction::spec_all()[7] == ToolbarAction::ZoomOut);
            },
            ToolbarAction::ZoomIn => {
                assert(ToolbarAction::spec_all()[8] == ToolbarAction::ZoomIn);
            },
            ToolbarAction::ResetZoom => {
                assert(ToolbarAction::spec_all()[9] == ToolbarAction::ResetZoom);
            },
            ToolbarAction::PlaceBeats => {
                assert(ToolbarAction::spec_all()[10] == ToolbarAction::PlaceBeats);
            },
            ToolbarAction::ToggleArranger => {
                assert(ToolbarAction::spec_all()[11] == ToolbarAction::ToggleArranger);
            },
            ToolbarAction::Export => {
                assert(ToolbarAction::spec_all()[12] == ToolbarAction::Export);
            },
            ToolbarAction::Setup => {
                assert(ToolbarAction::spec_all()[13] == ToolbarAction::Setup);
            },
            ToolbarAction::ToggleAudit => {
                assert(ToolbarAction::spec_all()[14] == ToolbarAction::ToggleAudit);
            },
            ToolbarAction::TempoDown => {
                assert(ToolbarAction::spec_all()[15] == ToolbarAction::TempoDown);
            },
            ToolbarAction::TempoUp => {
                assert(ToolbarAction::spec_all()[16] == ToolbarAction::TempoUp);
            },
            ToolbarAction::PitchDown => {
                assert(ToolbarAction::spec_all()[17] == ToolbarAction::PitchDown);
            },
            ToolbarAction::PitchUp => {
                assert(ToolbarAction::spec_all()[18] == ToolbarAction::PitchUp);
            },
        }
    }
    lemma_toolbar_action_positions();
    assert forall|i: int, j: int|
        0 <= i < ToolbarAction::spec_all().len() && 0 <= j < ToolbarAction::spec_all().len() && i != j implies #[trigger] ToolbarAction::spec_all()[i]
        != #[trigger] ToolbarAction::spec_all()[j] by {
        assert(toolbar_action_index(ToolbarAction::spec_all()[i]) == i);
        assert(toolbar_action_index(ToolbarAction::spec_all()[j]) == j);
    }
}


/// Law: a binding written with `set_binding` is the one `binding_for` reads back,
/// and the other actions keep theirs.
pub proof fn law_binding_read_after_write(
    bindings: Map<ShortcutAction, KeyBinding>,
    action: ShortcutAction,
    binding: KeyBinding,
    other: ShortcutAction,
)
    requires
        other != action,
    ensures
        bindings.insert(action, binding).dom().contains(action),
        bindings.insert(action, binding)[action] == binding,
        bindings.insert(action, binding).dom().contains(other) == bindings.dom().contains(other),
        bindings.dom().contains(other) ==> bindings.insert(action, binding)[other] == bindings[other],
{
}

/// Law: `reset_action` gives an action that has a default binding that default back,
/// whatever it was bound to before.
pub proof fn law_reset_restores_default(
    bindings: Map<ShortcutAction, KeyBinding>,
    action: ShortcutAction,
    binding: KeyBinding,
)
    requires
        default_bindings().dom().contains(action),
    ensures
        ({
            let reset = bindings.insert(action, binding).insert(action, default_bindings()[action]);
            reset.dom().contains(action) && reset[action] == default_bindings()[action]
        }),
{
}

/// The toolbar button that performs `action`, if any.
pub open spec fn toolbar_action_for(action: ShortcutAction) -> Option<ToolbarAction> {
    match action {
        ShortcutAction::ClearLoop => Some(ToolbarAction::ClearLoop),
        ShortcutAction::Undo => Some(ToolbarAction::Undo),
        ShortcutAction::Redo => Some(ToolbarAction::Redo),
        ShortcutAction::SaveLoop => Some(ToolbarAction::SaveLoop),
        ShortcutAction::CenterLoop => Some(ToolbarAction::CenterLoop),
        ShortcutAction::ZoomOut => Some(ToolbarAction::ZoomOut),
        ShortcutAction::ZoomIn => Some(ToolbarAction::ZoomIn),
        ShortcutAction::ResetZoom => Some(ToolbarAction::ResetZoom),
        ShortcutAction::ExportLoops => Some(ToolbarAction::Export),
        ShortcutAction::Detect => Some(ToolbarAction::Detect),
        ShortcutAction::ExtendBeats => Some(ToolbarAction::ExtendBeats),
        ShortcutAction::PlaceBeats => Some(ToolbarAction::PlaceBeats),
        ShortcutAction::ToggleArranger => Some(ToolbarAction::ToggleArranger),
        ShortcutAction::Setup => Some(ToolbarAction::Setup),
        ShortcutAction::ToggleAudit => Some(ToolbarAction::ToggleAudit),
        ShortcutAction::TempoDown => Some(ToolbarAction::TempoDown),
        ShortcutAction::TempoUp => Some(ToolbarAction::TempoUp),
        ShortcutAction::PitchDown => Some(ToolbarAction::PitchDown),
        ShortcutAction::PitchUp => Some(ToolbarAction::PitchUp),
        _ => None,
    }
}

/// Law: every toolbar button performs a shortcut action, and no two buttons
/// perform the same one.
pub proof fn law_toolbar_shortcuts_distinct(t1: ToolbarAction, t2: ToolbarAction)
    ensures
        t1.spec_shortcut_action() is Some,
        toolbar_action_for(t1.spec_shortcut_action()->0) == Some(t1),
        t1 != t2 ==> t1.spec_shortcut_action() != t2.spec_shortcut_action(),
{
    match t1 {
        ToolbarAction::Detect => {},
        ToolbarAction::ExtendBeats => {},
        ToolbarAction::ClearLoop => {},
        ToolbarAction::Undo => {},
        ToolbarAction::Redo => {},
        ToolbarAction::SaveLoop => {},
        ToolbarAction::CenterLoop => {},
        ToolbarAction::ZoomOut => {},
        ToolbarAction::ZoomIn => {},
        ToolbarAction::ResetZoom => {},
        ToolbarAction::PlaceBeats => {},
        ToolbarAction::ToggleArranger => {},
        ToolbarAction::Export => {},
        ToolbarAction::Setup => {},
        ToolbarAction::ToggleAudit => {},
        ToolbarAction::TempoDown => {},
        ToolbarAction::TempoUp => {},
        ToolbarAction::PitchDown => {},
        ToolbarAction::PitchUp => {},
    }
    match t2 {
        ToolbarAction::Detect => {},
        ToolbarAction::ExtendBeats => {},
        ToolbarAction::ClearLoop => {},
        ToolbarAction::Undo => {},
        ToolbarAction::Redo => {},
        ToolbarAction::SaveLoop => {},
        ToolbarAction::CenterLoop => {},
        ToolbarAction::ZoomOut => {},
        ToolbarAction::ZoomIn => {},
        ToolbarAction::ResetZoom => {},
        ToolbarAction::PlaceBeats => {},
        ToolbarAction::ToggleArranger => {},
        ToolbarAction::Export => {},
        ToolbarAction::Setup => {},
        ToolbarAction::ToggleAudit => {},
        ToolbarAction::TempoDown => {},
        ToolbarAction::TempoUp => {},
        ToolbarAction::PitchDown => {},
        ToolbarAction::PitchUp => {},
    }
}

/// Law: the standard toolbar uses only listed toolbar actions, each once.
pub proof fn law_default_toolbar_listed()
    ensures
        ToolbarAction::spec_default_toolbar().no_duplicates(),
        forall|i: int|
            0 <= i < ToolbarAction::spec_default_toolbar().len() ==> ToolbarAction::spec_all().contains(
                #[trigger] ToolbarAction::spec_default_toolbar()[i],
            ),
{
    law_all_toolbar_actions_listed();
    let d = ToolbarAction::spec_default_toolbar();
    assert(d[0] == ToolbarAction::Detect);
    assert(d[1] == ToolbarAction::ExtendBeats);
    assert(d[2] == ToolbarAction::ClearLoop);
    assert(d[3] == ToolbarAction::Undo);
    assert(d[4] == ToolbarAction::Redo);
    assert(d[5] == ToolbarAction::Setup);
    assert(d[6] == ToolbarAction::ToggleAudit);
    assert forall|i: int, j: int| 0 <= i < d.len() && 0 <= j < d.len() && i != j implies d[i] != d[j] by {
        assert(i == 0 || i == 1 || i == 2 || i == 3 || i == 4 || i == 5 || i == 6);
        assert(j == 0 || j == 1 || j == 2 || j == 3 || j == 4 || j == 5 || j == 6);
    }
}


/// Law: the toolbar buttons for clearing the loop, undo, saving the loop,
/// centring the loop and export name their shortcut in their hover text, and that
/// is the default binding of the action they perform: the hover text ends with
/// "(" + the binding as displayed + ")", e.g. "(Ctrl+Z)" for undo.
pub proof fn law_hover_text_names_default_shortcut(t: ToolbarAction)
    requires
        t == ToolbarAction::ClearLoop || t == ToolbarAction::Undo || t == ToolbarAction::SaveLoop || t
            == ToolbarAction::CenterLoop || t == ToolbarAction::Export,
    ensures
        t.spec_shortcut_action() is Some,
        default_bindings().dom().contains(t.spec_shortcut_action()->0),
        ({
            let d = default_bindings()[t.spec_shortcut_action()->0].spec_display();
            let h = t.spec_hover_text();
            &&& h.len() >= d.len() + 2
            &&& h.subrange(h.len() - d.len() - 2, h.len() as int) == "("@ + d + ")"@
        }),
{
    reveal_strlit("(");
    reveal_strlit(")");
    reveal_strlit("Ctrl+");
    let d = default_bindings()[t.spec_shortcut_action()->0].spec_display();
    let h = t.spec_hover_text();
    if t == ToolbarAction::Undo {
        reveal_strlit("Z");
        reveal_strlit("Ongedaan maken (Ctrl+Z)");
        assert(d =~= "Ctrl+"@ + "Z"@);
        assert(h.subrange(h.len() - d.len() - 2, h.len() as int) =~= "("@ + d + ")"@);
    } else if t == ToolbarAction::ClearLoop {
        reveal_strlit("Backspace");
        reveal_strlit("Verwijder A-B selectie (Ctrl+Backspace)");
        assert(d =~= "Ctrl+"@ + "Backspace"@);
        assert(h.subrange(h.len() - d.len() - 2, h.len() as int) =~= "("@ + d + ")"@);
    } else if t == ToolbarAction::SaveLoop {
        reveal_strlit("S");
        reveal_strlit("Bewaar huidige A-B loop in de bibliotheek (Ctrl+S)");
        assert(d =~= "Ctrl+"@ + "S"@);
        assert(h.subrange(h.len() - d.len() - 2, h.len() as int) =~= "("@ + d + ")"@);
    } else if t == ToolbarAction::CenterLoop {
        reveal_strlit("C");
        reveal_strlit("Centreer weergave op de A-B loop (C)");
        assert(d =~= "C"@);
        assert(h.subrange(h.len() - d.len() - 2, h.len() as int) =~= "("@ + d + ")"@);
    } else {
        reveal_strlit("E");
        reveal_strlit("Exporteer loops naar WAV (Ctrl+E)");
        assert(d =~= "Ctrl+"@ + "E"@);
        assert(h.subrange(h.len() - d.len() - 2, h.len() as int) =~= "("@ + d + ")"@);
    }
}

/// `b` with Shift added.
pub open spec fn with_shift_held(b: KeyBinding) -> KeyBinding {
    KeyBinding { shift: true, ..b }
}

/// Law: the default bindings come in families. Each "other way" action is its
/// partner's combination with Shift added (halve/double loop length, zoom out/in,
/// nudge A or B right/left, and nudging the loop uses the playhead's arrows with
/// Shift); the marker steps are the playhead's arrows with Ctrl; the loop ends A
/// and B are the two brackets; both snap directions share one key; and no default
/// holds Alt.
pub proof fn law_default_binding_families()
    ensures
        ({
            let d = default_bindings();
            &&& d[ShortcutAction::HalveLoopLength] == with_shift_held(d[ShortcutAction::DoubleLoopLength])
            &&& d[ShortcutAction::ZoomOut] == with_shift_held(d[ShortcutAction::ZoomIn])
            &&& d[ShortcutAction::NudgeARight] == with_shift_held(d[ShortcutAction::NudgeALeft])
            &&& d[ShortcutAction::NudgeBRight] == with_shift_held(d[ShortcutAction::NudgeBLeft])
            &&& d[ShortcutAction::NudgeLoopLeft] == with_shift_held(d[ShortcutAction::NudgePlayheadLeft])
            &&& d[ShortcutAction::NudgeLoopRight] == with_shift_held(d[ShortcutAction::NudgePlayheadRight])
            &&& d[ShortcutAction::MarkerPrev] == (KeyBinding { ctrl: true, ..d[ShortcutAction::NudgePlayheadLeft] })
            &&& d[ShortcutAction::MarkerNext] == (KeyBinding { ctrl: true, ..d[ShortcutAction::NudgePlayheadRight] })
            &&& d[ShortcutAction::NudgePlayheadLeft] == kb(SerializableKey::ArrowLeft, false, false, false)
            &&& d[ShortcutAction::NudgePlayheadRight] == kb(SerializableKey::ArrowRight, false, false, false)
            &&& d[ShortcutAction::SetLoopA] == kb(SerializableKey::OpenBracket, false, false, false)
            &&& d[ShortcutAction::SetLoopB] == kb(SerializableKey::CloseBracket, false, false, false)
            &&& d[ShortcutAction::SnapLoopLeft] == d[ShortcutAction::SnapLoopRight]
            &&& forall|a: ShortcutAction| #[trigger] d.dom().contains(a) ==> !d[a].alt
        }),
{
}

/// Law: two different actions share a default binding only in two places: setting
/// loop point A and toggling the loop point (both "["), and snapping the loop left
/// and right (both "Q"). Every other default binding, undo's Ctrl+Z among them,
/// belongs to one action alone.
pub proof fn law_default_bindings_shared_only_by_pairs(a: ShortcutAction, b: ShortcutAction)
    requires
        a != b,
        default_bindings().dom().contains(a),
        default_bindings().dom().contains(b),
        default_bindings()[a] == default_bindings()[b],
    ensures
        (a == ShortcutAction::SetLoopA && b == ShortcutAction::ToggleLoopPoint)
            || (a == ShortcutAction::ToggleLoopPoint && b == ShortcutAction::SetLoopA)
            || (a == ShortcutAction::SnapLoopLeft && b == ShortcutAction::SnapLoopRight)
            || (a == ShortcutAction::SnapLoopRight && b == ShortcutAction::SnapLoopLeft),
{
}

/// Law: by default, redo is undo's key combination with Shift added.
pub proof fn law_default_redo_is_shifted_undo()
    ensures
        default_bindings().dom().contains(ShortcutAction::Undo),
        default_bindings().dom().contains(ShortcutAction::Redo),
        default_bindings()[ShortcutAction::Redo] == (KeyBinding {
            shift: true,
            ..default_bindings()[ShortcutAction::Undo]
        }),
        !default_bindings()[ShortcutAction::Undo].shift,
{
}

} // verus!
