use loopmachine::shortcuts::{
    BindingMap, InputState, KeyBinding, SerializableKey, ShortcutAction, ShortcutsConfig,
    ToolbarAction, CURRENT_VERSION,
};

// ── KeyBinding ──

#[test]
fn test_keybinding_display_simple() {
    let kb = KeyBinding::new(SerializableKey::Space);
    assert_eq!(kb.display(), "Space");
}

#[test]
fn test_keybinding_display_with_modifiers() {
    let kb = KeyBinding::new(SerializableKey::S).with_ctrl().with_shift();
    assert_eq!(kb.display(), "Ctrl+Shift+S");
}

#[test]
fn test_keybinding_eq_exact() {
    let a = KeyBinding::new(SerializableKey::Z).with_ctrl();
    let b = KeyBinding::new(SerializableKey::Z).with_ctrl();
    assert_eq!(a, b);
}

#[test]
fn test_keybinding_eq_different_key() {
    let a = KeyBinding::new(SerializableKey::A).with_ctrl();
    let b = KeyBinding::new(SerializableKey::B).with_ctrl();
    assert_ne!(a, b);
}

#[test]
fn test_keybinding_eq_different_modifier() {
    let a = KeyBinding::new(SerializableKey::X).with_ctrl();
    let b = KeyBinding::new(SerializableKey::X);
    assert_ne!(a, b);
}

#[test]
fn keybinding_display_orders_modifiers() {
    let kb = KeyBinding::new(SerializableKey::ArrowLeft).with_alt().with_shift().with_ctrl();
    assert_eq!(kb.display(), "Ctrl+Shift+Alt+◀");
    assert_eq!(KeyBinding::new(SerializableKey::F12).with_alt().display(), "Alt+F12");
    assert_eq!(KeyBinding::new(SerializableKey::Escape).display(), "Esc");
    assert_eq!(KeyBinding::new(SerializableKey::Num0).with_ctrl().display(), "Ctrl+0");
}

#[test]
fn keybinding_matches_needs_exact_modifiers_and_pressed_key() {
    let kb = KeyBinding::new(SerializableKey::S).with_ctrl();
    let input = InputState {
        ctrl: true,
        shift: false,
        alt: false,
        pressed: vec![SerializableKey::A, SerializableKey::S],
    };
    assert!(kb.matches(&input));
    let shifted = InputState { shift: true, ..input.clone() };
    assert!(!kb.matches(&shifted));
    let other = InputState { pressed: vec![SerializableKey::A], ..input.clone() };
    assert!(!kb.matches(&other));
}

// ── ShortcutsConfig ──

#[test]
fn test_shortcuts_config_default_has_bindings() {
    let config = ShortcutsConfig::default();
    assert!(
        !config.bindings.is_empty(),
        "default moet bindings bevatten"
    );
    assert_eq!(config.version, CURRENT_VERSION);
}

#[test]
fn test_shortcuts_config_default_has_playpause() {
    let config = ShortcutsConfig::default();
    assert!(config.bindings.contains_key(&ShortcutAction::PlayPause));
}

#[test]
fn test_shortcuts_config_binding_for() {
    let config = ShortcutsConfig::default();
    let binding = config.binding_for(ShortcutAction::PlayPause);
    assert!(
        binding.is_some(),
        "PlayPause moet een default binding hebben"
    );
}

#[test]
fn test_shortcuts_config_set_binding() {
    let mut config = ShortcutsConfig::default();
    let new_binding = KeyBinding::new(SerializableKey::F1).with_ctrl().with_alt();

    let result = config.set_binding(ShortcutAction::PlayPause, new_binding);
    assert!(result.is_ok());

    let stored = config.binding_for(ShortcutAction::PlayPause);
    assert_eq!(stored, Some(new_binding).as_ref());
}

#[test]
fn test_shortcuts_config_find_conflict() {
    let mut config = ShortcutsConfig::default();
    let binding = KeyBinding::new(SerializableKey::P);
    config
        .set_binding(ShortcutAction::PlayPause, binding)
        .unwrap();

    let conflict = config.find_conflict(
        &KeyBinding::new(SerializableKey::P),
        ShortcutAction::ExportLoops,
    );
    assert_eq!(conflict, Some(ShortcutAction::PlayPause));

    let no_conflict = config.find_conflict(
        &KeyBinding::new(SerializableKey::P),
        ShortcutAction::PlayPause,
    );
    assert_ne!(no_conflict, Some(ShortcutAction::PlayPause));
}

#[test]
fn test_shortcuts_config_reset_action() {
    let mut config = ShortcutsConfig::default();

    let original = config.binding_for(ShortcutAction::Stop).cloned();

    config
        .set_binding(
            ShortcutAction::Stop,
            KeyBinding::new(SerializableKey::F5).with_ctrl(),
        )
        .unwrap();

    let _ = config.reset_action(ShortcutAction::Stop);
    let restored = config.binding_for(ShortcutAction::Stop);
    assert_eq!(restored, original.as_ref());
}

#[test]
fn default_config_exact_bindings() {
    let config = ShortcutsConfig::default();
    assert_eq!(config.bindings.len(), 38);
    assert_eq!(
        config.binding_for(ShortcutAction::PlayPause),
        Some(&KeyBinding::new(SerializableKey::Space))
    );
    assert_eq!(
        config.binding_for(ShortcutAction::Redo),
        Some(&KeyBinding::new(SerializableKey::Z).with_ctrl().with_shift())
    );
    assert_eq!(config.binding_for(ShortcutAction::Detect), None);
    assert_eq!(config.binding_for(ShortcutAction::PitchUp), None);
}

#[test]
fn default_config_shared_keys_conflict() {
    let config = ShortcutsConfig::default();
    let q = KeyBinding::new(SerializableKey::Q);
    // Exactly SnapLoopLeft and SnapLoopRight are bound to Q: excluding one of
    // them leaves the other as the only conflict.
    assert_eq!(config.find_conflict(&q, ShortcutAction::SnapLoopRight), Some(ShortcutAction::SnapLoopLeft));
    assert_eq!(config.find_conflict(&q, ShortcutAction::SnapLoopLeft), Some(ShortcutAction::SnapLoopRight));
    // Excluding a third action, either of the two may be reported.
    let either = config.find_conflict(&q, ShortcutAction::PlayPause);
    assert!(
        either == Some(ShortcutAction::SnapLoopLeft) || either == Some(ShortcutAction::SnapLoopRight)
    );
    let f9 = KeyBinding::new(SerializableKey::F9);
    assert_eq!(config.find_conflict(&f9, ShortcutAction::PlayPause), None);
}

#[test]
fn reset_action_without_default_keeps_binding() {
    let mut config = ShortcutsConfig::default();
    let kb = KeyBinding::new(SerializableKey::D).with_alt();
    config.set_binding(ShortcutAction::Detect, kb).unwrap();
    assert!(!config.reset_action(ShortcutAction::Detect));
    assert_eq!(config.binding_for(ShortcutAction::Detect), Some(&kb));
}

#[test]
fn reset_all_restores_defaults() {
    let mut config = ShortcutsConfig::default();
    config.version = 7;
    config.set_binding(ShortcutAction::Stop, KeyBinding::new(SerializableKey::T)).unwrap();
    config.reset_all().unwrap();
    assert_eq!(config.version, CURRENT_VERSION);
    assert_eq!(config.binding_for(ShortcutAction::Stop), Some(&KeyBinding::new(SerializableKey::Escape)));
}

#[test]
fn is_pressed_uses_the_actions_binding() {
    let config = ShortcutsConfig::default();
    let input = InputState {
        ctrl: true,
        shift: false,
        alt: false,
        pressed: vec![SerializableKey::S],
    };
    assert!(config.is_pressed(ShortcutAction::SaveLoop, &input));
    assert!(!config.is_pressed(ShortcutAction::AddSectionMarker, &input));
    assert!(!config.is_pressed(ShortcutAction::Detect, &input));
}

#[test]
fn from_loaded_merges_missing_defaults() {
    let mut bindings = BindingMap::new();
    bindings.insert(ShortcutAction::PlayPause, KeyBinding::new(SerializableKey::P));
    bindings.insert(ShortcutAction::Detect, KeyBinding::new(SerializableKey::F2));
    let loaded = ShortcutsConfig { version: CURRENT_VERSION, bindings };
    let (merged, write_back) = ShortcutsConfig::from_loaded(loaded);
    assert!(!write_back);
    assert_eq!(merged.bindings.len(), 39);
    assert_eq!(merged.binding_for(ShortcutAction::PlayPause), Some(&KeyBinding::new(SerializableKey::P)));
    assert_eq!(merged.binding_for(ShortcutAction::Detect), Some(&KeyBinding::new(SerializableKey::F2)));
    assert_eq!(merged.binding_for(ShortcutAction::Stop), Some(&KeyBinding::new(SerializableKey::Escape)));
}

#[test]
fn from_loaded_replaces_other_versions() {
    let mut bindings = BindingMap::new();
    bindings.insert(ShortcutAction::PlayPause, KeyBinding::new(SerializableKey::P));
    let loaded = ShortcutsConfig { version: 0, bindings };
    let (config, write_back) = ShortcutsConfig::from_loaded(loaded);
    assert!(write_back);
    assert_eq!(config.version, CURRENT_VERSION);
    assert_eq!(config.binding_for(ShortcutAction::PlayPause), Some(&KeyBinding::new(SerializableKey::Space)));
}

#[test]
fn binding_map_insert_replaces_and_reports_previous() {
    let mut map = BindingMap::new();
    assert!(map.is_empty());
    assert_eq!(map.insert(ShortcutAction::Stop, KeyBinding::new(SerializableKey::A)), None);
    assert_eq!(
        map.insert(ShortcutAction::Stop, KeyBinding::new(SerializableKey::B)),
        Some(KeyBinding::new(SerializableKey::A))
    );
    assert_eq!(map.len(), 1);
    assert_eq!(map.get(&ShortcutAction::Stop), Some(&KeyBinding::new(SerializableKey::B)));
    assert_eq!(map.to_vec(), vec![(ShortcutAction::Stop, KeyBinding::new(SerializableKey::B))]);
    let copy = map.clone();
    assert_eq!(copy.to_vec(), map.to_vec());
}

// ── Actions ──

#[test]
fn shortcut_actions_all_listed_once() {
    let all = ShortcutAction::all();
    assert_eq!(all.len(), 48);
    for (i, a) in all.iter().enumerate() {
        assert!(!all[i + 1..].contains(a));
    }
    assert_eq!(all[0], ShortcutAction::PlayPause);
    assert_eq!(all[47], ShortcutAction::PitchUp);
}

#[test]
fn shortcut_action_names_and_categories() {
    assert_eq!(ShortcutAction::PlayPause.display_name(), "Play / Pause");
    assert_eq!(ShortcutAction::ExportLoops.display_name(), "Export loops...");
    assert_eq!(ShortcutAction::SnapLoopLeft.category(), "Loop");
    assert_eq!(ShortcutAction::MarkerNext.category(), "Markers");
    assert_eq!(ShortcutAction::ExportLoops.category(), "File");
    assert_eq!(ShortcutAction::RestartLoop.category(), "Edit");
    assert_eq!(ShortcutAction::PitchDown.category(), "Tools");
    assert_eq!(ShortcutAction::ShowShortcuts.category(), "View");
}

#[test]
fn toolbar_actions_tables() {
    assert_eq!(ToolbarAction::all().len(), 19);
    assert_eq!(
        ToolbarAction::default_toolbar(),
        vec![
            ToolbarAction::Detect,
            ToolbarAction::ExtendBeats,
            ToolbarAction::ClearLoop,
            ToolbarAction::Undo,
            ToolbarAction::Redo,
            ToolbarAction::Setup,
            ToolbarAction::ToggleAudit,
        ]
    );
    assert_eq!(ToolbarAction::Export.shortcut_action(), Some(ShortcutAction::ExportLoops));
    assert_eq!(ToolbarAction::ZoomOut.display_name(), "Zoom −");
    assert_eq!(ToolbarAction::SaveLoop.icon(), "\u{1F4BE}");
    assert_eq!(ToolbarAction::Undo.hover_text(), "Ongedaan maken (Ctrl+Z)");
    let targets: Vec<ShortcutAction> = ToolbarAction::all()
        .iter()
        .map(|t| t.shortcut_action().unwrap())
        .collect();
    for (i, a) in targets.iter().enumerate() {
        assert!(!targets[i + 1..].contains(a));
    }
    let all = ToolbarAction::all();
    for (i, t) in all.iter().enumerate() {
        assert!(!all[i + 1..].contains(t));
    }
    for t in ToolbarAction::default_toolbar() {
        assert!(all.contains(&t));
    }
}

#[test]
fn key_display_names() {
    assert_eq!(SerializableKey::ArrowRight.display_name(), "→");
    assert_eq!(SerializableKey::OpenBracket.display_name(), "[");
    assert_eq!(SerializableKey::Num9.display_name(), "9");
}

#[test]
fn keybinding_display_doc_examples() {
    assert_eq!(KeyBinding::new(SerializableKey::S).with_ctrl().display(), "Ctrl+S");
    assert_eq!(KeyBinding::new(SerializableKey::Space).display(), "Space");
    assert_eq!(KeyBinding::new(SerializableKey::ArrowRight).with_shift().display(), "Shift+→");
}

#[test]
fn reset_action_with_default_reports_reset() {
    let mut config = ShortcutsConfig::default();
    config.set_binding(ShortcutAction::Stop, KeyBinding::new(SerializableKey::T)).unwrap();
    assert!(config.reset_action(ShortcutAction::Stop));
    assert_eq!(config.binding_for(ShortcutAction::Stop), Some(&KeyBinding::new(SerializableKey::Escape)));
    assert!(config.reset_action(ShortcutAction::Stop));
}
