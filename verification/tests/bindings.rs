use base64::Engine;
use lovshot::config::{
    merge_missing_shortcuts, update_shortcut, AppConfig, ShortcutConfig, ShortcutEntry,
};
use lovshot::frame::Frame;
use lovshot::history::{apply_history_limit, classify_extension, sort_history_desc, HistoryItem};
use lovshot::shortcuts::{
    format_shortcut_display, get_action_for_shortcut, is_stop_recording_shortcut, parse_shortcut,
    shortcuts_to_register, stop_shortcuts_of, CaptureMode, KeyCode, ModifierSet, ShortcutError,
    ShortcutKey,
};
use lovshot::thumbs::{filmstrip, frame_thumbnail, preview_data_url_jpeg};

fn binding(mods: &[&str], key: &str) -> ShortcutConfig {
    ShortcutConfig {
        modifiers: mods.iter().map(|m| m.to_string()).collect(),
        key: key.to_string(),
        enabled: true,
    }
}

fn key(alt: bool, control: bool, shift: bool, meta: bool, code: KeyCode) -> ShortcutKey {
    ShortcutKey { modifiers: ModifierSet { alt, control, shift, meta }, code }
}

#[test]
fn binding_renders_as_joined_text() {
    assert_eq!(binding(&["Alt"], "A").to_shortcut_string(), "Alt+A");
    assert_eq!(binding(&["Ctrl", "Shift"], "K").to_shortcut_string(), "Ctrl+Shift+K");
    assert_eq!(binding(&[], "G").to_shortcut_string(), "G");
}

#[test]
fn binding_parses_from_text() {
    let c = ShortcutConfig::from_shortcut_string("Ctrl+Shift+K").unwrap();
    assert_eq!(c.modifiers, vec!["Ctrl".to_string(), "Shift".to_string()]);
    assert_eq!(c.key, "K");
    assert!(c.enabled);
    let c = ShortcutConfig::from_shortcut_string("V").unwrap();
    assert!(c.modifiers.is_empty());
    assert_eq!(c.key, "V");
}

#[test]
fn binding_text_round_trips() {
    for text in ["Alt+A", "Ctrl+Shift+K", "G", "Super+Escape"] {
        let c = ShortcutConfig::from_shortcut_string(text).unwrap();
        assert_eq!(c.to_shortcut_string(), text);
    }
}

#[test]
fn shortcut_parsing_accepts_known_keys() {
    assert_eq!(
        parse_shortcut("Alt+A"),
        Ok(key(true, false, false, false, KeyCode::KeyA))
    );
    assert_eq!(
        parse_shortcut("ctrl+shift+5"),
        Ok(key(false, true, true, false, KeyCode::Digit5))
    );
    assert_eq!(
        parse_shortcut("CMD+escape"),
        Ok(key(false, false, false, true, KeyCode::Escape))
    );
    assert_eq!(
        parse_shortcut("Option+Esc"),
        Ok(key(true, false, false, false, KeyCode::Escape))
    );
    assert_eq!(parse_shortcut("z"), Ok(key(false, false, false, false, KeyCode::KeyZ)));
}

#[test]
fn shortcut_parsing_rejects_unknown_parts() {
    assert_eq!(parse_shortcut("Alt+!"), Err(ShortcutError::UnknownKey));
    assert_eq!(parse_shortcut(""), Err(ShortcutError::UnknownKey));
    assert_eq!(parse_shortcut("Foo+A"), Err(ShortcutError::UnknownModifier));
    assert_eq!(parse_shortcut("Hyper+Escape"), Err(ShortcutError::UnknownModifier));
}

#[test]
fn display_form_uses_key_cap_symbols() {
    assert_eq!(format_shortcut_display("Alt+A"), "\u{2325}A");
    assert_eq!(format_shortcut_display("Ctrl+Shift+K"), "\u{2303}\u{21e7}K");
    assert_eq!(format_shortcut_display("Cmd+G"), "\u{2318}G");
    assert_eq!(format_shortcut_display("Meta+Super+X"), "\u{2318}\u{2318}X");
    assert_eq!(format_shortcut_display("Escape"), "Escape");
}

#[test]
fn default_config_has_the_four_actions() {
    let cfg = AppConfig::default();
    assert_eq!(cfg.version, "1.0.0");
    assert!(!cfg.developer_mode);
    assert_eq!(cfg.shortcuts.len(), 4);
    let actions: Vec<&str> = cfg.shortcuts.iter().map(|e| e.action.as_str()).collect();
    assert_eq!(actions, vec!["screenshot", "gif", "video", "scroll"]);
    for e in &cfg.shortcuts {
        assert_eq!(e.shortcut.modifiers, vec!["Alt".to_string()]);
        assert!(e.shortcut.enabled);
    }
}

#[test]
fn update_replaces_or_appends() {
    let mut cfg = AppConfig::default();
    update_shortcut(&mut cfg, "gif", binding(&["Ctrl"], "9"));
    assert_eq!(cfg.shortcuts.len(), 4);
    assert_eq!(cfg.shortcuts[1].action, "gif");
    assert_eq!(cfg.shortcuts[1].shortcut.to_shortcut_string(), "Ctrl+9");
    update_shortcut(&mut cfg, "stop_recording", binding(&[], "Escape"));
    assert_eq!(cfg.shortcuts.len(), 5);
    assert_eq!(cfg.shortcuts[4].action, "stop_recording");
}

#[test]
fn merge_restores_missing_defaults() {
    let mut cfg = AppConfig::default();
    cfg.shortcuts.remove(1);
    assert_eq!(cfg.shortcuts.len(), 3);
    let added = merge_missing_shortcuts(&mut cfg);
    assert!(added);
    assert_eq!(cfg.shortcuts.len(), 4);
    assert_eq!(cfg.shortcuts[3].action, "gif");
    assert_eq!(cfg.shortcuts[3].shortcut.to_shortcut_string(), "Alt+G");
    // A complete configuration is left alone.
    assert!(!merge_missing_shortcuts(&mut cfg));
    assert_eq!(cfg.shortcuts.len(), 4);
}

#[test]
fn pressed_shortcut_maps_to_its_action() {
    let cfg = AppConfig::default();
    assert_eq!(
        get_action_for_shortcut(&cfg, &key(true, false, false, false, KeyCode::KeyA)),
        Some(CaptureMode::Image)
    );
    assert_eq!(
        get_action_for_shortcut(&cfg, &key(true, false, false, false, KeyCode::KeyG)),
        Some(CaptureMode::Gif)
    );
    assert_eq!(
        get_action_for_shortcut(&cfg, &key(true, false, false, false, KeyCode::KeyS)),
        Some(CaptureMode::Scroll)
    );
    // A different modifier set matches nothing.
    assert_eq!(
        get_action_for_shortcut(&cfg, &key(false, true, false, false, KeyCode::KeyA)),
        None
    );
}

#[test]
fn disabled_and_stop_bindings_never_trigger_actions() {
    let mut cfg = AppConfig::default();
    cfg.shortcuts[0].shortcut.enabled = false;
    assert_eq!(
        get_action_for_shortcut(&cfg, &key(true, false, false, false, KeyCode::KeyA)),
        None
    );
    cfg.shortcuts.push(ShortcutEntry {
        action: "stop_recording".to_string(),
        shortcut: binding(&[], "Escape"),
    });
    assert_eq!(
        get_action_for_shortcut(&cfg, &key(false, false, false, false, KeyCode::Escape)),
        None
    );
    assert!(is_stop_recording_shortcut(
        &cfg,
        &key(false, false, false, false, KeyCode::Escape)
    ));
    assert!(!is_stop_recording_shortcut(
        &cfg,
        &key(true, false, false, false, KeyCode::Escape)
    ));
}

#[test]
fn registration_list_skips_stop_and_disabled() {
    let mut cfg = AppConfig::default();
    cfg.shortcuts[2].shortcut.enabled = false;
    cfg.shortcuts.push(ShortcutEntry {
        action: "stop_recording".to_string(),
        shortcut: binding(&[], "Escape"),
    });
    let regs = shortcuts_to_register(&cfg);
    let names: Vec<&str> = regs.iter().map(|(a, _)| a.as_str()).collect();
    assert_eq!(names, vec!["screenshot", "gif", "scroll"]);
    assert_eq!(regs[0].1, key(true, false, false, false, KeyCode::KeyA));

    let stops = stop_shortcuts_of(&cfg);
    assert_eq!(stops, vec![key(false, false, false, false, KeyCode::Escape)]);
    // Without a stop entry there is nothing to register.
    assert!(stop_shortcuts_of(&AppConfig::default()).is_empty());
}

fn item(name: &str, modified: u64) -> HistoryItem {
    HistoryItem {
        path: format!("/captures/{name}"),
        filename: name.to_string(),
        file_type: "screenshot".to_string(),
        modified,
        thumbnail: String::new(),
    }
}

#[test]
fn extensions_classify_case_insensitively() {
    assert_eq!(classify_extension("png").as_deref(), Some("screenshot"));
    assert_eq!(classify_extension("PNG").as_deref(), Some("screenshot"));
    assert_eq!(classify_extension("JpEg").as_deref(), Some("screenshot"));
    assert_eq!(classify_extension("gif").as_deref(), Some("gif"));
    assert_eq!(classify_extension("GIF").as_deref(), Some("gif"));
    assert_eq!(classify_extension("webp"), None);
    assert_eq!(classify_extension(""), None);
}

#[test]
fn history_sorts_newest_first_and_truncates() {
    let mut items = vec![item("a.png", 5), item("b.png", 9), item("c.png", 1), item("d.png", 9)];
    sort_history_desc(&mut items);
    let times: Vec<u64> = items.iter().map(|i| i.modified).collect();
    assert_eq!(times, vec![9, 9, 5, 1]);
    apply_history_limit(&mut items, Some(2));
    assert_eq!(items.len(), 2);
    apply_history_limit(&mut items, None);
    assert_eq!(items.len(), 2);
}

fn gradient_frame(width: u32, height: u32) -> Frame {
    let mut data = Vec::new();
    for y in 0..height {
        for x in 0..width {
            data.extend_from_slice(&[(x * 16) as u8, (y * 16) as u8, 100, 255]);
        }
    }
    Frame { width, height, data }
}

fn decode_data_url(url: &str, prefix: &str) -> Vec<u8> {
    assert!(url.starts_with(prefix), "unexpected data URL: {}", &url[..prefix.len().min(url.len())]);
    base64::engine::general_purpose::STANDARD.decode(&url[prefix.len()..]).unwrap()
}

#[test]
fn frame_thumbnail_is_real_png() {
    let frames = vec![gradient_frame(12, 8), gradient_frame(12, 8)];
    let url = frame_thumbnail(&frames, 1, 4).unwrap();
    let png = decode_data_url(&url, "data:image/png;base64,");
    let img = image::load_from_memory(&png).unwrap();
    // Scaled to height 4: width becomes 12 * 4 / 8 = 6.
    assert_eq!(img.width(), 6);
    assert_eq!(img.height(), 4);
    assert!(frame_thumbnail(&frames, 2, 4).is_err());
}

#[test]
fn preview_is_real_jpeg_and_keeps_small_frames() {
    let f = gradient_frame(10, 20);
    let url = preview_data_url_jpeg(&f, 5).unwrap();
    let jpeg = decode_data_url(&url, "data:image/jpeg;base64,");
    let img = image::load_from_memory(&jpeg).unwrap();
    assert_eq!(img.width(), 2);
    assert_eq!(img.height(), 5);
    // A frame already within the limit is encoded at full size.
    let url = preview_data_url_jpeg(&f, 32).unwrap();
    let jpeg = decode_data_url(&url, "data:image/jpeg;base64,");
    let img = image::load_from_memory(&jpeg).unwrap();
    assert_eq!(img.width(), 10);
    assert_eq!(img.height(), 20);
}

#[test]
fn filmstrip_samples_across_the_buffer() {
    let frames: Vec<Frame> = (0..9).map(|_| gradient_frame(8, 8)).collect();
    let strip = filmstrip(&frames, 3, 4).unwrap();
    assert_eq!(strip.len(), 3);
    for url in &strip {
        let jpeg = decode_data_url(url, "data:image/jpeg;base64,");
        let img = image::load_from_memory(&jpeg).unwrap();
        assert_eq!(img.height(), 4);
    }
    // More cells than frames collapses to one per frame.
    let strip = filmstrip(&frames, 100, 4).unwrap();
    assert_eq!(strip.len(), 9);
    assert!(filmstrip(&Vec::new(), 3, 4).is_err());
}
