//! Global-shortcut handling: parsing textual bindings into key/modifier
//! values, mapping pressed shortcuts back to capture actions, and the
//! display form of a binding.

use vstd::prelude::*;
use vstd::string::*;
use crate::config::{AppConfig, ShortcutEntry, spec_shortcut_string};
use crate::strtools::{lower_seq, eq_lower, spec_split, split_str, spec_replace, replace_all, str_eq};

verus! {

/// The keys a binding may name.
#[derive(Clone, Copy, PartialEq, Eq, Structural, Debug)]
pub enum KeyCode {
    KeyA,
    KeyB,
    KeyC,
    KeyD,
    KeyE,
    KeyF,
    KeyG,
    KeyH,
    KeyI,
    KeyJ,
    KeyK,
    KeyL,
    KeyM,
    KeyN,
    KeyO,
    KeyP,
    KeyQ,
    KeyR,
    KeyS,
    KeyT,
    KeyU,
    KeyV,
    KeyW,
    KeyX,
    KeyY,
    KeyZ,
    Digit0,
    Digit1,
    Digit2,
    Digit3,
    Digit4,
    Digit5,
    Digit6,
    Digit7,
    Digit8,
    Digit9,
    Escape,
}

/// Which modifier keys a binding holds down.
#[derive(Clone, Copy, PartialEq, Eq, Structural, Debug)]
pub struct ModifierSet {
    pub alt: bool,
    pub control: bool,
    pub shift: bool,
    pub meta: bool,
}

/// A fully parsed binding.
#[derive(Clone, Copy, PartialEq, Eq, Structural, Debug)]
pub struct ShortcutKey {
    pub modifiers: ModifierSet,
    pub code: KeyCode,
}

/// Why a binding's text failed to parse.
#[derive(Clone, Copy, PartialEq, Eq, Structural, Debug)]
pub enum ShortcutError {
    UnknownKey,
    UnknownModifier,
}

/// The capture actions a shortcut can trigger.
#[derive(Clone, Copy, PartialEq, Eq, Structural, Debug)]
pub enum CaptureMode {
    Image,
    Gif,
    Video,
    Scroll,
}

/// No modifier held.
pub open spec fn no_mods() -> ModifierSet {
    ModifierSet { alt: false, control: false, shift: false, meta: false }
}

/// The key named by the last part of a binding, case-insensitively.
pub open spec fn key_code_of(k: Seq<char>) -> Option<KeyCode> {
    let l = lower_seq(k);
    if l == "a"@ {
        Some(KeyCode::KeyA)
    } else if l == "b"@ {
        Some(KeyCode::KeyB)
    } else if l == "c"@ {
        Some(KeyCode::KeyC)
    } else if l == "d"@ {
        Some(KeyCode::KeyD)
    } else if l == "e"@ {
        Some(KeyCode::KeyE)
    } else if l == "f"@ {
        Some(KeyCode::KeyF)
    } else if l == "g"@ {
        Some(KeyCode::KeyG)
    } else if l == "h"@ {
        Some(KeyCode::KeyH)
    } else if l == "i"@ {
        Some(KeyCode::KeyI)
    } else if l == "j"@ {
        Some(KeyCode::KeyJ)
    } else if l == "k"@ {
        Some(KeyCode::KeyK)
    } else if l == "l"@ {
        Some(KeyCode::KeyL)
    } else if l == "m"@ {
        Some(KeyCode::KeyM)
    } else if l == "n"@ {
        Some(KeyCode::KeyN)
    } else if l == "o"@ {
        Some(KeyCode::KeyO)
    } else if l == "p"@ {
        Some(KeyCode::KeyP)
    } else if l == "q"@ {
        Some(KeyCode::KeyQ)
    } else if l == "r"@ {
        Some(KeyCode::KeyR)
    } else if l == "s"@ {
        Some(KeyCode::KeyS)
    } else if l == "t"@ {
        Some(KeyCode::KeyT)
    } else if l == "u"@ {
        Some(KeyCode::KeyU)
    } else if l == "v"@ {
        Some(KeyCode::KeyV)
    } else if l == "w"@ {
        Some(KeyCode::KeyW)
    } else if l == "x"@ {
        Some(KeyCode::KeyX)
    } else if l == "y"@ {
        Some(KeyCode::KeyY)
    } else if l == "z"@ {
        Some(KeyCode::KeyZ)
    } else if l == "0"@ {
        Some(KeyCode::Digit0)
    } else if l == "1"@ {
        Some(KeyCode::Digit1)
    } else if l == "2"@ {
        Some(KeyCode::Digit2)
    } else if l == "3"@ {
        Some(KeyCode::Digit3)
    } else if l == "4"@ {
        Some(KeyCode::Digit4)
    } else if l == "5"@ {
        Some(KeyCode::Digit5)
    } else if l == "6"@ {
        Some(KeyCode::Digit6)
    } else if l == "7"@ {
        Some(KeyCode::Digit7)
    } else if l == "8"@ {
        Some(KeyCode::Digit8)
    } else if l == "9"@ {
        Some(KeyCode::Digit9)
    } else if l == "escape"@ || l == "esc"@ {
        Some(KeyCode::Escape)
    } else {
        None
    }
}

/// A modifier part added to the set, case-insensitively; `None` for an
/// unrecognised name.
pub open spec fn mod_apply(ms: ModifierSet, m: Seq<char>) -> Option<ModifierSet> {
    let l = lower_seq(m);
    if l == "alt"@ || l == "option"@ || l == "opt"@ {
        Some(ModifierSet { alt: true, ..ms })
    } else if l == "ctrl"@ || l == "control"@ {
        Some(ModifierSet { control: true, ..ms })
    } else if l == "shift"@ {
        Some(ModifierSet { shift: true, ..ms })
    } else if l == "super"@ || l == "meta"@ || l == "cmd"@ || l == "command"@ {
        Some(ModifierSet { meta: true, ..ms })
    } else {
        None
    }
}

/// All modifier parts folded in order; `None` as soon as one is unknown.
pub open spec fn fold_mods(parts: Seq<Seq<char>>, ms: ModifierSet) -> Option<ModifierSet>
    decreases parts.len(),
{
    if parts.len() == 0 {
        Some(ms)
    } else {
        match mod_apply(ms, parts[0]) {
            None => None,
            Some(m2) => fold_mods(parts.skip(1), m2),
        }
    }
}

/// What parsing a binding's text yields: the last `'+'`-separated part
/// names the key, the parts before it the modifiers.
pub open spec fn spec_parse_shortcut(s: Seq<char>) -> Result<ShortcutKey, ShortcutError> {
    let parts = spec_split(s, '+');
    match key_code_of(parts.last()) {
        None => Err(ShortcutError::UnknownKey),
        Some(code) => match fold_mods(parts.take(parts.len() - 1), no_mods()) {
            None => Err(ShortcutError::UnknownModifier),
            Some(ms) => Ok(ShortcutKey { modifiers: ms, code }),
        },
    }
}

/// Exec key matching.
fn key_code_exec(k: &str) -> (r: Option<KeyCode>)
    ensures
        r == key_code_of(k@),
{
    if eq_lower(k, "a") {
        Some(KeyCode::KeyA)
    } else if eq_lower(k, "b") {
        Some(KeyCode::KeyB)
    } else if eq_lower(k, "c") {
        Some(KeyCode::KeyC)
    } else if eq_lower(k, "d") {
        Some(KeyCode::KeyD)
    } else if eq_lower(k, "e") {
        Some(KeyCode::KeyE)
    } else if eq_lower(k, "f") {
        Some(KeyCode::KeyF)
    } else if eq_lower(k, "g") {
        Some(KeyCode::KeyG)
    } else if eq_lower(k, "h") {
        Some(KeyCode::KeyH)
    } else if eq_lower(k, "i") {
        Some(KeyCode::KeyI)
    } else if eq_lower(k, "j") {
        Some(KeyCode::KeyJ)
    } else if eq_lower(k, "k") {
        Some(KeyCode::KeyK)
    } else if eq_lower(k, "l") {
        Some(KeyCode::KeyL)
    } else if eq_lower(k, "m") {
        Some(KeyCode::KeyM)
    } else if eq_lower(k, "n") {
        Some(KeyCode::KeyN)
    } else if eq_lower(k, "o") {
        Some(KeyCode::KeyO)
    } else if eq_lower(k, "p") {
        Some(KeyCode::KeyP)
    } else if eq_lower(k, "q") {
        Some(KeyCode::KeyQ)
    } else if eq_lower(k, "r") {
        Some(KeyCode::KeyR)
    } else if eq_lower(k, "s") {
        Some(KeyCode::KeyS)
    } else if eq_lower(k, "t") {
        Some(KeyCode::KeyT)
    } else if eq_lower(k, "u") {
        Some(KeyCode::KeyU)
    } else if eq_lower(k, "v") {
        Some(KeyCode::KeyV)
    } else if eq_lower(k, "w") {
        Some(KeyCode::KeyW)
    } else if eq_lower(k, "x") {
        Some(KeyCode::KeyX)
    } else if eq_lower(k, "y") {
        Some(KeyCode::KeyY)
    } else if eq_lower(k, "z") {
        Some(KeyCode::KeyZ)
    } else if eq_lower(k, "0") {
        Some(KeyCode::Digit0)
    } else if eq_lower(k, "1") {
        Some(KeyCode::Digit1)
    } else if eq_lower(k, "2") {
        Some(KeyCode::Digit2)
    } else if eq_lower(k, "3") {
        Some(KeyCode::Digit3)
    } else if eq_lower(k, "4") {
        Some(KeyCode::Digit4)
    } else if eq_lower(k, "5") {
        Some(KeyCode::Digit5)
    } else if eq_lower(k, "6") {
        Some(KeyCode::Digit6)
    } else if eq_lower(k, "7") {
        Some(KeyCode::Digit7)
    } else if eq_lower(k, "8") {
        Some(KeyCode::Digit8)
    } else if eq_lower(k, "9") {
        Some(KeyCode::Digit9)
    } else if eq_lower(k, "escape") || eq_lower(k, "esc") {
        Some(KeyCode::Escape)
    } else {
        None
    }
}

/// Exec modifier matching.
fn mod_apply_exec(ms: ModifierSet, m: &str) -> (r: Option<ModifierSet>)
    ensures
        r == mod_apply(ms, m@),
{
    if eq_lower(m, "alt") || eq_lower(m, "option") || eq_lower(m, "opt") {
        Some(ModifierSet { alt: true, ..ms })
    } else if eq_lower(m, "ctrl") || eq_lower(m, "control") {
        Some(ModifierSet { control: true, ..ms })
    } else if eq_lower(m, "shift") {
        Some(ModifierSet { shift: true, ..ms })
    } else if eq_lower(m, "super") || eq_lower(m, "meta") || eq_lower(m, "cmd") || eq_lower(
        m,
        "command",
    ) {
        Some(ModifierSet { meta: true, ..ms })
    } else {
        None
    }
}

/// Parses `"Alt+A"`-style text into a key with modifiers: unknown keys and
/// unknown modifiers are each rejected with their own error.
#[verifier::loop_isolation(false)]
pub fn parse_shortcut(s: &str) -> (r: Result<ShortcutKey, ShortcutError>)
    ensures
        r == spec_parse_shortcut(s@),
{
    let parts = split_str(s, '+');
    let ghost views = parts@.map_values(|p: String| p@);
    let n = parts.len();
    let code = match key_code_exec(parts[n - 1].as_str()) {
        None => {
            return Err(ShortcutError::UnknownKey);
        },
        Some(c) => c,
    };
    let mut ms = ModifierSet { alt: false, control: false, shift: false, meta: false };
    let ghost mods = views.take(n - 1);
    let mut i: usize = 0;
    proof {
        assert(mods.skip(0) =~~= mods);
    }
    while i < n - 1
        invariant
            n == parts@.len(),
            n >= 1,
            views == parts@.map_values(|p: String| p@),
            mods == views.take(n - 1),
            i <= n - 1,
            fold_mods(mods, no_mods()) == fold_mods(mods.skip(i as int), ms),
        decreases n - 1 - i,
    {
        proof {
            assert(views[i as int] == parts@[i as int]@);
            assert(mods.skip(i as int)[0] == views[i as int]);
            assert(mods.skip(i as int).skip(1) =~~= mods.skip(i + 1));
        }
        ms = match mod_apply_exec(ms, parts[i].as_str()) {
            None => {
                return Err(ShortcutError::UnknownModifier);
            },
            Some(m2) => m2,
        };
        i = i + 1;
    }
    proof {
        assert(mods.skip(n - 1) =~~= Seq::<Seq<char>>::empty());
    }
    Ok(ShortcutKey { modifiers: ms, code })
}

/// The display glyph form of a binding: each modifier's name becomes its
/// key-cap symbol.
pub open spec fn spec_format_display(s: Seq<char>) -> Seq<char> {
    let s1 = spec_replace(s, "Alt+"@, "\u{2325}"@);
    let s2 = spec_replace(s1, "Ctrl+"@, "\u{2303}"@);
    let s3 = spec_replace(s2, "Shift+"@, "\u{21e7}"@);
    let s4 = spec_replace(s3, "Cmd+"@, "\u{2318}"@);
    let s5 = spec_replace(s4, "Command+"@, "\u{2318}"@);
    let s6 = spec_replace(s5, "Super+"@, "\u{2318}"@);
    spec_replace(s6, "Meta+"@, "\u{2318}"@)
}

/// Renders a binding for display, replacing modifier names by symbols.
pub fn format_shortcut_display(s: &str) -> (r: String)
    ensures
        r@ == spec_format_display(s@),
{
    proof {
        reveal_strlit("Alt+");
        reveal_strlit("Ctrl+");
        reveal_strlit("Shift+");
        reveal_strlit("Cmd+");
        reveal_strlit("Command+");
        reveal_strlit("Super+");
        reveal_strlit("Meta+");
    }
    let s1 = replace_all(s, "Alt+", "\u{2325}");
    let s2 = replace_all(s1.as_str(), "Ctrl+", "\u{2303}");
    let s3 = replace_all(s2.as_str(), "Shift+", "\u{21e7}");
    let s4 = replace_all(s3.as_str(), "Cmd+", "\u{2318}");
    let s5 = replace_all(s4.as_str(), "Command+", "\u{2318}");
    let s6 = replace_all(s5.as_str(), "Super+", "\u{2318}");
    replace_all(s6.as_str(), "Meta+", "\u{2318}")
}

/// The capture mode an action name triggers.
pub open spec fn action_mode(a: Seq<char>) -> Option<CaptureMode> {
    if a == "screenshot"@ {
        Some(CaptureMode::Image)
    } else if a == "gif"@ {
        Some(CaptureMode::Gif)
    } else if a == "video"@ {
        Some(CaptureMode::Video)
    } else if a == "scroll"@ {
        Some(CaptureMode::Scroll)
    } else {
        None
    }
}

/// The binding text of an entry.
pub open spec fn entry_text(e: ShortcutEntry) -> Seq<char> {
    spec_shortcut_string(e.shortcut.mods_view(), e.shortcut.key@)
}

/// The mode of the first enabled entry (other than the stop binding) whose
/// parsed binding equals the pressed key; the search ends at that entry
/// even when its action names no mode.
pub open spec fn spec_action_for(entries: Seq<ShortcutEntry>, k: ShortcutKey) -> Option<
    CaptureMode,
>
    decreases entries.len(),
{
    if entries.len() == 0 {
        None
    } else {
        let e = entries[0];
        if e.action@ != "stop_recording"@ && e.shortcut.enabled && spec_parse_shortcut(
            entry_text(e),
        ) == Ok::<ShortcutKey, ShortcutError>(k) {
            action_mode(e.action@)
        } else {
            spec_action_for(entries.skip(1), k)
        }
    }
}

/// Exec mapping of an action name to its mode.
fn action_mode_exec(a: &str) -> (r: Option<CaptureMode>)
    ensures
        r == action_mode(a@),
{
    if str_eq(a, "screenshot") {
        Some(CaptureMode::Image)
    } else if str_eq(a, "gif") {
        Some(CaptureMode::Gif)
    } else if str_eq(a, "video") {
        Some(CaptureMode::Video)
    } else if str_eq(a, "scroll") {
        Some(CaptureMode::Scroll)
    } else {
        None
    }
}

/// Does this entry's binding, parsed, equal the pressed key (the stop
/// binding and disabled entries never match)?
fn entry_matches(e: &ShortcutEntry, key: &ShortcutKey) -> (r: bool)
    ensures
        r == (e.action@ != "stop_recording"@ && e.shortcut.enabled && spec_parse_shortcut(
            entry_text(*e),
        ) == Ok::<ShortcutKey, ShortcutError>(*key)),
{
    if str_eq(e.action.as_str(), "stop_recording") {
        return false;
    }
    if !e.shortcut.enabled {
        return false;
    }
    let text = e.shortcut.to_shortcut_string();
    match parse_shortcut(text.as_str()) {
        Ok(k2) => k2 == *key,
        Err(_) => false,
    }
}

/// Looks up which capture action a pressed shortcut triggers.
#[verifier::loop_isolation(false)]
pub fn get_action_for_shortcut(config: &AppConfig, key: &ShortcutKey) -> (r: Option<CaptureMode>)
    ensures
        r == spec_action_for(config.shortcuts@, *key),
{
    let ghost entries = config.shortcuts@;
    let mut i: usize = 0;
    proof {
        assert(entries.skip(0) =~~= entries);
    }
    while i < config.shortcuts.len()
        invariant
            i <= entries.len(),
            spec_action_for(entries, *key) == spec_action_for(entries.skip(i as int), *key),
        decreases entries.len() - i,
    {
        proof {
            assert(entries.skip(i as int)[0] == entries[i as int]);
            assert(entries.skip(i as int).skip(1) =~~= entries.skip(i + 1));
        }
        let e = &config.shortcuts[i];
        if entry_matches(e, key) {
            return action_mode_exec(e.action.as_str());
        }
        i = i + 1;
    }
    proof {
        assert(entries.skip(entries.len() as int) =~~= Seq::<ShortcutEntry>::empty());
    }
    None
}

/// Whether the pressed key is the enabled, well-formed stop-recording
/// binding: the first entry named `stop_recording` decides.
pub open spec fn spec_is_stop_shortcut(entries: Seq<ShortcutEntry>, k: ShortcutKey) -> bool {
    match crate::config::lookup_shortcut(entries, "stop_recording"@) {
        None => false,
        Some(c) => c.enabled && spec_parse_shortcut(spec_shortcut_string(c.mods_view(), c.key@))
            == Ok::<ShortcutKey, ShortcutError>(k),
    }
}

/// Tests a pressed shortcut against the stop-recording binding.
#[verifier::loop_isolation(false)]
pub fn is_stop_recording_shortcut(config: &AppConfig, key: &ShortcutKey) -> (r: bool)
    ensures
        r == spec_is_stop_shortcut(config.shortcuts@, *key),
{
    let ghost entries = config.shortcuts@;
    let mut i: usize = 0;
    proof {
        assert(entries.skip(0) =~~= entries);
    }
    while i < config.shortcuts.len()
        invariant
            i <= entries.len(),
            crate::config::lookup_shortcut(entries, "stop_recording"@)
                == crate::config::lookup_shortcut(entries.skip(i as int), "stop_recording"@),
        decreases entries.len() - i,
    {
        proof {
            assert(entries.skip(i as int)[0] == entries[i as int]);
            assert(entries.skip(i as int).skip(1) =~~= entries.skip(i + 1));
        }
        let e = &config.shortcuts[i];
        if str_eq(e.action.as_str(), "stop_recording") {
            if !e.shortcut.enabled {
                return false;
            }
            let text = e.shortcut.to_shortcut_string();
            return match parse_shortcut(text.as_str()) {
                Ok(k2) => k2 == *key,
                Err(_) => false,
            };
        }
        i = i + 1;
    }
    proof {
        assert(entries.skip(entries.len() as int) =~~= Seq::<ShortcutEntry>::empty());
    }
    false
}

/// The bindings the shell registers at startup: every enabled entry except
/// the stop binding, with its parsed key — entries whose text does not
/// parse are skipped.
pub open spec fn spec_registrations(entries: Seq<ShortcutEntry>) -> Seq<(Seq<char>, ShortcutKey)>
    decreases entries.len(),
{
    if entries.len() == 0 {
        Seq::empty()
    } else {
        let e = entries[0];
        let rest = spec_registrations(entries.skip(1));
        if e.action@ != "stop_recording"@ && e.shortcut.enabled && spec_parse_shortcut(
            entry_text(e),
        ) is Ok {
            seq![(e.action@, spec_parse_shortcut(entry_text(e))->Ok_0)] + rest
        } else {
            rest
        }
    }
}

/// Collects the bindings to register as global shortcuts, in configuration
/// order.
#[verifier::loop_isolation(false)]
pub fn shortcuts_to_register(config: &AppConfig) -> (r: Vec<(String, ShortcutKey)>)
    ensures
        r@.map_values(|p: (String, ShortcutKey)| (p.0@, p.1)) == spec_registrations(
            config.shortcuts@,
        ),
{
    let ghost entries = config.shortcuts@;
    let mut out: Vec<(String, ShortcutKey)> = Vec::new();
    let mut i: usize = 0;
    proof {
        assert(entries.skip(0) =~~= entries);
    }
    while i < config.shortcuts.len()
        invariant
            i <= entries.len(),
            out@.map_values(|p: (String, ShortcutKey)| (p.0@, p.1)) + spec_registrations(
                entries.skip(i as int),
            ) == spec_registrations(entries),
        decreases entries.len() - i,
    {
        proof {
            assert(entries.skip(i as int)[0] == entries[i as int]);
            assert(entries.skip(i as int).skip(1) =~~= entries.skip(i + 1));
        }
        let e = &config.shortcuts[i];
        let ghost out_before = out@.map_values(|p: (String, ShortcutKey)| (p.0@, p.1));
        if !str_eq(e.action.as_str(), "stop_recording") && e.shortcut.enabled {
            let text = e.shortcut.to_shortcut_string();
            match parse_shortcut(text.as_str()) {
                Ok(k) => {
                    out.push((e.action.clone(), k));
                    proof {
                        assert(out@.map_values(|p: (String, ShortcutKey)| (p.0@, p.1))
                            =~~= out_before + seq![(entries[i as int].action@, k)]);
                        assert(spec_registrations(entries.skip(i as int)) == seq![
                            (entries[i as int].action@, k),
                        ] + spec_registrations(entries.skip(i + 1)));
                    }
                },
                Err(_) => (),
            }
        }
        i = i + 1;
    }
    proof {
        assert(entries.skip(entries.len() as int) =~~= Seq::<ShortcutEntry>::empty());
        assert(spec_registrations(Seq::<ShortcutEntry>::empty()) =~~= Seq::<(
            Seq<char>,
            ShortcutKey,
        )>::empty());
    }
    out
}

/// The parsed stop-recording binding, when one is configured, enabled and
/// well-formed: what the shell registers while a recording runs.
pub open spec fn spec_stop_registrations(entries: Seq<ShortcutEntry>) -> Seq<ShortcutKey> {
    match crate::config::lookup_shortcut(entries, "stop_recording"@) {
        None => Seq::empty(),
        Some(c) => {
            if c.enabled && spec_parse_shortcut(spec_shortcut_string(c.mods_view(), c.key@)) is Ok {
                seq![spec_parse_shortcut(spec_shortcut_string(c.mods_view(), c.key@))->Ok_0]
            } else {
                Seq::empty()
            }
        },
    }
}

/// Collects the stop-recording bindings to register while recording.
#[verifier::loop_isolation(false)]
pub fn stop_shortcuts_of(config: &AppConfig) -> (r: Vec<ShortcutKey>)
    ensures
        r@ == spec_stop_registrations(config.shortcuts@),
{
    let ghost entries = config.shortcuts@;
    let mut i: usize = 0;
    proof {
        assert(entries.skip(0) =~~= entries);
    }
    while i < config.shortcuts.len()
        invariant
            i <= entries.len(),
            crate::config::lookup_shortcut(entries, "stop_recording"@)
                == crate::config::lookup_shortcut(entries.skip(i as int), "stop_recording"@),
        decreases entries.len() - i,
    {
        proof {
            assert(entries.skip(i as int)[0] == entries[i as int]);
            assert(entries.skip(i as int).skip(1) =~~= entries.skip(i + 1));
        }
        let e = &config.shortcuts[i];
        if str_eq(e.action.as_str(), "stop_recording") {
            let mut out: Vec<ShortcutKey> = Vec::new();
            if !e.shortcut.enabled {
                return out;
            }
            let text = e.shortcut.to_shortcut_string();
            match parse_shortcut(text.as_str()) {
                Ok(k) => {
                    out.push(k);
                    proof {
                        assert(out@ =~= spec_stop_registrations(entries));
                    }
                },
                Err(_) => (),
            }
            return out;
        }
        i = i + 1;
    }
    proof {
        assert(entries.skip(entries.len() as int) =~~= Seq::<ShortcutEntry>::empty());
    }
    Vec::new()
}

} // verus!
