//! Shortcut configuration: the per-action key bindings, their textual
//! `"Alt+A"` form, and the pure parts of loading and updating the
//! configuration (the file itself is read and written by the caller).

use vstd::prelude::*;
use vstd::string::*;
use crate::strtools::{spec_join, spec_split, join_with, push_char, split_str, str_eq};

verus! {

/// The key binding of one action.
#[derive(Clone, Debug)]
pub struct ShortcutConfig {
    pub modifiers: Vec<String>,
    pub key: String,
    pub enabled: bool,
}

/// The textual form of a binding: the modifiers and the key, joined with
/// `'+'`.
pub open spec fn spec_shortcut_string(mods: Seq<Seq<char>>, key: Seq<char>) -> Seq<char> {
    if mods.len() == 0 {
        key
    } else {
        spec_join(mods, '+') + seq!['+'] + key
    }
}

impl ShortcutConfig {
    /// The views of the modifier names.
    pub open spec fn mods_view(&self) -> Seq<Seq<char>> {
        self.modifiers@.map_values(|m: String| m@)
    }

    /// Renders the binding as `"Alt+A"`-style text.
    pub fn to_shortcut_string(&self) -> (r: String)
        ensures
            r@ == spec_shortcut_string(self.mods_view(), self.key@),
    {
        if self.modifiers.len() == 0 {
            let r = self.key.clone();
            proof {
                assert(r@ == self.key@);
            }
            r
        } else {
            let mut r = join_with(&self.modifiers, '+');
            push_char(&mut r, '+');
            r.append(self.key.as_str());
            r
        }
    }

    /// Parses `"Ctrl+Shift+K"`-style text: the last `'+'`-separated part is
    /// the key, everything before it a modifier. Any text yields a binding
    /// (an empty string gives an empty key), which is enabled.
    pub fn from_shortcut_string(s: &str) -> (r: Option<ShortcutConfig>)
        ensures
            r matches Some(c) ==> {
                let parts = spec_split(s@, '+');
                &&& c.enabled
                &&& c.key@ == parts.last()
                &&& c.mods_view() == parts.take(parts.len() - 1)
            },
            r is Some,
    {
        let mut parts = split_str(s, '+');
        let ghost all = parts@.map_values(|p: String| p@);
        let key = match parts.pop() {
            Some(k) => k,
            None => {
                proof {
                    assert(false);
                }
                unreached()
            },
        };
        let c = ShortcutConfig { modifiers: parts, key, enabled: true };
        proof {
            assert(c.mods_view() =~~= all.take(all.len() - 1));
        }
        Some(c)
    }
}

/// One action's entry in the configuration.
#[derive(Clone, Debug)]
pub struct ShortcutEntry {
    pub action: String,
    pub shortcut: ShortcutConfig,
}

/// The application configuration: a binding per action, each action named
/// once.
#[derive(Clone, Debug)]
pub struct AppConfig {
    pub version: String,
    pub shortcuts: Vec<ShortcutEntry>,
    pub developer_mode: bool,
}

/// The binding of the first entry named `name`.
pub open spec fn lookup_shortcut(entries: Seq<ShortcutEntry>, name: Seq<char>) -> Option<
    ShortcutConfig,
>
    decreases entries.len(),
{
    if entries.len() == 0 {
        None
    } else if entries[0].action@ == name {
        Some(entries[0].shortcut)
    } else {
        lookup_shortcut(entries.skip(1), name)
    }
}

/// The index of the first entry named `name`, or `-1`.
pub open spec fn find_action(entries: Seq<ShortcutEntry>, name: Seq<char>) -> int
    decreases entries.len(),
{
    if entries.len() == 0 {
        -1
    } else if entries[0].action@ == name {
        0
    } else {
        let r = find_action(entries.skip(1), name);
        if r == -1 {
            -1
        } else {
            r + 1
        }
    }
}

/// `find_action` names an entry exactly when one matches.
pub proof fn lemma_find_action(entries: Seq<ShortcutEntry>, name: Seq<char>)
    ensures
        find_action(entries, name) == -1 <==> (forall|k: int|
            0 <= k < entries.len() ==> (#[trigger] entries[k]).action@ != name),
        find_action(entries, name) != -1 ==> {
            let f = find_action(entries, name);
            &&& 0 <= f < entries.len()
            &&& entries[f].action@ == name
            &&& forall|k: int| 0 <= k < f ==> (#[trigger] entries[k]).action@ != name
        },
    decreases entries.len(),
{
    if entries.len() > 0 {
        lemma_find_action(entries.skip(1), name);
        assert(forall|k: int|
            1 <= k < entries.len() ==> (#[trigger] entries[k]) == entries.skip(1)[k - 1]);
    }
}

/// Skipping unmatched entries shifts the found index.
proof fn lemma_find_action_skip(entries: Seq<ShortcutEntry>, name: Seq<char>, i: int)
    requires
        0 <= i <= entries.len(),
        forall|k: int| 0 <= k < i ==> (#[trigger] entries[k]).action@ != name,
    ensures
        find_action(entries, name) == if find_action(entries.skip(i), name) == -1 {
            -1int
        } else {
            i + find_action(entries.skip(i), name)
        },
    decreases i,
{
    if i > 0 {
        assert(entries[0].action@ != name);
        assert(entries.skip(1).skip(i - 1) =~~= entries.skip(i));
        assert(forall|k: int|
            0 <= k < i - 1 ==> (#[trigger] entries.skip(1)[k]) == entries[k + 1]);
        lemma_find_action_skip(entries.skip(1), name, i - 1);
        lemma_find_action(entries.skip(i), name);
        let f1 = find_action(entries.skip(1), name);
        let fi = find_action(entries.skip(i), name);
        assert(f1 == if fi == -1 {
            -1int
        } else {
            (i - 1) + fi
        });
        assert(find_action(entries, name) == if f1 == -1 {
            -1int
        } else {
            f1 + 1
        });
    } else {
        assert(entries.skip(0) =~~= entries);
    }
}

impl AppConfig {
    /// Invariant: no action is named twice.
    pub open spec fn wf(&self) -> bool {
        forall|i: int, j: int|
            0 <= i < j < self.shortcuts@.len() ==> (#[trigger] self.shortcuts@[i]).action@ != (
            #[trigger] self.shortcuts@[j]).action@
    }

    /// Turns developer features on or off.
    pub fn set_developer_mode(&mut self, enabled: bool)
        ensures
            final(self).developer_mode == enabled,
            final(self).shortcuts@ == old(self).shortcuts@,
            final(self).version@ == old(self).version@,
            old(self).wf() ==> final(self).wf(),
    {
        self.developer_mode = enabled;
    }
}

/// Replaces the binding of `action`, or appends a new entry when the
/// configuration has none.
pub fn update_shortcut(config: &mut AppConfig, action: &str, shortcut: ShortcutConfig)
    requires
        old(config).wf(),
    ensures
        final(config).wf(),
        final(config).version@ == old(config).version@,
        final(config).developer_mode == old(config).developer_mode,
        ({
            let f = find_action(old(config).shortcuts@, action@);
            if f >= 0 {
                &&& final(config).shortcuts@.len() == old(config).shortcuts@.len()
                &&& (forall|k: int|
                    0 <= k < old(config).shortcuts@.len() && k != f
                        ==> #[trigger] final(config).shortcuts@[k] == old(config).shortcuts@[k])
                &&& final(config).shortcuts@[f].action == old(config).shortcuts@[f].action
                &&& final(config).shortcuts@[f].shortcut == shortcut
            } else {
                &&& final(config).shortcuts@.len() == old(config).shortcuts@.len() + 1
                &&& final(config).shortcuts@.take(old(config).shortcuts@.len() as int)
                    == old(config).shortcuts@
                &&& final(config).shortcuts@.last().action@ == action@
                &&& final(config).shortcuts@.last().shortcut == shortcut
            }
        }),
{
    let ghost entries = config.shortcuts@;
    let n = config.shortcuts.len();
    let mut i: usize = 0;
    while i < n
        invariant
            old(config).wf(),
            *config == *old(config),
            n == config.shortcuts@.len(),
            i <= n,
            entries == config.shortcuts@,
            forall|k: int| 0 <= k < i ==> (#[trigger] entries[k]).action@ != action@,
        decreases n - i,
    {
        if str_eq(config.shortcuts[i].action.as_str(), action) {
            proof {
                lemma_find_action_skip(entries, action@, i as int);
                assert(entries.skip(i as int)[0] == entries[i as int]);
                assert(find_action(entries.skip(i as int), action@) == 0);
            }
            let mut e = config.shortcuts.remove(i);
            e.shortcut = shortcut;
            config.shortcuts.insert(i, e);
            proof {
                assert(forall|k: int|
                    0 <= k < entries.len() && k != i ==> #[trigger] config.shortcuts@[k]
                        == entries[k]);
            }
            return ;
        }
        i = i + 1;
    }
    proof {
        lemma_find_action_skip(entries, action@, n as int);
        assert(entries.skip(n as int) =~~= Seq::<ShortcutEntry>::empty());
        lemma_find_action(entries, action@);
    }
    let entry = ShortcutEntry { action: String::from_str(action), shortcut };
    config.shortcuts.push(entry);
    proof {
        assert(config.shortcuts@.take(entries.len() as int) =~~= entries);
    }
}

/// A binding of one modifier and one key, enabled.
fn simple_binding(modifier: &str, key: &str) -> (r: ShortcutConfig)
    ensures
        r.mods_view() =~~= seq![modifier@],
        r.key@ == key@,
        r.enabled,
{
    let mut mods: Vec<String> = Vec::new();
    mods.push(String::from_str(modifier));
    ShortcutConfig { modifiers: mods, key: String::from_str(key), enabled: true }
}

/// The four built-in actions with their default bindings.
pub open spec fn is_default_binding(c: ShortcutConfig, key: Seq<char>) -> bool {
    c.mods_view() == seq!["Alt"@] && c.key@ == key && c.enabled
}

/// The shipped configuration: `Alt+A` takes a screenshot, `Alt+G` records a
/// GIF, `Alt+V` a video, `Alt+S` starts a scroll capture.
pub open spec fn is_default_shortcuts(entries: Seq<ShortcutEntry>) -> bool {
    &&& entries.len() == 4
    &&& entries[0].action@ == "screenshot"@ && is_default_binding(entries[0].shortcut, "A"@)
    &&& entries[1].action@ == "gif"@ && is_default_binding(entries[1].shortcut, "G"@)
    &&& entries[2].action@ == "video"@ && is_default_binding(entries[2].shortcut, "V"@)
    &&& entries[3].action@ == "scroll"@ && is_default_binding(entries[3].shortcut, "S"@)
}

impl Default for AppConfig {
    /// The shipped configuration.
    fn default() -> (r: AppConfig)
        ensures
            r.wf(),
            r.version@ == "1.0.0"@,
            !r.developer_mode,
            is_default_shortcuts(r.shortcuts@),
    {
        let mut shortcuts: Vec<ShortcutEntry> = Vec::new();
        shortcuts.push(
            ShortcutEntry {
                action: String::from_str("screenshot"),
                shortcut: simple_binding("Alt", "A"),
            },
        );
        shortcuts.push(
            ShortcutEntry { action: String::from_str("gif"), shortcut: simple_binding("Alt", "G") },
        );
        shortcuts.push(
            ShortcutEntry {
                action: String::from_str("video"),
                shortcut: simple_binding("Alt", "V"),
            },
        );
        shortcuts.push(
            ShortcutEntry {
                action: String::from_str("scroll"),
                shortcut: simple_binding("Alt", "S"),
            },
        );
        let r = AppConfig { version: String::from_str("1.0.0"), shortcuts, developer_mode: false };
        proof {
            reveal_strlit("screenshot");
            reveal_strlit("gif");
            reveal_strlit("video");
            reveal_strlit("scroll");
            assert("screenshot"@.len() == 10 && "gif"@.len() == 3 && "video"@.len() == 5
                && "scroll"@.len() == 6);
            assert forall|i: int, j: int|
                0 <= i < j < r.shortcuts@.len() implies (#[trigger] r.shortcuts@[i]).action@ != (
            #[trigger] r.shortcuts@[j]).action@ by {
                assert(r.shortcuts@[i].action@.len() != r.shortcuts@[j].action@.len());
            }
        }
        r
    }
}

/// Ensures every built-in action has a binding, adding the default for any
/// that is missing; reports whether anything was added.
pub fn merge_missing_shortcuts(config: &mut AppConfig) -> (r: bool)
    requires
        old(config).wf(),
    ensures
        final(config).wf(),
        final(config).version@ == old(config).version@,
        final(config).developer_mode == old(config).developer_mode,
        final(config).shortcuts@.len() >= old(config).shortcuts@.len(),
        final(config).shortcuts@.take(old(config).shortcuts@.len() as int)
            == old(config).shortcuts@,
        r == (final(config).shortcuts@.len() > old(config).shortcuts@.len()),
        find_action(final(config).shortcuts@, "screenshot"@) >= 0,
        find_action(final(config).shortcuts@, "gif"@) >= 0,
        find_action(final(config).shortcuts@, "video"@) >= 0,
        find_action(final(config).shortcuts@, "scroll"@) >= 0,
        forall|j: int|
            old(config).shortcuts@.len() <= j < final(config).shortcuts@.len() ==> find_action(
                old(config).shortcuts@,
                (#[trigger] final(config).shortcuts@[j]).action@,
            ) == -1 && is_default_binding(
                final(config).shortcuts@[j].shortcut,
                default_key_for(final(config).shortcuts@[j].action@),
            ),
{
    proof {
        reveal_strlit("screenshot");
        reveal_strlit("gif");
        reveal_strlit("video");
        reveal_strlit("scroll");
        assert("screenshot"@.len() == 10 && "gif"@.len() == 3 && "video"@.len() == 5
            && "scroll"@.len() == 6);
    }
    let ghost g0 = config.shortcuts@;
    let mut added = false;
    added = merge_one(config, "screenshot", "A") || added;
    let ghost g1 = config.shortcuts@;
    added = merge_one(config, "gif", "G") || added;
    let ghost g2 = config.shortcuts@;
    added = merge_one(config, "video", "V") || added;
    let ghost g3 = config.shortcuts@;
    added = merge_one(config, "scroll", "S") || added;
    let ghost g4 = config.shortcuts@;
    proof {
        assert(g4.take(g0.len() as int) =~~= g0);
        assert forall|j: int| g0.len() <= j < g4.len() implies find_action(
            g0,
            (#[trigger] g4[j]).action@,
        ) == -1 && is_default_binding(g4[j].shortcut, default_key_for(g4[j].action@)) by {
            if j < g1.len() {
                assert(g2.take(g1.len() as int)[j] == g2[j]);
                assert(g3.take(g2.len() as int)[j] == g3[j]);
                assert(g4.take(g3.len() as int)[j] == g4[j]);
                assert(g2[j] == g1[j] && g3[j] == g2[j] && g4[j] == g3[j]);
                assert(g1[j] == g1.last());
                assert(find_action(g0, g4[j].action@) == -1);
                assert(is_default_binding(g4[j].shortcut, default_key_for(g4[j].action@)));
            } else if j < g2.len() {
                assert(g3.take(g2.len() as int)[j] == g3[j]);
                assert(g4.take(g3.len() as int)[j] == g4[j]);
                assert(g3[j] == g2[j] && g4[j] == g3[j]);
                assert(g2[j] == g2.last());
                assert(find_action(g1, g2[j].action@) == -1);
                lemma_find_action(g0, g2[j].action@);
                if find_action(g0, g2[j].action@) >= 0 {
                    assert(find_action(g1, g2[j].action@) >= 0);
                }
                assert(find_action(g0, g4[j].action@) == -1);
                assert(is_default_binding(g4[j].shortcut, default_key_for(g4[j].action@)));
            } else if j < g3.len() {
                assert(g4.take(g3.len() as int)[j] == g4[j]);
                assert(g4[j] == g3[j]);
                assert(g3[j] == g3.last());
                assert(find_action(g2, g3[j].action@) == -1);
                lemma_find_action(g0, g3[j].action@);
                if find_action(g0, g3[j].action@) >= 0 {
                    assert(find_action(g1, g3[j].action@) >= 0);
                    assert(find_action(g2, g3[j].action@) >= 0);
                }
                assert(find_action(g0, g4[j].action@) == -1);
                assert(is_default_binding(g4[j].shortcut, default_key_for(g4[j].action@)));
            } else {
                assert(g4[j] == g4.last());
                assert(find_action(g3, g4[j].action@) == -1);
                lemma_find_action(g0, g4[j].action@);
                if find_action(g0, g4[j].action@) >= 0 {
                    assert(find_action(g1, g4[j].action@) >= 0);
                    assert(find_action(g2, g4[j].action@) >= 0);
                    assert(find_action(g3, g4[j].action@) >= 0);
                }
                assert(find_action(g0, g4[j].action@) == -1);
                assert(is_default_binding(g4[j].shortcut, default_key_for(g4[j].action@)));
            }
        }
    }
    added
}

/// The default key of a built-in action.
pub open spec fn default_key_for(action: Seq<char>) -> Seq<char> {
    if action == "screenshot"@ {
        "A"@
    } else if action == "gif"@ {
        "G"@
    } else if action == "video"@ {
        "V"@
    } else {
        "S"@
    }
}

/// Adds the default binding for one action when it is missing.
fn merge_one(config: &mut AppConfig, action: &str, key: &str) -> (r: bool)
    requires
        old(config).wf(),
        default_key_for(action@) == key@,
    ensures
        final(config).wf(),
        final(config).version@ == old(config).version@,
        final(config).developer_mode == old(config).developer_mode,
        r == (find_action(old(config).shortcuts@, action@) == -1),
        !r ==> *final(config) == *old(config),
        r ==> final(config).shortcuts@.len() == old(config).shortcuts@.len() + 1
            && final(config).shortcuts@.take(old(config).shortcuts@.len() as int)
            == old(config).shortcuts@ && final(config).shortcuts@.last().action@ == action@
            && is_default_binding(
            final(config).shortcuts@.last().shortcut,
            key@,
        ),
        find_action(final(config).shortcuts@, action@) >= 0,
        forall|name: Seq<char>|
            find_action(old(config).shortcuts@, name) >= 0 ==> #[trigger] find_action(
                final(config).shortcuts@,
                name,
            ) >= 0,
{
    let ghost entries = config.shortcuts@;
    let found = contains_action(&config.shortcuts, action);
    proof {
        lemma_find_action(entries, action@);
    }
    if found {
        proof {
            lemma_find_action(entries, action@);
        }
        return false;
    }
    let entry = ShortcutEntry { action: String::from_str(action), shortcut: simple_binding(
        "Alt",
        key,
    ) };
    config.shortcuts.push(entry);
    proof {
        assert(config.shortcuts@.take(entries.len() as int) =~~= entries);
        lemma_find_append(entries, config.shortcuts@.last(), action@);
        assert forall|name: Seq<char>|
            find_action(entries, name) >= 0 implies #[trigger] find_action(
            config.shortcuts@,
            name,
        ) >= 0 by {
            lemma_find_action(entries, name);
            lemma_find_action(config.shortcuts@, name);
            let f = find_action(entries, name);
            assert(config.shortcuts@[f] == entries[f]);
        }
        lemma_find_action(config.shortcuts@, action@);
    }
    true
}

/// Appending an entry keeps earlier entries findable and makes the new
/// action findable.
proof fn lemma_find_append(entries: Seq<ShortcutEntry>, e: ShortcutEntry, name: Seq<char>)
    requires
        e.action@ == name,
    ensures
        find_action(entries.push(e), name) >= 0,
{
    lemma_find_action(entries.push(e), name);
    if find_action(entries.push(e), name) == -1 {
        assert(entries.push(e)[entries.len() as int].action@ == name);
    }
}

/// Whether any entry is named `action`.
fn contains_action(entries: &Vec<ShortcutEntry>, action: &str) -> (r: bool)
    ensures
        r == (find_action(entries@, action@) >= 0),
{
    let ghost es = entries@;
    let mut i: usize = 0;
    while i < entries.len()
        invariant
            es == entries@,
            i <= es.len(),
            forall|k: int| 0 <= k < i ==> (#[trigger] es[k]).action@ != action@,
        decreases es.len() - i,
    {
        if str_eq(entries[i].action.as_str(), action) {
            proof {
                lemma_find_action(es, action@);
            }
            return true;
        }
        i = i + 1;
    }
    proof {
        lemma_find_action(es, action@);
    }
    false
}

} // verus!
