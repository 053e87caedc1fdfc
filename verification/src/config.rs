//! Debug switches and the song folders of the configuration, with their defaults.
use vstd::prelude::*;
use vstd::string::StringExecFns;

use crate::document::{
    as_bool, bool_spec, get, get_spec, is_number, is_number_spec, opt_strings_view, parse_toml, string_entries,
    strings_spec, toml_doc, TomlView,
};

verus! {

/// Debug switches of the user interface.
#[derive(Debug, Clone, Copy, PartialEq, Eq, Structural)]
pub struct DebugUi {
    /// Outline every component.
    pub component_border: bool,
    /// Report frame timings.
    pub render_profile: bool,
}

/// Debug switches of the game.
#[derive(Debug, Clone, Copy, PartialEq, Eq, Structural)]
pub struct DebugGameplay {
    /// Allow switching to the camera adjustment mode.
    pub camera_adjustable: bool,
}

/// All debug switches.
#[derive(Debug, Clone, Copy, PartialEq, Eq, Structural)]
pub struct DebugConfig {
    pub ui: DebugUi,
    pub gameplay: DebugGameplay,
}

impl Default for DebugUi {
    fn default() -> (d: Self)
        ensures
            !d.component_border,
            d.render_profile,
    {
        DebugUi { component_border: false, render_profile: true }
    }
}

impl Default for DebugGameplay {
    fn default() -> (d: Self)
        ensures
            d.camera_adjustable,
    {
        DebugGameplay { camera_adjustable: true }
    }
}

impl Default for DebugConfig {
    fn default() -> (d: Self)
        ensures
            !d.ui.component_border,
            d.ui.render_profile,
            d.gameplay.camera_adjustable,
    {
        DebugConfig { ui: DebugUi::default(), gameplay: DebugGameplay::default() }
    }
}

/// The switches given by a configuration's three optional settings.
pub open spec fn debug_from(component_border: Option<bool>, render_profile: Option<bool>, camera_adjustable: Option<bool>) -> DebugConfig {
    DebugConfig {
        ui: DebugUi {
            component_border: match component_border {
                Some(b) => b,
                None => false,
            },
            render_profile: match render_profile {
                Some(b) => b,
                None => true,
            },
        },
        gameplay: DebugGameplay {
            camera_adjustable: match camera_adjustable {
                Some(b) => b,
                None => true,
            },
        },
    }
}

impl DebugConfig {
    /// The switches read from a configuration file, each falling back to
    /// its default when the file does not set it.
    pub fn from_values(
        component_border: Option<bool>,
        render_profile: Option<bool>,
        camera_adjustable: Option<bool>,
    ) -> (d: Self)
        ensures
            d == debug_from(component_border, render_profile, camera_adjustable),
            d.ui.component_border == (match component_border {
                Some(b) => b,
                None => false,
            }),
            d.ui.render_profile == (match render_profile {
                Some(b) => b,
                None => true,
            }),
            d.gameplay.camera_adjustable == (match camera_adjustable {
                Some(b) => b,
                None => true,
            }),
    {
        DebugConfig {
            ui: DebugUi {
                component_border: match component_border {
                    Some(b) => b,
                    None => false,
                },
                render_profile: match render_profile {
                    Some(b) => b,
                    None => true,
                },
            },
            gameplay: DebugGameplay {
                camera_adjustable: match camera_adjustable {
                    Some(b) => b,
                    None => true,
                },
            },
        }
    }
}

/// The song folder used when the configuration names none.
pub open spec fn builtin_folder() -> Seq<char> {
    "assets/builtin_musics"@
}

/// The song folders of a configuration: the string entries of its folder
/// list, in order, or the built-in folder when it has no list.
pub fn music_paths(list: Option<Vec<Option<String>>>) -> (paths: Vec<String>)
    ensures
        list is None ==> paths@.len() == 1 && paths@[0]@ == builtin_folder(),
        list matches Some(l) ==> paths@.map_values(|s: String| s@) == l@.filter(|e: Option<String>| e is Some).map_values(
            |e: Option<String>| e->0@,
        ),
{
    match list {
        None => {
            let v = vec![String::from_str("assets/builtin_musics")];
            proof {
                reveal_strlit("assets/builtin_musics");
            }
            v
        },
        Some(l) => {
            let ghost ls = l@;
            let mut out: Vec<String> = Vec::new();
            let n = l.len();
            let mut i: usize = 0;
            proof {
                reveal(Seq::filter);
                assert(ls.take(0) =~= Seq::<Option<String>>::empty());
            }
            while i < n
                invariant
                    i <= n == ls.len(),
                    ls == l@,
                    out@.map_values(|s: String| s@) == ls.take(i as int).filter(|e: Option<String>| e is Some).map_values(
                        |e: Option<String>| e->0@,
                    ),
                decreases n - i,
            {
                proof {
                    reveal(Seq::filter);
                    assert(ls.take(i + 1).drop_last() =~= ls.take(i as int));
                    assert(ls.take(i + 1).last() == ls[i as int]);
                }
                match &l[i] {
                    Some(s) => {
                        let ghost before = out@;
                        let c = s.clone();
                        out.push(c);
                        proof {
                            let f = ls.take(i as int).filter(|e: Option<String>| e is Some);
                            assert(ls.take(i + 1).filter(|e: Option<String>| e is Some) == f.push(ls[i as int]));
                            assert(out@ =~= before.push(c));
                            assert(out@.map_values(|s: String| s@) =~= before.map_values(|s: String| s@).push(c@));
                            assert(ls[i as int]->0@ == c@);
                            assert(f.push(ls[i as int]).map_values(|e: Option<String>| e->0@) =~= f.map_values(
                                |e: Option<String>| e->0@,
                            ).push(ls[i as int]->0@));
                        }
                    },
                    None => {},
                }
                i = i + 1;
            }
            assert(ls.take(n as int) =~= ls);
            out
        },
    }
}

/// The entries of an optional-string list, each as text.
pub open spec fn opt_strs(l: Seq<Option<String>>) -> Seq<Option<Seq<char>>> {
    l.map_values(|o: Option<String>| match o {
        Some(t) => Some(t@),
        None => None,
    })
}

/// The present entries of a list, in order.
pub open spec fn present(l: Seq<Option<Seq<char>>>) -> Seq<Seq<char>>
    decreases l.len(),
{
    if l.len() == 0 {
        Seq::empty()
    } else {
        let r = present(l.drop_last());
        match l.last() {
            Some(t) => r.push(t),
            None => r,
        }
    }
}

/// The song folders a configuration's folder list names (the built-in
/// folder when there is no list).
pub open spec fn folders_of(list: Option<Seq<Option<Seq<char>>>>) -> Seq<Seq<char>> {
    match list {
        Some(l) => present(l),
        None => seq![builtin_folder()],
    }
}

proof fn lemma_present(l: Seq<Option<String>>)
    ensures
        l.filter(|e: Option<String>| e is Some).map_values(|e: Option<String>| e->0@) == present(opt_strs(l)),
    decreases l.len(),
{
    reveal(Seq::filter);
    if l.len() == 0 {
        assert(l.filter(|e: Option<String>| e is Some).map_values(|e: Option<String>| e->0@) =~= Seq::<Seq<char>>::empty());
    } else {
        lemma_present(l.drop_last());
        assert(opt_strs(l).drop_last() =~= opt_strs(l.drop_last()));
        let f = l.drop_last().filter(|e: Option<String>| e is Some);
        if l.last() is Some {
            assert(f.push(l.last()).map_values(|e: Option<String>| e->0@) =~= f.map_values(
                |e: Option<String>| e->0@,
            ).push(l.last()->0@));
        }
    }
}

/// What a configuration document holds that is not a number: the folder
/// list `gameplay.music_assets_path` (its string entries, `None` for the
/// others), whether `gameplay.notespeed` is a number, and the switches
/// `debug.ui.component_border`, `debug.ui.render_profile` and
/// `debug.gameplay.camera_adjustable`; `None` when there is no document.
pub open spec fn settings_fields_of(doc: Option<TomlView>) -> Option<(Option<Seq<Option<Seq<char>>>>, bool, Option<bool>, Option<bool>, Option<bool>)> {
    match doc {
        None => None,
        Some(_) => {
            let g = get_spec(doc, "gameplay"@);
            let d = get_spec(doc, "debug"@);
            Some((
                strings_spec(get_spec(g, "music_assets_path"@)),
                is_number_spec(get_spec(g, "notespeed"@)),
                bool_spec(get_spec(get_spec(d, "ui"@), "component_border"@)),
                bool_spec(get_spec(get_spec(d, "ui"@), "render_profile"@)),
                bool_spec(get_spec(get_spec(d, "gameplay"@), "camera_adjustable"@)),
            ))
        },
    }
}

/// The settings of a configuration that the library decides on.
pub struct Settings {
    pub music_assets_path: Vec<String>,
    pub debug: DebugConfig,
}

/// Why a configuration is refused.
#[derive(Debug, Clone, Copy, PartialEq, Eq, Structural)]
pub enum SettingsError {
    /// `gameplay.notespeed` is missing or not a number.
    NotespeedRequired,
}

pub open spec fn strings_view(v: Seq<String>) -> Seq<Seq<char>> {
    v.map_values(|s: String| s@)
}

/// The settings of a configuration text: the defaults when it is not TOML,
/// an error when it gives no number for `gameplay.notespeed`, and otherwise
/// its song folders and debug switches.
pub fn settings_from_text(text: &str) -> (r: Result<Settings, SettingsError>)
    ensures
        match settings_fields_of(toml_doc(text@)) {
            None => r matches Ok(s) && strings_view(s.music_assets_path@) == folders_of(None) && s.debug
                == debug_from(None, None, None),
            Some(f) => if !f.1 {
                r == Err::<Settings, SettingsError>(SettingsError::NotespeedRequired)
            } else {
                r matches Ok(s) && strings_view(s.music_assets_path@) == folders_of(f.0) && s.debug
                    == debug_from(f.2, f.3, f.4)
            },
        },
{
    let doc = parse_toml(text);
    match doc {
        None => {
            let p = music_paths(None);
            assert(strings_view(p@) =~= folders_of(None));
            Ok(Settings { music_assets_path: p, debug: DebugConfig::from_values(None, None, None) })
        },
        Some(d) => {
            let root = Some(&d);
            let g = get(root, "gameplay");
            let speed = is_number(get(g, "notespeed"));
            let list = string_entries(get(g, "music_assets_path"));
            let dbg = get(root, "debug");
            let a = as_bool(get(get(dbg, "ui"), "component_border"));
            let b = as_bool(get(get(dbg, "ui"), "render_profile"));
            let c = as_bool(get(get(dbg, "gameplay"), "camera_adjustable"));
            if !speed {
                return Err(SettingsError::NotespeedRequired);
            }
            let ghost lv = opt_strings_view(list);
            proof {
                if list is Some {
                    lemma_present(list.unwrap()@);
                }
            }
            let p = music_paths(list);
            proof {
                if lv is None {
                    assert(strings_view(p@) =~= folders_of(None));
                }
            }
            Ok(Settings { music_assets_path: p, debug: DebugConfig::from_values(a, b, c) })
        },
    }
}

} // verus!
