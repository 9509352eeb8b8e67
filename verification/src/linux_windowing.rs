//! Windowing heuristics for Linux sessions: choosing between native Wayland,
//! X11 and automatic backends, and deciding whether the shell asks the
//! compositor for server-side window decorations. Everything is a pure
//! function of a captured snapshot of the session environment, so the
//! decisions are verified and testable without touching the real process
//! environment.
use vstd::prelude::*;
use vstd::string::*;

use crate::text::any_split_token_matches;
use crate::text::any_token_matches;
use crate::text::eq_ignore_case;
use crate::text::matches_any_word;
use crate::text::str_eq_ignore_case;
use crate::text::token_matches;
use crate::text::word_views;

verus! {

/// The windowing backend the shell will ask for.
#[derive(Debug, Clone, Copy, PartialEq, Eq, Structural)]
pub enum Backend {
    Auto,
    Wayland,
    X11,
}

/// A backend choice together with a human-readable explanation.
#[derive(Debug, Clone, PartialEq, Eq)]
pub struct BackendDecision {
    pub backend: Backend,
    pub note: String,
}

/// The user's persisted display-backend preference.
#[derive(Debug, Clone, Copy, PartialEq, Eq, Structural)]
pub enum LinuxDisplayBackend {
    Wayland,
    Auto,
}

/// An immutable snapshot of the environment variables that drive the
/// windowing decisions.
#[derive(Debug, Clone)]
pub struct SessionEnv {
    pub wayland_display: bool,
    pub xdg_session_type: Option<String>,
    pub display: bool,
    pub xdg_current_desktop: Option<String>,
    pub xdg_session_desktop: Option<String>,
    pub desktop_session: Option<String>,
    pub oc_allow_wayland: Option<String>,
    pub oc_force_x11: Option<String>,
    pub oc_force_wayland: Option<String>,
    pub oc_linux_decorations: Option<String>,
    pub oc_force_decorations: Option<String>,
    pub oc_no_decorations: Option<String>,
    pub i3_sock: bool,
}

impl Default for SessionEnv {
    /// The empty snapshot: no display variables and no overrides set.
    fn default() -> (r: Self)
        ensures
            !r.wayland_display,
            !r.display,
            !r.i3_sock,
            r.xdg_session_type is None,
            r.xdg_current_desktop is None,
            r.xdg_session_desktop is None,
            r.desktop_session is None,
            r.oc_allow_wayland is None,
            r.oc_force_x11 is None,
            r.oc_force_wayland is None,
            r.oc_linux_decorations is None,
            r.oc_force_decorations is None,
            r.oc_no_decorations is None,
    {
        SessionEnv {
            wayland_display: false,
            xdg_session_type: None,
            display: false,
            xdg_current_desktop: None,
            xdg_session_desktop: None,
            desktop_session: None,
            oc_allow_wayland: None,
            oc_force_x11: None,
            oc_force_wayland: None,
            oc_linux_decorations: None,
            oc_force_decorations: None,
            oc_no_decorations: None,
            i3_sock: false,
        }
    }
}

/// The values accepted as "enabled" in override variables, after trimming
/// and ASCII case folding.
pub open spec fn truthy_words() -> Seq<Seq<char>> {
    seq!["1"@, "true"@, "yes"@, "on"@]
}

/// Whether an override string is set to an enabled value.
pub open spec fn is_truthy_chars(s: Seq<char>) -> bool {
    matches_any_word(s, truthy_words())
}

/// `is_truthy_chars` lifted over an optional environment value.
pub open spec fn opt_truthy(v: Option<String>) -> bool {
    match v {
        Option::Some(s) => is_truthy_chars(s@),
        Option::None => false,
    }
}

fn is_truthy(value: Option<&str>) -> (r: bool)
    ensures
        r == match value {
            Option::Some(s) => is_truthy_chars(s@),
            Option::None => false,
        },
{
    match value {
        Option::None => false,
        Option::Some(s) => {
            let n = s.unicode_len();
            let words: &[&str] = &["1", "true", "yes", "on"];
            let m = token_matches(s, 0, n, words);
            proof {
                assert(s@.subrange(0, n as int) =~= s@);
                assert(word_views(words@) =~= truthy_words()) by {
                    assert(word_views(words@)[0] == "1"@);
                    assert(word_views(words@)[1] == "true"@);
                    assert(word_views(words@)[2] == "yes"@);
                    assert(word_views(words@)[3] == "on"@);
                }
            }
            m
        },
    }
}

fn truthy_opt(v: &Option<String>) -> (r: bool)
    ensures
        r == opt_truthy(*v),
{
    match v {
        Option::Some(s) => is_truthy(Some(s.as_str())),
        Option::None => false,
    }
}

/// Whether the snapshot describes a Wayland session: either a Wayland
/// display is present or the session type names Wayland.
pub open spec fn wayland_session(env: SessionEnv) -> bool {
    env.wayland_display || match env.xdg_session_type {
        Option::Some(s) => eq_ignore_case(s@, "wayland"@),
        Option::None => false,
    }
}

fn is_wayland_session(env: &SessionEnv) -> (r: bool)
    ensures
        r == wayland_session(*env),
{
    if env.wayland_display {
        return true;
    }
    match &env.xdg_session_type {
        Option::Some(s) => str_eq_ignore_case(s.as_str(), "wayland"),
        Option::None => false,
    }
}

/// Whether an optional environment value holds a `':'`-separated token that
/// matches one of `words` after trimming and case folding.
pub open spec fn opt_has_token(v: Option<String>, words: Seq<Seq<char>>) -> bool {
    match v {
        Option::Some(s) => any_split_token_matches(s@, words),
        Option::None => false,
    }
}

/// Whether any of the three desktop identification variables carries a token
/// from `words`.
pub open spec fn desktop_token_matches(env: SessionEnv, words: Seq<Seq<char>>) -> bool {
    opt_has_token(env.xdg_current_desktop, words) || opt_has_token(env.xdg_session_desktop, words)
        || opt_has_token(env.desktop_session, words)
}

fn opt_any_token(v: &Option<String>, words: &[&str]) -> (r: bool)
    ensures
        r == opt_has_token(*v, word_views(words@)),
{
    match v {
        Option::Some(s) => any_token_matches(s.as_str(), words),
        Option::None => false,
    }
}

/// The desktop environments treated as full desktops, which are expected to
/// draw usable server-side decorations.
pub open spec fn full_desktop_words() -> Seq<Seq<char>> {
    seq![
        "gnome"@,
        "kde"@,
        "plasma"@,
        "xfce"@,
        "xfce4"@,
        "x-cinnamon"@,
        "cinnamon"@,
        "mate"@,
        "lxqt"@,
        "budgie"@,
        "pantheon"@,
        "deepin"@,
        "unity"@,
        "cosmic"@,
    ]
}

/// The window managers treated as tiling sessions, where decorations are
/// unwanted.
pub open spec fn tiling_words() -> Seq<Seq<char>> {
    seq![
        "niri"@,
        "sway"@,
        "swayfx"@,
        "hyprland"@,
        "river"@,
        "i3"@,
        "i3wm"@,
        "bspwm"@,
        "dwm"@,
        "qtile"@,
        "xmonad"@,
        "leftwm"@,
        "dwl"@,
        "awesome"@,
        "herbstluftwm"@,
        "spectrwm"@,
        "worm"@,
        "i3-gnome"@,
    ]
}

/// Whether the snapshot names a full desktop environment.
pub open spec fn full_desktop_session(env: SessionEnv) -> bool {
    desktop_token_matches(env, full_desktop_words())
}

/// Whether the snapshot names a known tiling window manager.
pub open spec fn known_tiling_session(env: SessionEnv) -> bool {
    env.i3_sock || desktop_token_matches(env, tiling_words())
}

fn is_full_desktop_session(env: &SessionEnv) -> (r: bool)
    ensures
        r == full_desktop_session(*env),
{
    let words: &[&str] = &[
        "gnome",
        "kde",
        "plasma",
        "xfce",
        "xfce4",
        "x-cinnamon",
        "cinnamon",
        "mate",
        "lxqt",
        "budgie",
        "pantheon",
        "deepin",
        "unity",
        "cosmic",
    ];
    proof {
        assert(word_views(words@) =~= full_desktop_words()) by {
            assert forall|j: int| 0 <= j < 14 implies word_views(words@)[j]
                == full_desktop_words()[j] by {
                assert(word_views(words@)[j] == words@[j]@);
            }
        }
    }
    opt_any_token(&env.xdg_current_desktop, words) || opt_any_token(
        &env.xdg_session_desktop,
        words,
    ) || opt_any_token(&env.desktop_session, words)
}

fn is_known_tiling_session(env: &SessionEnv) -> (r: bool)
    ensures
        r == known_tiling_session(*env),
{
    if env.i3_sock {
        return true;
    }
    let words: &[&str] = &[
        "niri",
        "sway",
        "swayfx",
        "hyprland",
        "river",
        "i3",
        "i3wm",
        "bspwm",
        "dwm",
        "qtile",
        "xmonad",
        "leftwm",
        "dwl",
        "awesome",
        "herbstluftwm",
        "spectrwm",
        "worm",
        "i3-gnome",
    ];
    proof {
        assert(word_views(words@) =~= tiling_words()) by {
            assert forall|j: int| 0 <= j < 18 implies word_views(words@)[j]
                == tiling_words()[j] by {
                assert(word_views(words@)[j] == words@[j]@);
            }
        }
    }
    opt_any_token(&env.xdg_current_desktop, words) || opt_any_token(
        &env.xdg_session_desktop,
        words,
    ) || opt_any_token(&env.desktop_session, words)
}

/// The decoration policy used when no override is present: tiling sessions
/// get none, X11 sessions get them, and Wayland sessions get them only on a
/// full desktop.
pub open spec fn spec_default_use_decorations(env: SessionEnv) -> bool {
    if known_tiling_session(env) {
        false
    } else if !wayland_session(env) {
        true
    } else {
        full_desktop_session(env)
    }
}

fn default_use_decorations(env: &SessionEnv) -> (r: bool)
    ensures
        r == spec_default_use_decorations(*env),
{
    if is_known_tiling_session(env) {
        return false;
    }
    if !is_wayland_session(env) {
        return true;
    }
    is_full_desktop_session(env)
}

/// An explicit decoration override parsed from the dedicated environment
/// variable.
#[derive(Debug, Clone, Copy, PartialEq, Eq, Structural)]
pub enum DecorationOverride {
    Auto,
    Native,
    Off,
}

/// The values that explicitly select native decorations.
pub open spec fn native_decoration_words() -> Seq<Seq<char>> {
    seq!["native"@, "server"@, "de"@, "wayland"@, "on"@, "true"@, "1"@]
}

/// The values that explicitly disable decorations.
pub open spec fn off_decoration_words() -> Seq<Seq<char>> {
    seq!["none"@, "off"@, "false"@, "0"@, "client"@, "csd"@]
}

/// How a decoration-override string is interpreted, if at all.
pub open spec fn decoration_override_chars(s: Seq<char>) -> Option<DecorationOverride> {
    if matches_any_word(s, seq!["auto"@]) {
        Option::Some(DecorationOverride::Auto)
    } else if matches_any_word(s, native_decoration_words()) {
        Option::Some(DecorationOverride::Native)
    } else if matches_any_word(s, off_decoration_words()) {
        Option::Some(DecorationOverride::Off)
    } else {
        Option::None
    }
}

/// `decoration_override_chars` lifted over an optional environment value.
pub open spec fn opt_decoration_override(v: Option<String>) -> Option<DecorationOverride> {
    match v {
        Option::Some(s) => decoration_override_chars(s@),
        Option::None => Option::None,
    }
}

fn decoration_override(value: Option<&str>) -> (r: Option<DecorationOverride>)
    ensures
        r == match value {
            Option::Some(s) => decoration_override_chars(s@),
            Option::None => Option::<DecorationOverride>::None,
        },
{
    match value {
        Option::None => None,
        Option::Some(s) => {
            let n = s.unicode_len();
            proof {
                assert(s@.subrange(0, n as int) =~= s@);
            }
            let auto_words: &[&str] = &["auto"];
            proof {
                assert(word_views(auto_words@) =~= seq!["auto"@]) by {
                    assert(word_views(auto_words@)[0] == "auto"@);
                }
            }
            if token_matches(s, 0, n, auto_words) {
                return Some(DecorationOverride::Auto);
            }
            let native_words: &[&str] = &["native", "server", "de", "wayland", "on", "true", "1"];
            proof {
                assert(word_views(native_words@) =~= native_decoration_words()) by {
                    assert forall|j: int| 0 <= j < 7 implies word_views(native_words@)[j]
                        == native_decoration_words()[j] by {
                        assert(word_views(native_words@)[j] == native_words@[j]@);
                    }
                }
            }
            if token_matches(s, 0, n, native_words) {
                return Some(DecorationOverride::Native);
            }
            let off_words: &[&str] = &["none", "off", "false", "0", "client", "csd"];
            proof {
                assert(word_views(off_words@) =~= off_decoration_words()) by {
                    assert forall|j: int| 0 <= j < 6 implies word_views(off_words@)[j]
                        == off_decoration_words()[j] by {
                        assert(word_views(off_words@)[j] == off_words@[j]@);
                    }
                }
            }
            if token_matches(s, 0, n, off_words) {
                return Some(DecorationOverride::Off);
            }
            None
        },
    }
}

/// Whether the shell asks for server-side decorations, honouring the
/// dedicated override first, then the two legacy overrides, then the
/// default policy.
pub open spec fn spec_use_decorations(env: SessionEnv) -> bool {
    match opt_decoration_override(env.oc_linux_decorations) {
        Option::Some(DecorationOverride::Native) => true,
        Option::Some(DecorationOverride::Off) => false,
        Option::Some(DecorationOverride::Auto) => spec_default_use_decorations(env),
        Option::None => if opt_truthy(env.oc_force_decorations) {
            true
        } else if opt_truthy(env.oc_no_decorations) {
            false
        } else {
            spec_default_use_decorations(env)
        },
    }
}

/// Decides window decorations for the captured session environment.
pub fn use_decorations(env: &SessionEnv) -> (r: bool)
    ensures
        r == spec_use_decorations(*env),
{
    let over = match &env.oc_linux_decorations {
        Option::Some(s) => decoration_override(Some(s.as_str())),
        Option::None => None,
    };
    match over {
        Option::Some(DecorationOverride::Native) => true,
        Option::Some(DecorationOverride::Off) => false,
        Option::Some(DecorationOverride::Auto) => default_use_decorations(env),
        Option::None => {
            if truthy_opt(&env.oc_force_decorations) {
                true
            } else if truthy_opt(&env.oc_no_decorations) {
                false
            } else {
                default_use_decorations(env)
            }
        },
    }
}

/// The backend selected for the session, if the heuristics select one at
/// all: forced X11 wins, then forced Wayland, then (only inside a Wayland
/// session) the persisted preference, the allow override, or the automatic
/// backend.
pub open spec fn spec_backend_choice(env: SessionEnv, prefer_wayland: bool) -> Option<Backend> {
    if opt_truthy(env.oc_force_x11) {
        Option::Some(Backend::X11)
    } else if opt_truthy(env.oc_force_wayland) {
        Option::Some(Backend::Wayland)
    } else if !wayland_session(env) {
        Option::None
    } else if prefer_wayland {
        Option::Some(Backend::Wayland)
    } else if opt_truthy(env.oc_allow_wayland) {
        Option::Some(Backend::Wayland)
    } else {
        Option::Some(Backend::Auto)
    }
}

/// Selects the windowing backend for the captured session environment,
/// together with a note explaining the decision.
pub fn select_backend(env: &SessionEnv, prefer_wayland: bool) -> (r: Option<BackendDecision>)
    ensures
        r is Some <==> spec_backend_choice(*env, prefer_wayland) is Some,
        r is Some ==> r.unwrap().backend == spec_backend_choice(*env, prefer_wayland).unwrap(),
        opt_truthy(env.oc_force_x11) ==> r.unwrap().note@ == "Forcing X11 due to OC_FORCE_X11=1"@,
        !opt_truthy(env.oc_force_x11) && opt_truthy(env.oc_force_wayland) ==> r.unwrap().note@
            == "Forcing native Wayland due to OC_FORCE_WAYLAND=1"@,
        !opt_truthy(env.oc_force_x11) && !opt_truthy(env.oc_force_wayland) && wayland_session(*env)
            && prefer_wayland ==> r.unwrap().note@
            == "Wayland session detected; forcing native Wayland from settings"@,
        !opt_truthy(env.oc_force_x11) && !opt_truthy(env.oc_force_wayland) && wayland_session(*env)
            && !prefer_wayland && opt_truthy(env.oc_allow_wayland) ==> r.unwrap().note@
            == "Wayland session detected; forcing native Wayland due to OC_ALLOW_WAYLAND=1"@,
        !opt_truthy(env.oc_force_x11) && !opt_truthy(env.oc_force_wayland) && wayland_session(*env)
            && !prefer_wayland && !opt_truthy(env.oc_allow_wayland) ==> r.unwrap().note@
            == "Wayland session detected; using native Wayland first with X11 fallback (auto backend). Set OC_FORCE_X11=1 to force X11."@,
{
    if truthy_opt(&env.oc_force_x11) {
        return Some(
            BackendDecision {
                backend: Backend::X11,
                note: String::from_str("Forcing X11 due to OC_FORCE_X11=1"),
            },
        );
    }
    if truthy_opt(&env.oc_force_wayland) {
        return Some(
            BackendDecision {
                backend: Backend::Wayland,
                note: String::from_str("Forcing native Wayland due to OC_FORCE_WAYLAND=1"),
            },
        );
    }
    if !is_wayland_session(env) {
        return None;
    }
    if prefer_wayland {
        return Some(
            BackendDecision {
                backend: Backend::Wayland,
                note: String::from_str(
                    "Wayland session detected; forcing native Wayland from settings",
                ),
            },
        );
    }
    if truthy_opt(&env.oc_allow_wayland) {
        return Some(
            BackendDecision {
                backend: Backend::Wayland,
                note: String::from_str(
                    "Wayland session detected; forcing native Wayland due to OC_ALLOW_WAYLAND=1",
                ),
            },
        );
    }
    Some(
        BackendDecision {
            backend: Backend::Auto,
            note: String::from_str(
                "Wayland session detected; using native Wayland first with X11 fallback (auto backend). Set OC_FORCE_X11=1 to force X11.",
            ),
        },
    )
}

/// The persisted display-backend preference as a variant: a saved "prefer
/// Wayland" flag maps to `Wayland`, anything else to `Auto`.
pub fn backend_preference(prefer_wayland: bool) -> (r: LinuxDisplayBackend)
    ensures
        r == if prefer_wayland {
            LinuxDisplayBackend::Wayland
        } else {
            LinuxDisplayBackend::Auto
        },
{
    if prefer_wayland {
        LinuxDisplayBackend::Wayland
    } else {
        LinuxDisplayBackend::Auto
    }
}

/// Whether a display-backend preference asks for native Wayland, the value
/// written back to the persisted flag.
pub fn wayland_preferred(backend: LinuxDisplayBackend) -> (r: bool)
    ensures
        r == (backend == LinuxDisplayBackend::Wayland),
{
    match backend {
        LinuxDisplayBackend::Wayland => true,
        LinuxDisplayBackend::Auto => false,
    }
}

} // verus!
