use opencode_desktop::linux_windowing::Backend;
use opencode_desktop::linux_windowing::LinuxDisplayBackend;
use opencode_desktop::linux_windowing::SessionEnv;
use opencode_desktop::linux_windowing::backend_preference;
use opencode_desktop::linux_windowing::select_backend;
use opencode_desktop::linux_windowing::use_decorations;
use opencode_desktop::linux_windowing::wayland_preferred;

#[test]
fn prefers_wayland_first_on_wayland_session() {
    let env = SessionEnv {
        wayland_display: true,
        display: true,
        ..Default::default()
    };

    let decision = select_backend(&env, false).expect("missing decision");
    assert_eq!(decision.backend, Backend::Auto);
}

#[test]
fn force_x11_override_wins() {
    let env = SessionEnv {
        wayland_display: true,
        display: true,
        oc_force_x11: Some("1".into()),
        oc_allow_wayland: Some("1".into()),
        oc_force_wayland: Some("1".into()),
        ..Default::default()
    };

    let decision = select_backend(&env, true).expect("missing decision");
    assert_eq!(decision.backend, Backend::X11);
}

#[test]
fn prefer_wayland_forces_wayland_backend() {
    let env = SessionEnv {
        wayland_display: true,
        display: true,
        ..Default::default()
    };

    let decision = select_backend(&env, true).expect("missing decision");
    assert_eq!(decision.backend, Backend::Wayland);
}

#[test]
fn force_wayland_override_works_outside_wayland_session() {
    let env = SessionEnv {
        display: true,
        oc_force_wayland: Some("1".into()),
        ..Default::default()
    };

    let decision = select_backend(&env, false).expect("missing decision");
    assert_eq!(decision.backend, Backend::Wayland);
}

#[test]
fn allow_wayland_forces_wayland_backend() {
    let env = SessionEnv {
        wayland_display: true,
        display: true,
        oc_allow_wayland: Some("1".into()),
        ..Default::default()
    };

    let decision = select_backend(&env, false).expect("missing decision");
    assert_eq!(decision.backend, Backend::Wayland);
}

#[test]
fn xdg_session_type_wayland_is_detected() {
    let env = SessionEnv {
        xdg_session_type: Some("wayland".into()),
        ..Default::default()
    };

    let decision = select_backend(&env, false).expect("missing decision");
    assert_eq!(decision.backend, Backend::Auto);
}

#[test]
fn returns_none_when_not_wayland_and_no_overrides() {
    let env = SessionEnv {
        display: true,
        xdg_current_desktop: Some("GNOME".into()),
        ..Default::default()
    };

    assert!(select_backend(&env, false).is_none());
}

#[test]
fn prefer_wayland_setting_does_not_override_x11_session() {
    let env = SessionEnv {
        display: true,
        xdg_current_desktop: Some("GNOME".into()),
        ..Default::default()
    };

    assert!(select_backend(&env, true).is_none());
}

#[test]
fn disables_decorations_on_niri() {
    let env = SessionEnv {
        xdg_current_desktop: Some("niri".into()),
        wayland_display: true,
        ..Default::default()
    };

    assert!(!use_decorations(&env));
}

#[test]
fn keeps_decorations_on_gnome() {
    let env = SessionEnv {
        xdg_current_desktop: Some("GNOME".into()),
        wayland_display: true,
        ..Default::default()
    };

    assert!(use_decorations(&env));
}

#[test]
fn disables_decorations_when_session_desktop_is_tiling() {
    let env = SessionEnv {
        xdg_session_desktop: Some("Hyprland".into()),
        wayland_display: true,
        ..Default::default()
    };

    assert!(!use_decorations(&env));
}

#[test]
fn disables_decorations_for_unknown_wayland_session() {
    let env = SessionEnv {
        xdg_current_desktop: Some("labwc".into()),
        wayland_display: true,
        ..Default::default()
    };

    assert!(!use_decorations(&env));
}

#[test]
fn disables_decorations_for_dwm_on_x11() {
    let env = SessionEnv {
        xdg_current_desktop: Some("dwm".into()),
        display: true,
        ..Default::default()
    };

    assert!(!use_decorations(&env));
}

#[test]
fn disables_decorations_for_i3_on_x11() {
    let env = SessionEnv {
        xdg_current_desktop: Some("i3".into()),
        display: true,
        ..Default::default()
    };

    assert!(!use_decorations(&env));
}

#[test]
fn disables_decorations_for_i3sock_without_xdg_tokens() {
    let env = SessionEnv {
        display: true,
        i3_sock: true,
        ..Default::default()
    };

    assert!(!use_decorations(&env));
}

#[test]
fn keeps_decorations_for_gnome_on_x11() {
    let env = SessionEnv {
        xdg_current_desktop: Some("GNOME".into()),
        display: true,
        ..Default::default()
    };

    assert!(use_decorations(&env));
}

#[test]
fn no_decorations_override_wins() {
    let env = SessionEnv {
        xdg_current_desktop: Some("GNOME".into()),
        oc_no_decorations: Some("1".into()),
        ..Default::default()
    };

    assert!(!use_decorations(&env));
}

#[test]
fn linux_decorations_native_override_wins() {
    let env = SessionEnv {
        xdg_current_desktop: Some("niri".into()),
        wayland_display: true,
        oc_linux_decorations: Some("native".into()),
        ..Default::default()
    };

    assert!(use_decorations(&env));
}

#[test]
fn linux_decorations_none_override_wins() {
    let env = SessionEnv {
        xdg_current_desktop: Some("GNOME".into()),
        wayland_display: true,
        oc_linux_decorations: Some("none".into()),
        ..Default::default()
    };

    assert!(!use_decorations(&env));
}

#[test]
fn linux_decorations_auto_uses_default_policy() {
    let env = SessionEnv {
        xdg_current_desktop: Some("sway".into()),
        wayland_display: true,
        oc_linux_decorations: Some("auto".into()),
        ..Default::default()
    };

    assert!(!use_decorations(&env));
}

#[test]
fn linux_decorations_override_beats_legacy_overrides() {
    let env = SessionEnv {
        xdg_current_desktop: Some("GNOME".into()),
        wayland_display: true,
        oc_linux_decorations: Some("none".into()),
        oc_force_decorations: Some("1".into()),
        ..Default::default()
    };

    assert!(!use_decorations(&env));
}

#[test]
fn display_preference_round_trips() {
    assert_eq!(backend_preference(true), LinuxDisplayBackend::Wayland);
    assert_eq!(backend_preference(false), LinuxDisplayBackend::Auto);
    assert!(wayland_preferred(LinuxDisplayBackend::Wayland));
    assert!(!wayland_preferred(LinuxDisplayBackend::Auto));
    assert!(wayland_preferred(backend_preference(true)));
    assert!(!wayland_preferred(backend_preference(false)));
}

#[test]
fn unicode_whitespace_is_trimmed_in_overrides() {
    let env = SessionEnv {
        wayland_display: true,
        display: true,
        oc_force_x11: Some("true\u{a0}".into()),
        ..Default::default()
    };
    let decision = select_backend(&env, false).expect("missing decision");
    assert_eq!(decision.backend, Backend::X11);

    let env = SessionEnv {
        xdg_current_desktop: Some("GNOME".into()),
        wayland_display: true,
        oc_linux_decorations: Some("\u{3000}none\u{2028}".into()),
        ..Default::default()
    };
    assert!(!use_decorations(&env));

    let env = SessionEnv {
        wayland_display: true,
        xdg_current_desktop: Some("\u{2003}niri\u{2003}".into()),
        ..Default::default()
    };
    assert!(!use_decorations(&env));
}
