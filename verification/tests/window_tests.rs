use jumppad::window::{needs_replacing, settings, WindowConfig};

fn plain() -> WindowConfig {
    WindowConfig { decorations: true, visor: false, wants_transparency: false }
}

#[test]
fn a_default_config_asks_for_a_plain_solid_window() {
    let spec = settings(plain());
    assert!(!spec.transparent);
    assert!(spec.decorations);
    assert!(!spec.always_on_top);
}

#[test]
fn every_window_lets_the_app_handle_its_own_close() {
    assert!(!settings(plain()).exit_on_close_request);
}

#[test]
fn a_theme_wanting_translucency_asks_for_a_transparent_window() {
    assert!(settings(WindowConfig { wants_transparency: true, ..plain() }).transparent);
}

#[test]
fn visor_mode_takes_the_decorations_off_and_floats_the_window() {
    let spec = settings(WindowConfig { visor: true, decorations: true, ..plain() });
    assert!(!spec.decorations, "a drop-down visor is undecorated");
    assert!(spec.always_on_top);
}

#[test]
fn each_window_setting_alone_calls_for_a_replacement() {
    for changed in [
        WindowConfig { wants_transparency: true, ..plain() },
        WindowConfig { decorations: false, ..plain() },
        WindowConfig { visor: true, ..plain() },
    ] {
        assert!(needs_replacing(plain(), changed), "{changed:?} should need a new window");
    }
}

#[test]
fn a_reload_that_moves_nothing_a_window_carries_keeps_it() {
    assert!(!needs_replacing(plain(), plain()));
    let undecorated_visor = WindowConfig { decorations: false, visor: true, ..plain() };
    let decorated_visor = WindowConfig { decorations: true, visor: true, ..plain() };
    assert!(!needs_replacing(undecorated_visor, decorated_visor), "the visor hides the difference");
}
