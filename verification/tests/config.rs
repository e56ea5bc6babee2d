use imgvwr::args::Args;
use imgvwr::config::key_or_default;
use imgvwr::config::ContentFit;
use imgvwr::config::FilterMethod;
use imgvwr::config::Keybindings;
use imgvwr::config::Theme;
use imgvwr::config::Window;

#[test]
fn window_defaults() {
    let w = Window::default();
    assert_eq!(w.decorations, Some(true));
    assert_eq!(w.antialiasing, Some(true));
    assert_eq!(w.theme, Some(Theme::Dark));
}

#[test]
fn theme_defaults_to_dark() {
    assert_eq!(Theme::default(), Theme::Dark);
}

#[test]
fn filter_method_defaults_to_linear() {
    assert_eq!(FilterMethod::default(), FilterMethod::Linear);
}

#[test]
fn content_fit_defaults_to_unscaled() {
    assert_eq!(ContentFit::default(), ContentFit::Unscaled);
}

#[test]
fn keybinding_defaults() {
    let k = Keybindings::default();
    assert_eq!(k.quit, Some("q".to_string()));
    assert_eq!(k.rotate_left, Some("[".to_string()));
    assert_eq!(k.rotate_right, Some("]".to_string()));
}

#[test]
fn configured_key_is_kept() {
    assert_eq!(key_or_default(Some("x".to_string()), "q"), "x".to_string());
}

#[test]
fn missing_key_falls_back() {
    assert_eq!(key_or_default(None, "q"), "q".to_string());
}

#[test]
fn args_default_is_empty() {
    let a = Args::default();
    assert_eq!(a.img, String::new());
    assert_eq!(a.config, None);
}
