use typeman::color_scheme::{ColorScheme, MyColor};

#[test]
fn all_lists_every_scheme_once() {
    let all = ColorScheme::all();
    assert_eq!(all.len(), 9);
    assert_eq!(all[0], ColorScheme::Default);
    assert_eq!(all[8], ColorScheme::Pink);
}

#[test]
fn names_are_shown_with_spaces() {
    assert_eq!(ColorScheme::OceanDark.name(), "Ocean Dark");
    assert_eq!(ColorScheme::ForestDark.name(), "Forest Dark");
    assert_eq!(ColorScheme::Monochrome.name(), "Monochrome");
}

#[test]
fn palette_values() {
    assert_eq!(ColorScheme::Default.main_color(), MyColor::new(255, 155, 0, 255));
    assert_eq!(ColorScheme::Pink.main_color(), MyColor::new(255, 20, 147, 255));
    assert_eq!(ColorScheme::Light.bg_color(), MyColor::new(250, 250, 250, 255));
    assert_eq!(ColorScheme::Ocean.incorrect_color(), MyColor::new(255, 0, 200, 255));
    assert_eq!(ColorScheme::Dark.corrected_color(), MyColor::new(100, 60, 0, 255));
    assert_eq!(ColorScheme::ForestDark.dimmer_main(), MyColor::new(150, 230, 100, 255));
    assert_eq!(ColorScheme::OceanDark.border_color(), MyColor::new(0, 50, 80, 255));
    assert_eq!(ColorScheme::Forest.ref_color(), MyColor::new(100, 150, 100, 255));
    assert_eq!(ColorScheme::Light.text_color(), MyColor::new(0, 0, 0, 255));
    assert_eq!(ColorScheme::Default.chart_color(), MyColor::new(150, 80, 0, 255));
    assert_eq!(ColorScheme::Light.correct_color(), MyColor::new(150, 200, 150, 255));
}

#[test]
fn default_scheme() {
    assert_eq!(ColorScheme::default(), ColorScheme::Default);
}
