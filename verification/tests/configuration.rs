use hi_nvim_rs::configuration::{
    parse, ColorNamespace, Document, Highlight, HuesConfig, Inverse, Kind, Lch, NamespacedColor,
    NamespacedThemeElement, Palette, Scalar, ThemeElement, ThemeElements, ThemeNamespaces,
};
use hi_nvim_rs::error::Error;
use hi_nvim_rs::modifiers::ColorModifiers;
use hi_nvim_rs::name_map::NameMap;

fn num(x: f32) -> Scalar {
    Scalar { bits: x.to_bits() }
}

fn lch(l: f32, c: f32, h: f32) -> Lch {
    Lch { lightness: num(l), chroma: num(c), hue: num(h) }
}

fn document<'a>(kind: &'a str) -> Document<'a> {
    Document {
        name: "scheme",
        kind,
        inverse: Inverse { modifiers: ColorModifiers::default() },
        colors: vec![("red", lch(0.6, 0.2, 30.0))],
        hues: vec![("green", num(140.0)), ("blue", num(250.0))],
        groups: vec![
            ("fg", HuesConfig { lightness: num(0.8), chroma: num(0.1) }),
            ("bg", HuesConfig { lightness: num(0.3), chroma: num(0.05) }),
        ],
        themes: ThemeNamespaces(NameMap::new()),
        highlights: NameMap::new(),
    }
}

fn bold() -> Highlight<'static> {
    let mut h = Highlight::empty();
    h.bold = Some(true);
    h
}

fn italic() -> Highlight<'static> {
    let mut h = Highlight::empty();
    h.italic = Some(true);
    h
}

#[test]
fn kind_reads_light_and_dark_only() {
    assert!(matches!(Kind::try_from("light"), Ok(Kind::Light)));
    assert!(matches!(Kind::try_from("dark"), Ok(Kind::Dark)));
    assert!(matches!(Kind::try_from("Dark"), Err(Error::InvalidKind)));
    assert!(matches!(Kind::try_from(""), Err(Error::InvalidKind)));
    assert!(matches!(Kind::try_from("darker"), Err(Error::InvalidKind)));
}

#[test]
fn a_color_without_a_dot_is_in_the_flat_namespace() {
    let c = NamespacedColor::parse("red");
    assert!(matches!(c.namespace, ColorNamespace::Colors));
    assert_eq!(c.color_name, "red");
    assert_eq!(c.to_string(), "red");
}

#[test]
fn a_color_with_a_dot_is_in_a_group() {
    let c = NamespacedColor::parse("fg.green");
    assert!(matches!(c.namespace, ColorNamespace::Group("fg")));
    assert_eq!(c.color_name, "green");
    assert_eq!(c.to_string(), "fg.green");
    let d = NamespacedColor::parse("a.b.c");
    assert!(matches!(d.namespace, ColorNamespace::Group("a")));
    assert_eq!(d.color_name, "b.c");
}

#[test]
fn colors_are_the_same_by_namespace_and_name() {
    let a = NamespacedColor::parse("fg.green");
    let b = NamespacedColor::from_namespace_and_color_name(ColorNamespace::Group("fg"), "green");
    let c = NamespacedColor::parse("green");
    let d = NamespacedColor::parse("bg.green");
    assert!(a.same(&b));
    assert!(!a.same(&c));
    assert!(!a.same(&d));
    assert!(c.same(&NamespacedColor::parse("green")));
}

#[test]
fn a_theme_element_needs_a_dot() {
    let e = NamespacedThemeElement::parse("syn.type").unwrap();
    assert_eq!(e.theme_namespace, "syn");
    assert_eq!(e.element_name, "type");
    assert_eq!(e.to_string(), "syn.type");
    let f = NamespacedThemeElement::parse("ui.fg.dim").unwrap();
    assert_eq!(f.theme_namespace, "ui");
    assert_eq!(f.element_name, "fg.dim");
    assert!(NamespacedThemeElement::parse("type").is_none());
    assert!(NamespacedThemeElement::parse("").is_none());
}

#[test]
fn a_bare_text_is_a_theme_element_without_modifiers() {
    let e = ThemeElement::from("fg.green");
    assert!(matches!(e.color.namespace, ColorNamespace::Group("fg")));
    assert_eq!(e.color.color_name, "green");
    assert!(e.modifiers.saturate.is_none());
    assert!(e.modifiers.gamma.is_none());
    assert!(e.modifiers.lighten.is_none());
    assert!(e.modifiers.lighten_multiplier.is_none());
    assert!(e.modifiers.lighten_absolute.is_none());
    assert!(e.modifiers.mix.is_none());
}

#[test]
fn the_empty_highlight_sets_nothing() {
    let h = Highlight::empty();
    assert!(h.fg.is_none() && h.bg.is_none() && h.sp.is_none() && h.link.is_none());
    assert!(h.gui_styles_iter().is_empty());
}

#[test]
fn styles_come_in_the_order_of_the_scripts() {
    let mut h = Highlight::empty();
    h.nocombine = Some(true);
    h.reverse = Some(true);
    h.strikethrough = Some(true);
    h.underdotted = Some(true);
    h.underdashed = Some(true);
    h.underdouble = Some(true);
    h.undercurl = Some(true);
    h.underline = Some(true);
    h.italic = Some(true);
    h.bold = Some(true);
    assert_eq!(
        h.gui_styles_iter(),
        vec![
            "bold",
            "italic",
            "underline",
            "undercurl",
            "underdouble",
            "underdashed",
            "underdotted",
            "strikethrough",
            "reverse",
            "nocombine"
        ]
    );
}

#[test]
fn a_style_that_is_switched_off_is_not_listed() {
    let mut h = Highlight::empty();
    h.bold = Some(false);
    h.italic = Some(true);
    h.reverse = None;
    assert_eq!(h.gui_styles_iter(), vec!["italic"]);
}

#[test]
fn the_palette_holds_the_listed_colors() {
    let config = parse(document("dark"), &Vec::new()).unwrap();
    assert_eq!(config.get_color(NamespacedColor::parse("red")), Some(lch(0.6, 0.2, 30.0)));
    assert_eq!(config.get_color(NamespacedColor::parse("green")), None);
    assert_eq!(config.get_color(NamespacedColor::parse("pink")), None);
}

#[test]
fn the_palette_holds_each_hue_in_each_group() {
    let config = parse(document("dark"), &Vec::new()).unwrap();
    assert_eq!(config.get_color(NamespacedColor::parse("fg.green")), Some(lch(0.8, 0.1, 140.0)));
    assert_eq!(config.get_color(NamespacedColor::parse("fg.blue")), Some(lch(0.8, 0.1, 250.0)));
    assert_eq!(config.get_color(NamespacedColor::parse("bg.green")), Some(lch(0.3, 0.05, 140.0)));
    assert_eq!(config.get_color(NamespacedColor::parse("bg.blue")), Some(lch(0.3, 0.05, 250.0)));
    assert_eq!(config.get_color(NamespacedColor::parse("fg.red")), None);
    assert_eq!(config.get_color(NamespacedColor::parse("ui.green")), None);
}

#[test]
fn the_last_of_two_entries_of_one_name_counts() {
    let palette = Palette {
        colors: vec![("red", lch(0.1, 0.1, 1.0)), ("red", lch(0.2, 0.2, 2.0))],
        hues: Vec::new(),
        groups: Vec::new(),
    };
    assert_eq!(palette.get(NamespacedColor::parse("red")), Some(lch(0.2, 0.2, 2.0)));
}

#[test]
fn parse_keeps_name_and_kind() {
    let config = parse(document("light"), &Vec::new()).unwrap();
    assert_eq!(config.name, "scheme");
    assert_eq!(config.kind, Kind::Light);
    let config = parse(document("dark"), &Vec::new()).unwrap();
    assert_eq!(config.kind, Kind::Dark);
}

#[test]
fn parse_refuses_another_kind() {
    assert!(matches!(parse(document("grey"), &Vec::new()), Err(Error::InvalidKind)));
}

#[test]
fn built_in_groups_fill_the_gaps() {
    let mut doc = document("dark");
    doc.highlights.insert("Normal", bold());
    let defaults = vec![("Normal", italic()), ("Comment", italic()), ("Comment", bold())];
    let config = parse(doc, &defaults).unwrap();
    assert_eq!(config.highlights.len(), 2);
    let normal = config.highlights.get("Normal").unwrap();
    assert_eq!(normal.bold, Some(true));
    assert_eq!(normal.italic, None);
    let comment = config.highlights.get("Comment").unwrap();
    assert_eq!(comment.italic, Some(true));
    assert_eq!(comment.bold, None);
    assert_eq!(config.highlights.name_at(0), "Comment");
    assert_eq!(config.highlights.name_at(1), "Normal");
}

#[test]
fn parse_keeps_the_themes() {
    let mut doc = document("dark");
    let mut ui = NameMap::new();
    ui.insert("fg", ThemeElement::from("red"));
    doc.themes.0.insert("ui", ThemeElements(ui));
    let config = parse(doc, &Vec::new()).unwrap();
    assert_eq!(config.themes.0.len(), 1);
    assert_eq!(config.themes.0.name_at(0), "ui");
    assert_eq!(config.themes.0.value_at(0).0.name_at(0), "fg");
    assert_eq!(config.themes.0.value_at(0).0.value_at(0).color.color_name, "red");
}
