use hi_nvim_rs::configuration::{
    Document, Highlight, Inverse, Lch, NamespacedThemeElement, Scalar, ThemeElement,
    ThemeElements, ThemeNamespaces,
};
use hi_nvim_rs::modifiers::{ColorModifiers, ColorStep};
use hi_nvim_rs::name_map::NameMap;
use hi_nvim_rs::styler::{
    all_variables, compile_target, escape, listed_variables, style, style_group, style_groups,
    Target,
};
use hi_nvim_rs::{Colorscheme, Error, Rgb8};

fn num(x: f32) -> Scalar {
    Scalar { bits: x.to_bits() }
}

fn lch(l: f32, c: f32, h: f32) -> Lch {
    Lch { lightness: num(l), chroma: num(c), hue: num(h) }
}

fn element(namespace: &'static str, name: &'static str) -> NamespacedThemeElement<'static> {
    NamespacedThemeElement { theme_namespace: namespace, element_name: name }
}

fn render(base: Lch, steps: &Vec<ColorStep>) -> Rgb8 {
    let mut l = f32::from_bits(base.lightness.bits);
    for step in steps {
        if let ColorStep::InvertLightness = step {
            l = 1.0 - l;
        }
    }
    Rgb8 {
        red: (l * 100.0).round() as u8,
        green: (f32::from_bits(base.chroma.bits) * 100.0).round() as u8,
        blue: f32::from_bits(base.hue.bits).round() as u8,
    }
}

fn document(kind: &'static str) -> Document<'static> {
    let mut ui: NameMap<ThemeElement> = NameMap::new();
    ui.insert("fg", ThemeElement::from("red"));
    ui.insert("bg", ThemeElement::from("night"));
    let mut themes: NameMap<ThemeElements> = NameMap::new();
    themes.insert("ui", ThemeElements(ui));
    let mut highlights = NameMap::new();
    let mut normal = Highlight::empty();
    normal.fg = Some(element("ui", "fg"));
    normal.bg = Some(element("ui", "bg"));
    normal.bold = Some(true);
    normal.italic = Some(true);
    normal.undercurl = Some(true);
    normal.strikethrough = Some(true);
    highlights.insert("Normal", normal);
    let mut tag = Highlight::empty();
    tag.fg = Some(element("ui", "fg"));
    tag.underline = Some(false);
    tag.underdashed = Some(true);
    highlights.insert("@tag.attribute", tag);
    let mut link = Highlight::empty();
    link.link = Some("Normal");
    link.bg = Some(element("ui", "fg"));
    highlights.insert("Linked", link);
    let mut lost = Highlight::empty();
    lost.link = Some("Nowhere");
    lost.fg = Some(element("ui", "fg"));
    highlights.insert("Lost", lost);
    highlights.insert("Plain", Highlight::empty());
    Document {
        name: "test",
        kind,
        inverse: Inverse { modifiers: ColorModifiers::default() },
        colors: vec![("red", lch(0.6, 0.2, 30.0)), ("night", lch(0.1, 0.01, 255.0))],
        hues: Vec::new(),
        groups: Vec::new(),
        themes: ThemeNamespaces(themes),
        highlights,
    }
}

fn scheme() -> Colorscheme<'static> {
    hi_nvim_rs::parse(document("dark"), &Vec::new(), render).unwrap()
}

const NORMAL: &str = "--Normal--fg: #3c141e; --Normal--bg: #0a01ff; --Normal--inverse-fg: #28141e; --Normal--inverse-bg: #5a01ff; --Normal--font-weight: 600; --Normal--font-style: italic; --Normal--text-decoration: underline wavy; ";

const LINKED: &str = "--Linked--fg: #3c141e; --Linked--bg: #0a01ff; --Linked--inverse-fg: #28141e; --Linked--inverse-bg: #5a01ff; --Linked--font-weight: 600; --Linked--font-style: italic; --Linked--text-decoration: underline wavy; ";

const TAG: &str = "--\\@tag\\.attribute--fg: #3c141e; --\\@tag\\.attribute--inverse-fg: #28141e; --\\@tag\\.attribute--text-decoration: underline dashed; ";

#[test]
fn names_are_escaped_for_css() {
    assert_eq!(escape("Normal"), "Normal");
    assert_eq!(escape("@tag.attribute"), "\\@tag\\.attribute");
    assert_eq!(escape(""), "");
    assert_eq!(escape("..@"), "\\.\\.\\@");
    assert_eq!(escape("é@日"), "é\\@日");
}

#[test]
fn a_group_has_its_colors_in_both_themes_and_its_styles() {
    let cs = scheme();
    let mut css = String::from("x");
    style_group(&mut css, "Normal", cs.highlight("Normal").unwrap(), &cs);
    assert_eq!(css, format!("x{}", NORMAL));
}

#[test]
fn a_group_that_links_shows_what_its_target_has() {
    let cs = scheme();
    let mut css = String::new();
    style_group(&mut css, "Linked", cs.highlight("Linked").unwrap(), &cs);
    assert_eq!(css, LINKED);
}

#[test]
fn a_group_that_links_to_no_group_shows_nothing() {
    let cs = scheme();
    let mut css = String::from("x");
    style_group(&mut css, "Lost", cs.highlight("Lost").unwrap(), &cs);
    assert_eq!(css, "x");
}

#[test]
fn a_group_that_sets_nothing_shows_nothing() {
    let cs = scheme();
    let mut css = String::new();
    style_group(&mut css, "Plain", cs.highlight("Plain").unwrap(), &cs);
    assert_eq!(css, "");
}

#[test]
fn one_decoration_only_and_none_that_is_switched_off() {
    let cs = scheme();
    let mut css = String::new();
    style_group(&mut css, "@tag.attribute", cs.highlight("@tag.attribute").unwrap(), &cs);
    assert_eq!(css, TAG);
    let mut h = Highlight::empty();
    h.strikethrough = Some(true);
    let mut css = String::new();
    style_group(&mut css, "S", h, &cs);
    assert_eq!(css, "--S--text-decoration: line-through; ");
    h.underdotted = Some(true);
    h.underdouble = Some(true);
    let mut css = String::new();
    style_group(&mut css, "S", h, &cs);
    assert_eq!(css, "--S--text-decoration: underline double; ");
    h.underdouble = None;
    let mut css = String::new();
    style_group(&mut css, "S", h, &cs);
    assert_eq!(css, "--S--text-decoration: underline dotted; ");
    h.underline = Some(true);
    let mut css = String::new();
    style_group(&mut css, "S", h, &cs);
    assert_eq!(css, "--S--text-decoration: underline; ");
}

#[test]
fn all_groups_come_in_the_order_of_their_names() {
    let cs = scheme();
    assert_eq!(all_variables(&cs), format!("{}{}{}", TAG, LINKED, NORMAL));
}

#[test]
fn listed_groups_come_in_the_order_of_the_list() {
    let cs = scheme();
    assert_eq!(
        listed_variables(&cs, &vec!["Normal", "@tag.attribute", "Gone", "Normal"]),
        format!("{}{}{}", NORMAL, TAG, NORMAL)
    );
    assert_eq!(listed_variables(&cs, &Vec::new()), "");
}

#[test]
fn style_compiles_and_styles() {
    let compiled = style(document("dark"), &Vec::new(), render, Target::Neovim).unwrap();
    assert_eq!(compiled.name, "test");
    assert_eq!(compiled.css_variables, format!("{}{}{}", TAG, LINKED, NORMAL));
    assert_eq!(
        compiled.compiled_colorscheme,
        hi_nvim_rs::compile_neovim(&compiled.colorscheme).unwrap()
    );
    assert!(compiled.compiled_colorscheme.contains("lua << EOF"));
}

#[test]
fn style_groups_compiles_and_styles_the_listed_groups() {
    let compiled =
        style_groups(document("dark"), &Vec::new(), render, &vec!["Linked"], Target::Vim).unwrap();
    assert_eq!(compiled.css_variables, LINKED);
    assert_eq!(
        compiled.compiled_colorscheme,
        hi_nvim_rs::compile_vim(&compiled.colorscheme).unwrap()
    );
    assert!(compiled.compiled_colorscheme.starts_with("hi clear\n"));
}

#[test]
fn the_written_colors_come_first_whatever_the_kind() {
    let compiled = style_groups(
        document("light"),
        &Vec::new(),
        render,
        &vec!["@tag.attribute"],
        Target::Neovim,
    )
    .unwrap();
    assert_eq!(compiled.css_variables, TAG);
    assert_eq!(
        compiled.colorscheme.light_theme().get_color(element("ui", "fg")),
        Some(Rgb8 { red: 60, green: 20, blue: 30 })
    );
}

#[test]
fn style_fails_as_parsing_fails() {
    assert!(matches!(
        style(document("grey"), &Vec::new(), render, Target::Neovim),
        Err(Error::InvalidKind)
    ));
    let mut doc = document("dark");
    let mut h = Highlight::empty();
    h.fg = Some(element("ui", "gone"));
    doc.highlights.insert("Broken", h);
    match style(doc, &Vec::new(), render, Target::Vim) {
        Err(Error::ThemeElementMissing(name)) => assert_eq!(name, "ui.gone"),
        _ => panic!("a missing theme element was expected"),
    }
}

#[test]
fn style_fails_where_the_script_cannot_hold_a_group() {
    let mut doc = document("dark");
    let mut h = Highlight::empty();
    h.link = Some("@gone");
    doc.highlights.insert("Broken", h);
    assert!(matches!(
        style(doc, &Vec::new(), render, Target::Vim),
        Err(Error::CompilationFailed)
    ));
    let mut doc = document("dark");
    doc.highlights.insert("Broken", h);
    assert!(style(doc, &Vec::new(), render, Target::Neovim).is_ok());
}

#[test]
fn compile_target_picks_the_compiler() {
    let cs = scheme();
    assert_eq!(compile_target(&cs, Target::Neovim).unwrap(), hi_nvim_rs::compile_neovim(&cs).unwrap());
    assert_eq!(compile_target(&cs, Target::Vim).unwrap(), hi_nvim_rs::compile_vim(&cs).unwrap());
}
