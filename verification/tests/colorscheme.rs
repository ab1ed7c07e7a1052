use hi_nvim_rs::colorscheme::{parse, resolve, Colorscheme, Rgb8};
use hi_nvim_rs::configuration::{
    Configuration, Document, Highlight, HuesConfig, Inverse, Kind, Lch, NamespacedColor,
    NamespacedThemeElement, Palette, Scalar, ThemeElement, ThemeElements, ThemeNamespaces,
};
use hi_nvim_rs::error::Error;
use hi_nvim_rs::modifiers::{ColorModifiers, ColorStep};
use hi_nvim_rs::name_map::NameMap;

fn num(x: f32) -> Scalar {
    Scalar { bits: x.to_bits() }
}

fn value(x: Scalar) -> f32 {
    f32::from_bits(x.bits)
}

fn lch(l: f32, c: f32, h: f32) -> Lch {
    Lch { lightness: num(l), chroma: num(c), hue: num(h) }
}

fn element(namespace: &'static str, name: &'static str) -> NamespacedThemeElement<'static> {
    NamespacedThemeElement { theme_namespace: namespace, element_name: name }
}

/// Takes the steps on the lightness and the chroma and shows the outcome in hundredths.
fn render(base: Lch, steps: &Vec<ColorStep>) -> Rgb8 {
    let mut l = value(base.lightness);
    let mut c = value(base.chroma);
    let h = value(base.hue);
    for step in steps {
        match step {
            ColorStep::Mix { color, factor } => {
                l = l + (value(color.lightness) - l) * value(*factor);
            }
            ColorStep::Saturate(x) => c += value(*x),
            ColorStep::Gamma(x) => l = l.powf(value(*x)),
            ColorStep::Lighten(x) => l += (1.0 - l) * value(*x),
            ColorStep::LightenMultiplier(x) => l *= value(*x),
            ColorStep::LightenAbsolute(x) => l += value(*x),
            ColorStep::InvertLightness => l = 1.0 - l,
        }
    }
    Rgb8 {
        red: (l * 100.0).round() as u8,
        green: (c * 100.0).round() as u8,
        blue: h.round() as u8,
    }
}

fn themes<'a>(entries: &[(&'a str, &'a str, ThemeElement<'a>)]) -> ThemeNamespaces<'a> {
    let mut namespaces: NameMap<'a, ThemeElements<'a>> = NameMap::new();
    for (namespace, _, _) in entries {
        let mut elements: NameMap<'a, ThemeElement<'a>> = NameMap::new();
        for (other, name, element) in entries {
            if other == namespace {
                elements.insert(*name, *element);
            }
        }
        namespaces.insert(*namespace, ThemeElements(elements));
    }
    ThemeNamespaces(namespaces)
}

fn configuration<'a>(
    kind: Kind,
    themes: ThemeNamespaces<'a>,
    highlights: NameMap<'a, Highlight<'a>>,
) -> Configuration<'a> {
    Configuration {
        name: "scheme",
        kind,
        inverse: Inverse { modifiers: ColorModifiers::default() },
        colors: Palette {
            colors: vec![("red", lch(0.6, 0.2, 30.0)), ("grey", lch(0.5, 0.0, 0.0))],
            hues: vec![("green", num(140.0))],
            groups: vec![("fg", HuesConfig { lightness: num(0.8), chroma: num(0.1) })],
        },
        themes,
        highlights,
    }
}

fn one_group<'a>(name: &'a str, h: Highlight<'a>) -> NameMap<'a, Highlight<'a>> {
    let mut map = NameMap::new();
    map.insert(name, h);
    map
}

fn with_fg(namespace: &'static str, name: &'static str) -> Highlight<'static> {
    let mut h = Highlight::empty();
    h.fg = Some(element(namespace, name));
    h
}

fn red_scheme(kind: Kind) -> Colorscheme<'static> {
    let themes = themes(&[("ui", "fg", ThemeElement::from("red"))]);
    resolve(configuration(kind, themes, one_group("Normal", with_fg("ui", "fg"))), render).unwrap()
}

#[test]
fn a_dark_scheme_has_the_written_color_in_the_dark_theme() {
    let cs = red_scheme(Kind::Dark);
    assert_eq!(cs.name(), "scheme");
    assert_eq!(cs.kind(), Kind::Dark);
    let direct = render(lch(0.6, 0.2, 30.0), &Vec::new());
    let flipped = render(lch(0.4, 0.2, 30.0), &Vec::new());
    assert_eq!(direct, Rgb8 { red: 60, green: 20, blue: 30 });
    assert_eq!(flipped, Rgb8 { red: 40, green: 20, blue: 30 });
    assert_eq!(cs.dark_theme().get_color(element("ui", "fg")), Some(direct));
    assert_eq!(cs.light_theme().get_color(element("ui", "fg")), Some(flipped));
    assert_eq!(cs.get_color(element("ui", "fg")), Some(direct));
    assert_eq!(cs.get_inverse_color(element("ui", "fg")), Some(flipped));
}

#[test]
fn a_light_scheme_has_the_written_color_in_the_light_theme() {
    let cs = red_scheme(Kind::Light);
    assert_eq!(cs.kind(), Kind::Light);
    assert_eq!(
        cs.light_theme().get_color(element("ui", "fg")),
        Some(Rgb8 { red: 60, green: 20, blue: 30 })
    );
    assert_eq!(
        cs.dark_theme().get_color(element("ui", "fg")),
        Some(Rgb8 { red: 40, green: 20, blue: 30 })
    );
    assert_eq!(cs.get_color(element("ui", "fg")), Some(Rgb8 { red: 60, green: 20, blue: 30 }));
    assert_eq!(
        cs.get_inverse_color(element("ui", "fg")),
        Some(Rgb8 { red: 40, green: 20, blue: 30 })
    );
}

#[test]
fn a_theme_lacks_what_was_not_configured() {
    let cs = red_scheme(Kind::Dark);
    assert_eq!(cs.get_color(element("ui", "bg")), None);
    assert_eq!(cs.get_color(element("syn", "fg")), None);
    assert_eq!(cs.get_inverse_color(element("syn", "fg")), None);
}

#[test]
fn render_is_given_the_steps_of_the_element_and_then_those_of_the_inverse() {
    let mut modifiers = ColorModifiers::default();
    modifiers.lighten_absolute = Some(num(0.1));
    modifiers.mix = Some((NamespacedColor::parse("grey"), num(0.5)));
    let element_here = ThemeElement { color: NamespacedColor::parse("fg.green"), modifiers };
    let mut inverse = ColorModifiers::default();
    inverse.saturate = Some(num(0.05));
    inverse.lighten_multiplier = Some(num(2.0));
    let mut config =
        configuration(Kind::Dark, themes(&[("syn", "type", element_here)]), NameMap::new());
    config.inverse = Inverse { modifiers: inverse };
    let seen = std::cell::RefCell::new(Vec::new());
    let cs = resolve(config, |base: Lch, steps: &Vec<ColorStep>| {
        seen.borrow_mut().push((base, steps.clone()));
        render(base, steps)
    })
    .unwrap();
    let seen = seen.into_inner();
    let own = vec![
        ColorStep::Mix { color: lch(0.5, 0.0, 0.0), factor: num(0.5) },
        ColorStep::LightenAbsolute(num(0.1)),
    ];
    let mut opposite = own.clone();
    opposite.push(ColorStep::InvertLightness);
    opposite.push(ColorStep::Saturate(num(0.05)));
    opposite.push(ColorStep::LightenMultiplier(num(2.0)));
    assert_eq!(seen, vec![(lch(0.8, 0.1, 140.0), own), (lch(0.8, 0.1, 140.0), opposite)]);
    // 0.8 mixed half-way with 0.5 is 0.65, plus 0.1 is 0.75; flipped 0.25, doubled 0.5.
    assert_eq!(
        cs.dark_theme().get_color(element("syn", "type")),
        Some(Rgb8 { red: 75, green: 10, blue: 140 })
    );
    assert_eq!(
        cs.light_theme().get_color(element("syn", "type")),
        Some(Rgb8 { red: 50, green: 15, blue: 140 })
    );
}

#[test]
fn a_missing_color_fails() {
    let themes = themes(&[("ui", "bg", ThemeElement::from("red")), ("ui", "fg", ThemeElement::from("blue"))]);
    match resolve(configuration(Kind::Dark, themes, NameMap::new()), render) {
        Err(Error::ColorMissing(name)) => assert_eq!(name, "blue"),
        _ => panic!("a missing colour was expected"),
    }
}

#[test]
fn the_first_missing_color_is_reported() {
    let themes = themes(&[
        ("ui", "a", ThemeElement::from("fg.pink")),
        ("syn", "z", ThemeElement::from("nothing")),
    ]);
    match resolve(configuration(Kind::Dark, themes, NameMap::new()), render) {
        Err(Error::ColorMissing(name)) => assert_eq!(name, "nothing"),
        _ => panic!("a missing colour was expected"),
    }
}

#[test]
fn a_missing_mix_color_fails() {
    let mut modifiers = ColorModifiers::default();
    modifiers.mix = Some((NamespacedColor::parse("bg.green"), num(0.5)));
    let themes = themes(&[("ui", "fg", ThemeElement { color: NamespacedColor::parse("red"), modifiers })]);
    match resolve(configuration(Kind::Dark, themes, NameMap::new()), render) {
        Err(Error::ColorMissing(name)) => assert_eq!(name, "bg.green"),
        _ => panic!("a missing colour was expected"),
    }
}

#[test]
fn a_missing_mix_color_of_the_inverse_fails_where_there_is_an_element() {
    let mut inverse = ColorModifiers::default();
    inverse.mix = Some((NamespacedColor::parse("white"), num(0.5)));
    let mut config = configuration(
        Kind::Dark,
        themes(&[("ui", "fg", ThemeElement::from("red"))]),
        NameMap::new(),
    );
    config.inverse = Inverse { modifiers: inverse };
    match resolve(config, render) {
        Err(Error::ColorMissing(name)) => assert_eq!(name, "white"),
        _ => panic!("a missing colour was expected"),
    }
    let mut empty = configuration(Kind::Dark, ThemeNamespaces(NameMap::new()), NameMap::new());
    empty.inverse = Inverse { modifiers: inverse };
    assert!(resolve(empty, render).is_ok());
}

#[test]
fn a_missing_theme_element_fails() {
    let themes = themes(&[("ui", "fg", ThemeElement::from("red"))]);
    let mut h = with_fg("ui", "fg");
    h.bg = Some(element("ui", "bg"));
    match resolve(configuration(Kind::Dark, themes, one_group("Normal", h)), render) {
        Err(Error::ThemeElementMissing(name)) => assert_eq!(name, "ui.bg"),
        _ => panic!("a missing theme element was expected"),
    }
}

#[test]
fn a_missing_special_color_fails() {
    let themes = themes(&[("ui", "fg", ThemeElement::from("red"))]);
    let mut h = with_fg("ui", "fg");
    h.sp = Some(element("diag", "error"));
    match resolve(configuration(Kind::Light, themes, one_group("Normal", h)), render) {
        Err(Error::ThemeElementMissing(name)) => assert_eq!(name, "diag.error"),
        _ => panic!("a missing theme element was expected"),
    }
}

#[test]
fn the_foreground_is_checked_before_the_background() {
    let mut h = with_fg("x", "fg");
    h.bg = Some(element("x", "bg"));
    let mut groups = one_group("B", h);
    groups.insert("C", with_fg("first", "one"));
    match resolve(configuration(Kind::Dark, ThemeNamespaces(NameMap::new()), groups), render) {
        Err(Error::ThemeElementMissing(name)) => assert_eq!(name, "x.fg"),
        _ => panic!("a missing theme element was expected"),
    }
}

#[test]
fn a_link_cycle_fails_before_anything_else() {
    let themes = themes(&[("ui", "fg", ThemeElement::from("nothing"))]);
    let mut h = with_fg("no", "where");
    h.link = Some("Loop");
    match resolve(configuration(Kind::Dark, themes, one_group("Loop", h)), render) {
        Err(Error::LinkCycle(name)) => assert_eq!(name, "Loop"),
        _ => panic!("a link cycle was expected"),
    }
}

#[test]
fn a_missing_color_fails_before_a_missing_theme_element() {
    let themes = themes(&[("ui", "fg", ThemeElement::from("nothing"))]);
    match resolve(configuration(Kind::Dark, themes, one_group("Normal", with_fg("no", "where"))), render)
    {
        Err(Error::ColorMissing(name)) => assert_eq!(name, "nothing"),
        _ => panic!("a missing colour was expected"),
    }
}

#[test]
fn resolving_reduces_the_links() {
    let mut groups = one_group("C", with_fg("ui", "fg"));
    let mut a = Highlight::empty();
    a.link = Some("B");
    let mut b = Highlight::empty();
    b.link = Some("C");
    groups.insert("A", a);
    groups.insert("B", b);
    let themes = themes(&[("ui", "fg", ThemeElement::from("red"))]);
    let cs = resolve(configuration(Kind::Dark, themes, groups), render).unwrap();
    assert_eq!(cs.highlight("A").unwrap().link, Some("C"));
    assert_eq!(cs.highlight("B").unwrap().link, Some("C"));
    assert_eq!(cs.highlight("C").unwrap().link, None);
    assert!(cs.highlight("D").is_none());
    let listed: Vec<(&str, Option<&str>)> =
        cs.highlights().into_iter().map(|(name, h)| (name, h.link)).collect();
    assert_eq!(listed, vec![("A", Some("C")), ("B", Some("C")), ("C", None)]);
}

#[test]
fn parse_goes_from_the_document_to_the_color_scheme() {
    let mut highlights = NameMap::new();
    highlights.insert("Normal", with_fg("ui", "fg"));
    let document = Document {
        name: "red",
        kind: "dark",
        inverse: Inverse { modifiers: ColorModifiers::default() },
        colors: vec![("red", lch(0.6, 0.2, 30.0))],
        hues: Vec::new(),
        groups: Vec::new(),
        themes: themes(&[("ui", "fg", ThemeElement::from("red"))]),
        highlights,
    };
    let mut comment = Highlight::empty();
    comment.italic = Some(true);
    let defaults = vec![("Comment", comment), ("Normal", Highlight::empty())];
    let cs = parse(document, &defaults, render).unwrap();
    assert_eq!(cs.name(), "red");
    assert_eq!(cs.kind(), Kind::Dark);
    assert_eq!(cs.dark_theme().get_color(element("ui", "fg")), Some(Rgb8 { red: 60, green: 20, blue: 30 }));
    assert_eq!(cs.light_theme().get_color(element("ui", "fg")), Some(Rgb8 { red: 40, green: 20, blue: 30 }));
    assert_eq!(cs.highlight("Normal").unwrap().fg.unwrap().element_name, "fg");
    assert_eq!(cs.highlight("Comment").unwrap().italic, Some(true));
    assert_eq!(cs.groups().len(), 2);
}

#[test]
fn parse_refuses_another_kind_first() {
    let mut highlights = NameMap::new();
    let mut looped = Highlight::empty();
    looped.link = Some("Loop");
    highlights.insert("Loop", looped);
    let document = Document {
        name: "red",
        kind: "Dark",
        inverse: Inverse { modifiers: ColorModifiers::default() },
        colors: Vec::new(),
        hues: Vec::new(),
        groups: Vec::new(),
        themes: ThemeNamespaces(NameMap::new()),
        highlights,
    };
    assert!(matches!(parse(document, &Vec::new(), render), Err(Error::InvalidKind)));
}

#[test]
fn a_color_is_written_as_six_hexadecimal_digits() {
    assert_eq!(Rgb8 { red: 0, green: 109, blue: 145 }.to_string(), "#006d91");
    assert_eq!(Rgb8 { red: 255, green: 255, blue: 255 }.to_string(), "#ffffff");
    assert_eq!(Rgb8 { red: 1, green: 16, blue: 171 }.to_string(), "#0110ab");
}
