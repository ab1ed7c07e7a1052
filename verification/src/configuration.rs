//! The configuration of a colour scheme: the records that a configuration document is read
//! into, and what they turn into before colours are resolved.

use crate::error::Error;
use crate::modifiers::{ColorModifiers, ColorModifiersView};
use crate::name_map::{inserted_if_absent, lemma_inserted, lookup, sorted, NameMap};
use crate::text::{after_dot, before_dot, has_dot, rank, split_at_dot, Rank};
use vstd::prelude::*;

verus! {

/// Whether a colour scheme is written as a light theme or as a dark one.
#[derive(Clone, Copy, Debug, PartialEq, Eq, Structural)]
pub enum Kind {
    Light,
    Dark,
}

/// A real number of the colour computations, held as the bit pattern of an IEEE 754
/// single-precision value. The library carries such numbers and never computes with them.
#[derive(Clone, Copy, Debug, PartialEq, Eq, Structural)]
pub struct Scalar {
    pub bits: u32,
}

/// A colour in the Oklch space: lightness, chroma and hue.
#[derive(Clone, Copy, Debug, PartialEq, Eq, Structural)]
pub struct Lch {
    pub lightness: Scalar,
    pub chroma: Scalar,
    pub hue: Scalar,
}

/// The lightness and chroma that a group gives to each hue.
#[derive(Clone, Copy, Debug, PartialEq, Eq, Structural)]
pub struct HuesConfig {
    pub lightness: Scalar,
    pub chroma: Scalar,
}

/// The kind that a word names.
pub open spec fn kind_of(word: Seq<char>) -> Option<Kind> {
    if word == "light"@ {
        Some(Kind::Light)
    } else if word == "dark"@ {
        Some(Kind::Dark)
    } else {
        None
    }
}

impl Kind {
    /// Reads a kind: `light` or `dark`, and nothing else.
    pub fn try_from(value: &str) -> (r: Result<Kind, Error>)
        ensures
            match kind_of(value@) {
                Some(kind) => r == Ok::<Kind, Error>(kind),
                None => r matches Err(Error::InvalidKind),
            },
    {
        if rank(value, "light") == Rank::Same {
            Ok(Kind::Light)
        } else if rank(value, "dark") == Rank::Same {
            Ok(Kind::Dark)
        } else {
            Err(Error::InvalidKind)
        }
    }
}

/// The namespaces of colours.
#[derive(Clone, Copy, Debug)]
pub enum ColorNamespace<'a> {
    /// The colours that the configuration lists one by one.
    Colors,
    /// The colours that a group makes of the hues.
    Group(&'a str),
}

/// A colour in a colour namespace (`fg.green` is `green` in the group `fg`).
#[derive(Clone, Copy, Debug)]
pub struct NamespacedColor<'a> {
    pub namespace: ColorNamespace<'a>,
    pub color_name: &'a str,
}

/// A [`NamespacedColor`] as mathematics: the group, if any, and the name.
pub struct NamespacedColorView {
    pub namespace: Option<Seq<char>>,
    pub color_name: Seq<char>,
}

impl<'a> View for NamespacedColor<'a> {
    type V = NamespacedColorView;

    open spec fn view(&self) -> NamespacedColorView {
        NamespacedColorView {
            namespace: match self.namespace {
                ColorNamespace::Colors => None,
                ColorNamespace::Group(group) => Some(group@),
            },
            color_name: self.color_name@,
        }
    }
}

/// The colour that a text names: what stands before its first `.` is the group, and a text
/// without a `.` names a colour of the flat namespace.
pub open spec fn color_of_text(s: Seq<char>) -> NamespacedColorView {
    if has_dot(s) {
        NamespacedColorView { namespace: Some(before_dot(s)), color_name: after_dot(s) }
    } else {
        NamespacedColorView { namespace: None, color_name: s }
    }
}

/// The text that names a colour.
pub open spec fn color_text(c: NamespacedColorView) -> Seq<char> {
    match c.namespace {
        Some(group) => group + "."@ + c.color_name,
        None => c.color_name,
    }
}

impl<'a> NamespacedColor<'a> {
    /// The colour of a name in a namespace.
    pub fn from_namespace_and_color_name(namespace: ColorNamespace<'a>, color_name: &'a str) -> (r:
        Self)
        ensures
            r.namespace == namespace,
            r.color_name == color_name,
    {
        NamespacedColor { namespace, color_name }
    }

    /// Reads a colour from its text.
    pub fn parse(s: &'a str) -> (r: Self)
        ensures
            r@ == color_of_text(s@),
    {
        match split_at_dot(s) {
            Some((group, color_name)) => NamespacedColor {
                namespace: ColorNamespace::Group(group),
                color_name,
            },
            None => NamespacedColor { namespace: ColorNamespace::Colors, color_name: s },
        }
    }

    /// Whether two colours are the same: the same namespace and the same name.
    pub fn same(&self, other: &NamespacedColor<'_>) -> (r: bool)
        ensures
            r == (self@ == other@),
    {
        let same_namespace = match (self.namespace, other.namespace) {
            (ColorNamespace::Colors, ColorNamespace::Colors) => true,
            (ColorNamespace::Group(a), ColorNamespace::Group(b)) => rank(a, b) == Rank::Same,
            _ => false,
        };
        same_namespace && rank(self.color_name, other.color_name) == Rank::Same
    }

    /// The text that names this colour.
    pub fn to_string(&self) -> (r: String)
        ensures
            r@ == color_text(self@),
    {
        match self.namespace {
            ColorNamespace::Colors => String::from_str(self.color_name),
            ColorNamespace::Group(group) => {
                let mut r = String::from_str(group);
                r.append(".");
                r.append(self.color_name);
                r
            },
        }
    }
}

/// An element in a theme namespace (`syn.type` is `type` in the namespace `syn`). It stands
/// for one colour of a theme.
#[derive(Clone, Copy, Debug)]
pub struct NamespacedThemeElement<'a> {
    pub theme_namespace: &'a str,
    pub element_name: &'a str,
}

/// A [`NamespacedThemeElement`] as mathematics.
pub struct NamespacedThemeElementView {
    pub theme_namespace: Seq<char>,
    pub element_name: Seq<char>,
}

impl<'a> View for NamespacedThemeElement<'a> {
    type V = NamespacedThemeElementView;

    open spec fn view(&self) -> NamespacedThemeElementView {
        NamespacedThemeElementView {
            theme_namespace: self.theme_namespace@,
            element_name: self.element_name@,
        }
    }
}

/// The text that names a theme element.
pub open spec fn theme_element_text(e: NamespacedThemeElementView) -> Seq<char> {
    e.theme_namespace + "."@ + e.element_name
}

impl<'a> NamespacedThemeElement<'a> {
    /// Reads a theme element from its text, which must hold a `.`: the namespace stands
    /// before the first one, the element's name after it.
    pub fn parse(s: &'a str) -> (r: Option<Self>)
        ensures
            r is Some <==> has_dot(s@),
            r matches Some(e) ==> e@ == (NamespacedThemeElementView {
                theme_namespace: before_dot(s@),
                element_name: after_dot(s@),
            }),
    {
        match split_at_dot(s) {
            Some((theme_namespace, element_name)) => Some(
                NamespacedThemeElement { theme_namespace, element_name },
            ),
            None => None,
        }
    }

    /// The text that names this theme element.
    pub fn to_string(&self) -> (r: String)
        ensures
            r@ == theme_element_text(self@),
    {
        let mut r = String::from_str(self.theme_namespace);
        r.append(".");
        r.append(self.element_name);
        r
    }
}

/// A highlight group.
///
/// `fg`, `bg` and `sp` name colours of the theme. Where `link` is set the group takes
/// everything from the group it links to, and the other fields count for nothing. The
/// remaining fields are the styles of the text.
#[derive(Clone, Copy, Debug)]
pub struct Highlight<'a> {
    /// The theme colour of the foreground (`syn.function`, `ui.fg_dim`).
    pub fg: Option<NamespacedThemeElement<'a>>,
    /// The theme colour of the background (`diff.removed`, `ui.bg_gutter`).
    pub bg: Option<NamespacedThemeElement<'a>>,
    /// The theme colour of underlines and the like (`diagnostics.error`).
    pub sp: Option<NamespacedThemeElement<'a>>,
    /// The group from which this one takes everything.
    pub link: Option<&'a str>,
    pub bold: Option<bool>,
    pub italic: Option<bool>,
    pub underline: Option<bool>,
    pub undercurl: Option<bool>,
    pub underdouble: Option<bool>,
    pub underdotted: Option<bool>,
    pub underdashed: Option<bool>,
    pub strikethrough: Option<bool>,
    pub reverse: Option<bool>,
    pub nocombine: Option<bool>,
}

/// A [`Highlight`] as mathematics.
pub struct HighlightView {
    pub fg: Option<NamespacedThemeElementView>,
    pub bg: Option<NamespacedThemeElementView>,
    pub sp: Option<NamespacedThemeElementView>,
    pub link: Option<Seq<char>>,
    pub bold: Option<bool>,
    pub italic: Option<bool>,
    pub underline: Option<bool>,
    pub undercurl: Option<bool>,
    pub underdouble: Option<bool>,
    pub underdotted: Option<bool>,
    pub underdashed: Option<bool>,
    pub strikethrough: Option<bool>,
    pub reverse: Option<bool>,
    pub nocombine: Option<bool>,
}

/// The view of an optional theme element.
pub open spec fn element_view(e: Option<NamespacedThemeElement<'_>>) -> Option<
    NamespacedThemeElementView,
> {
    match e {
        Some(e) => Some(e@),
        None => None,
    }
}

/// The view of an optional name.
pub open spec fn name_view(s: Option<&str>) -> Option<Seq<char>> {
    match s {
        Some(s) => Some(s@),
        None => None,
    }
}

impl<'a> View for Highlight<'a> {
    type V = HighlightView;

    open spec fn view(&self) -> HighlightView {
        HighlightView {
            fg: element_view(self.fg),
            bg: element_view(self.bg),
            sp: element_view(self.sp),
            link: name_view(self.link),
            bold: self.bold,
            italic: self.italic,
            underline: self.underline,
            undercurl: self.undercurl,
            underdouble: self.underdouble,
            underdotted: self.underdotted,
            underdashed: self.underdashed,
            strikethrough: self.strikethrough,
            reverse: self.reverse,
            nocombine: self.nocombine,
        }
    }
}

/// The highlight group that sets nothing.
pub open spec fn empty_highlight() -> HighlightView {
    HighlightView {
        fg: None,
        bg: None,
        sp: None,
        link: None,
        bold: None,
        italic: None,
        underline: None,
        undercurl: None,
        underdouble: None,
        underdotted: None,
        underdashed: None,
        strikethrough: None,
        reverse: None,
        nocombine: None,
    }
}

/// The name of a style, where the style is switched on.
pub open spec fn style_if(flag: Option<bool>, name: Seq<char>) -> Seq<Seq<char>> {
    if flag == Some(true) {
        seq![name]
    } else {
        Seq::empty()
    }
}

/// The names of the styles that a highlight group switches on, in the order in which the
/// scripts list them.
pub open spec fn gui_styles(h: HighlightView) -> Seq<Seq<char>> {
    style_if(h.bold, "bold"@) + style_if(h.italic, "italic"@) + style_if(
        h.underline,
        "underline"@,
    ) + style_if(h.undercurl, "undercurl"@) + style_if(h.underdouble, "underdouble"@) + style_if(
        h.underdashed,
        "underdashed"@,
    ) + style_if(h.underdotted, "underdotted"@) + style_if(h.strikethrough, "strikethrough"@)
        + style_if(h.reverse, "reverse"@) + style_if(h.nocombine, "nocombine"@)
}

/// The texts of a list of names.
pub open spec fn texts(names: Seq<&str>) -> Seq<Seq<char>> {
    Seq::new(names.len(), |i: int| names[i]@)
}

/// Adds the name of a style to a list, where the style is switched on.
fn push_style(styles: &mut Vec<&'static str>, flag: Option<bool>, name: &'static str)
    ensures
        texts(final(styles)@) == texts(old(styles)@) + style_if(flag, name@),
{
    match flag {
        Some(true) => {
            styles.push(name);
        },
        _ => {},
    }
}

impl<'a> Highlight<'a> {
    /// The highlight group that sets nothing.
    pub fn empty() -> (r: Self)
        ensures
            r@ == empty_highlight(),
    {
        Highlight {
            fg: None,
            bg: None,
            sp: None,
            link: None,
            bold: None,
            italic: None,
            underline: None,
            undercurl: None,
            underdouble: None,
            underdotted: None,
            underdashed: None,
            strikethrough: None,
            reverse: None,
            nocombine: None,
        }
    }

    /// The names of the styles that this group switches on.
    pub fn gui_styles_iter(&self) -> (r: Vec<&'static str>)
        ensures
            texts(r@) == gui_styles(self@),
    {
        let mut styles: Vec<&'static str> = Vec::new();
        push_style(&mut styles, self.bold, "bold");
        push_style(&mut styles, self.italic, "italic");
        push_style(&mut styles, self.underline, "underline");
        push_style(&mut styles, self.undercurl, "undercurl");
        push_style(&mut styles, self.underdouble, "underdouble");
        push_style(&mut styles, self.underdashed, "underdashed");
        push_style(&mut styles, self.underdotted, "underdotted");
        push_style(&mut styles, self.strikethrough, "strikethrough");
        push_style(&mut styles, self.reverse, "reverse");
        push_style(&mut styles, self.nocombine, "nocombine");
        styles
    }
}

/// The modifiers that turn each colour of the written theme into its counterpart in the
/// opposite theme, once its lightness has been flipped.
#[derive(Clone, Copy, Debug)]
pub struct Inverse<'a> {
    pub modifiers: ColorModifiers<'a>,
}

/// One element of a theme: a colour of the palette and what is done to it.
#[derive(Clone, Copy, Debug)]
pub struct ThemeElement<'a> {
    pub color: NamespacedColor<'a>,
    pub modifiers: ColorModifiers<'a>,
}

/// A [`ThemeElement`] as mathematics.
pub struct ThemeElementView {
    pub color: NamespacedColorView,
    pub modifiers: ColorModifiersView,
}

impl<'a> View for Inverse<'a> {
    type V = ColorModifiersView;

    open spec fn view(&self) -> ColorModifiersView {
        self.modifiers@
    }
}

impl<'a> View for ThemeElement<'a> {
    type V = ThemeElementView;

    open spec fn view(&self) -> ThemeElementView {
        ThemeElementView { color: self.color@, modifiers: self.modifiers@ }
    }
}

impl<'a> ThemeElement<'a> {
    /// The theme element that a bare text stands for: the colour it names, unchanged.
    pub fn from(s: &'a str) -> (r: Self)
        ensures
            r@ == (ThemeElementView {
                color: color_of_text(s@),
                modifiers: crate::modifiers::no_modifiers(),
            }),
    {
        ThemeElement { color: NamespacedColor::parse(s), modifiers: ColorModifiers::default() }
    }
}

/// The elements of one theme namespace, by name.
pub struct ThemeElements<'a>(pub NameMap<'a, ThemeElement<'a>>);

impl<'a> View for ThemeElements<'a> {
    type V = Seq<(Seq<char>, ThemeElementView)>;

    open spec fn view(&self) -> Self::V {
        self.0@
    }
}

/// The theme namespaces, by name.
pub struct ThemeNamespaces<'a>(pub NameMap<'a, ThemeElements<'a>>);

impl<'a> View for ThemeNamespaces<'a> {
    type V = Seq<(Seq<char>, Seq<(Seq<char>, ThemeElementView)>)>;

    open spec fn view(&self) -> Self::V {
        self.0@
    }
}

/// A list of named values, each name with its text.
pub open spec fn named<T>(list: Seq<(&str, T)>) -> Seq<(Seq<char>, T)> {
    Seq::new(list.len(), |i: int| (list[i].0@, list[i].1))
}

/// The value that a list gives to `name`: that of the last entry that carries the name.
pub open spec fn assigned<T>(list: Seq<(Seq<char>, T)>, name: Seq<char>) -> Option<T>
    decreases list.len(),
{
    if list.len() == 0 {
        None
    } else if list.last().0 == name {
        Some(list.last().1)
    } else {
        assigned(list.drop_last(), name)
    }
}

/// The value that a list gives to `name`.
fn find_assigned<T: Copy>(list: &Vec<(&str, T)>, name: &str) -> (r: Option<T>)
    ensures
        r == assigned(named(list@), name@),
{
    let mut i = list.len();
    assert(named(list@).take(i as int) =~= named(list@));
    while i > 0
        invariant
            0 <= i <= list@.len(),
            assigned(named(list@), name@) == assigned(named(list@).take(i as int), name@),
        decreases i,
    {
        let ghost prefix = named(list@).take(i as int);
        assert(prefix.drop_last() =~= named(list@).take(i - 1));
        i -= 1;
        if rank(list[i].0, name) == Rank::Same {
            return Some(list[i].1);
        }
    }
    None
}

/// The raw palette, as the configuration gives it: the colours that it lists one by one,
/// and the hues and groups from which the remaining colours are made.
pub struct Palette<'a> {
    /// The listed colours, by name.
    pub colors: Vec<(&'a str, Lch)>,
    /// The angle of each hue, by name.
    pub hues: Vec<(&'a str, Scalar)>,
    /// The lightness and chroma of each group, by name.
    pub groups: Vec<(&'a str, HuesConfig)>,
}

/// The palette that three lists stand for. The flat namespace holds the listed colours. The
/// namespace of each group holds one colour for each hue, under the hue's name: it has the
/// group's lightness and chroma and the hue's angle.
pub open spec fn expanded_palette(
    colors: Seq<(Seq<char>, Lch)>,
    hues: Seq<(Seq<char>, Scalar)>,
    groups: Seq<(Seq<char>, HuesConfig)>,
) -> Map<NamespacedColorView, Lch> {
    Map::new(
        |c: NamespacedColorView|
            match c.namespace {
                None => assigned(colors, c.color_name) is Some,
                Some(group) => assigned(groups, group) is Some && assigned(hues, c.color_name)
                    is Some,
            },
        |c: NamespacedColorView|
            match c.namespace {
                None => assigned(colors, c.color_name).unwrap(),
                Some(group) => Lch {
                    lightness: assigned(groups, group).unwrap().lightness,
                    chroma: assigned(groups, group).unwrap().chroma,
                    hue: assigned(hues, c.color_name).unwrap(),
                },
            },
    )
}

impl<'a> View for Palette<'a> {
    type V = Map<NamespacedColorView, Lch>;

    open spec fn view(&self) -> Self::V {
        expanded_palette(named(self.colors@), named(self.hues@), named(self.groups@))
    }
}

impl<'a> Palette<'a> {
    /// The colour that the palette holds under a name, if any.
    pub fn get(&self, color: NamespacedColor<'_>) -> (r: Option<Lch>)
        ensures
            r == (if self@.contains_key(color@) {
                Some(self@[color@])
            } else {
                None
            }),
    {
        match color.namespace {
            ColorNamespace::Colors => find_assigned(&self.colors, color.color_name),
            ColorNamespace::Group(group) => {
                match find_assigned(&self.groups, group) {
                    None => None,
                    Some(config) => match find_assigned(&self.hues, color.color_name) {
                        None => None,
                        Some(hue) => Some(
                            Lch { lightness: config.lightness, chroma: config.chroma, hue },
                        ),
                    },
                }
            },
        }
    }
}

/// The configuration document, read into records and nothing more.
pub struct Document<'a> {
    pub name: &'a str,
    pub kind: &'a str,
    pub inverse: Inverse<'a>,
    pub colors: Vec<(&'a str, Lch)>,
    pub hues: Vec<(&'a str, Scalar)>,
    pub groups: Vec<(&'a str, HuesConfig)>,
    pub themes: ThemeNamespaces<'a>,
    pub highlights: NameMap<'a, Highlight<'a>>,
}

/// A configuration from which colours can be resolved.
pub struct Configuration<'a> {
    pub name: &'a str,
    pub kind: Kind,
    pub inverse: Inverse<'a>,
    pub colors: Palette<'a>,
    pub themes: ThemeNamespaces<'a>,
    pub highlights: NameMap<'a, Highlight<'a>>,
}

impl<'a> Configuration<'a> {
    /// The colour that the palette holds under a name, if any.
    pub fn get_color(&self, namespaced_color: NamespacedColor<'_>) -> (r: Option<Lch>)
        ensures
            r == (if self.colors@.contains_key(namespaced_color@) {
                Some(self.colors@[namespaced_color@])
            } else {
                None
            }),
    {
        self.colors.get(namespaced_color)
    }
}

/// A list of named highlight groups as mathematics.
pub open spec fn highlight_views(list: Seq<(&str, Highlight<'_>)>) -> Seq<
    (Seq<char>, HighlightView),
> {
    Seq::new(list.len(), |i: int| (list[i].0@, list[i].1@))
}

/// The highlight groups of a configuration once the built-in ones have filled the gaps:
/// each built-in group, in turn, is taken where no group has its name yet. So a group of
/// the configuration stands as it is, whatever the built-in group of its name says.
pub open spec fn with_defaults(
    highlights: Seq<(Seq<char>, HighlightView)>,
    defaults: Seq<(Seq<char>, HighlightView)>,
) -> Seq<(Seq<char>, HighlightView)>
    decreases defaults.len(),
{
    if defaults.len() == 0 {
        highlights
    } else {
        inserted_if_absent(
            with_defaults(highlights, defaults.drop_last()),
            defaults.last().0,
            defaults.last().1,
        )
    }
}

/// The first highlight group of a list that carries `name`.
pub open spec fn first_named(list: Seq<(Seq<char>, HighlightView)>, name: Seq<char>) -> Option<
    HighlightView,
>
    decreases list.len(),
{
    if list.len() == 0 {
        None
    } else {
        match first_named(list.drop_last(), name) {
            Some(h) => Some(h),
            None => if list.last().0 == name {
                Some(list.last().1)
            } else {
                None
            },
        }
    }
}

/// The built-in highlight groups fill gaps and nothing else: a name that the configuration
/// gives a group keeps that group, and any other name gets the first built-in group that
/// carries it, if there is one.
pub proof fn lemma_with_defaults(
    highlights: Seq<(Seq<char>, HighlightView)>,
    defaults: Seq<(Seq<char>, HighlightView)>,
    name: Seq<char>,
)
    requires
        sorted(highlights),
    ensures
        sorted(with_defaults(highlights, defaults)),
        lookup(with_defaults(highlights, defaults), name) == (match lookup(highlights, name) {
            Some(h) => Some(h),
            None => first_named(defaults, name),
        }),
    decreases defaults.len(),
{
    if defaults.len() > 0 {
        let filled = with_defaults(highlights, defaults.drop_last());
        lemma_with_defaults(highlights, defaults.drop_last(), name);
        lemma_with_defaults(highlights, defaults.drop_last(), defaults.last().0);
        lemma_inserted(filled, defaults.last().0, defaults.last().1);
    }
}

/// Turns a document into a configuration: reads the kind, and fills the gaps among the
/// highlight groups from the built-in ones. Fails where the kind is not one.
pub fn parse<'a>(document: Document<'a>, defaults: &Vec<(&'a str, Highlight<'a>)>) -> (r: Result<
    Configuration<'a>,
    Error,
>)
    ensures
        match kind_of(document.kind@) {
            None => r matches Err(Error::InvalidKind),
            Some(kind) => {
                &&& r matches Ok(config)
                &&& config.name@ == document.name@
                &&& config.kind == kind
                &&& config.inverse@ == document.inverse@
                &&& config.colors@ == expanded_palette(
                    named(document.colors@),
                    named(document.hues@),
                    named(document.groups@),
                )
                &&& config.themes@ == document.themes@
                &&& config.highlights@ == with_defaults(
                    document.highlights@,
                    highlight_views(defaults@),
                )
            },
        },
{
    let Document { name, kind, inverse, colors, hues, groups, themes, highlights } = document;
    let mut highlights = highlights;
    let ghost written = highlights@;
    let mut i: usize = 0;
    while i < defaults.len()
        invariant
            0 <= i <= defaults@.len(),
            highlights@ == with_defaults(written, highlight_views(defaults@).take(i as int)),
        decreases defaults@.len() - i,
    {
        let ghost next = highlight_views(defaults@).take(i + 1);
        assert(next.drop_last() =~= highlight_views(defaults@).take(i as int));
        highlights.insert_if_absent(defaults[i].0, defaults[i].1);
        i += 1;
    }
    assert(highlight_views(defaults@).take(i as int) =~= highlight_views(defaults@));
    let kind = Kind::try_from(kind)?;
    let colors = Palette { colors, hues, groups };
    Ok(Configuration { name, kind, inverse, colors, themes, highlights })
}

} // verus!
