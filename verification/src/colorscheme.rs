//! Colour schemes: how one is made of a configuration, and what it holds.

use crate::configuration::{
    color_text, expanded_palette, highlight_views, kind_of, name_view, named,
    parse as parse_configuration, theme_element_text, with_defaults, Configuration, Document,
    Highlight, HighlightView, Inverse, Kind, Lch, NamespacedColorView, NamespacedThemeElement,
    NamespacedThemeElementView, Palette, ThemeElementView, ThemeElements, ThemeNamespaces,
};
use crate::error::{Error, ErrorView};
use crate::links::{
    chain_end, chain_ends, cycle_member, cyclic_at, hop, lemma_cycle_is_reported,
    lemma_distinct_names_bound, lemma_end_unique, lemma_first_cyclic, lemma_first_repeat,
    lemma_reduced_links_end, link_of, on_cycle, reduced, reduction, relinked, repeats_at, Groups,
};
use crate::modifiers::{steps_of, ColorModifiersView, ColorStep};
use crate::name_map::{has_name, index_of, lemma_lookup_at, lookup, sorted, NameMap};
use crate::text::{hex_pair, push_hex_pair, rank, Rank};
use vstd::prelude::*;

verus! {

/// Non-linear sRGB with eight bits for each channel.
#[derive(Clone, Copy, Debug, PartialEq, Eq, Structural)]
pub struct Rgb8 {
    pub red: u8,
    pub green: u8,
    pub blue: u8,
}

impl View for Rgb8 {
    type V = Rgb8;

    open spec fn view(&self) -> Rgb8 {
        *self
    }
}

/// A colour as the scripts write it: `#` and the three channels in hexadecimal.
pub open spec fn rgb_text(c: Rgb8) -> Seq<char> {
    "#"@ + hex_pair(c.red) + hex_pair(c.green) + hex_pair(c.blue)
}

impl Rgb8 {
    /// This colour as the scripts write it.
    pub fn to_string(&self) -> (r: String)
        ensures
            r@ == rgb_text(*self),
    {
        let mut r = String::from_str("#");
        push_hex_pair(&mut r, self.red);
        push_hex_pair(&mut r, self.green);
        push_hex_pair(&mut r, self.blue);
        r
    }
}

/// The colours of a theme as mathematics: by namespace, then by the element's name.
pub type ThemeView = Seq<(Seq<char>, Seq<(Seq<char>, Rgb8)>)>;

/// The colour that a theme holds for an element, if any.
pub open spec fn theme_color(theme: ThemeView, e: NamespacedThemeElementView) -> Option<Rgb8> {
    match lookup(theme, e.theme_namespace) {
        Some(elements) => lookup(elements, e.element_name),
        None => None,
    }
}

/// The colours of a theme.
pub struct Theme<'a> {
    pub colors: NameMap<'a, NameMap<'a, Rgb8>>,
}

impl<'a> View for Theme<'a> {
    type V = ThemeView;

    open spec fn view(&self) -> ThemeView {
        self.colors@
    }
}

impl<'a> Theme<'a> {
    /// The colour of a theme element, if the theme holds it.
    pub fn get_color(&self, theme_element: NamespacedThemeElement<'_>) -> (r: Option<Rgb8>)
        ensures
            r == theme_color(self@, theme_element@),
    {
        match self.colors.get(theme_element.theme_namespace) {
            Some(elements) => match elements.get(theme_element.element_name) {
                Some(color) => Some(*color),
                None => None,
            },
            None => None,
        }
    }
}

/// Whether a name is among those that a chain has come to.
fn holds(stack: &Vec<&str>, name: &str) -> (r: bool)
    ensures
        r == exists|i: int| 0 <= i < stack@.len() && (#[trigger] stack@[i])@ == name@,
{
    let mut i: usize = 0;
    while i < stack.len()
        invariant
            0 <= i <= stack@.len(),
            forall|j: int| 0 <= j < i ==> (#[trigger] stack@[j])@ != name@,
        decreases stack@.len() - i,
    {
        if rank(stack[i], name) == Rank::Same {
            return true;
        }
        i += 1;
    }
    false
}

/// Follows the links from the name `first` to the end of the chain. Fails where the chain
/// comes to a name for the second time, and says which.
pub fn find_last_link<'a>(first: &'a str, highlights: &NameMap<'a, Highlight<'a>>) -> (r: Result<
    &'a str,
    Error,
>)
    ensures
        match r {
            Ok(last) => chain_ends(highlights@, first@) && last@ == chain_end(
                highlights@,
                first@,
            ),
            Err(e) => !chain_ends(highlights@, first@) && e@ == ErrorView::LinkCycle(
                cycle_member(highlights@, first@),
            ),
        },
{
    let ghost groups = highlights@;
    let ghost start = first@;
    let n = highlights.len();
    let mut link = first;
    let mut stack: Vec<&'a str> = Vec::new();
    proof {
        lemma_distinct_names_bound(groups, Seq::empty());
    }
    loop
        invariant
            groups == highlights@,
            start == first@,
            n == groups.len(),
            stack@.len() <= n,
            hop(groups, start, stack@.len() as nat) == Some(link@),
            forall|i: int|
                0 <= i < stack@.len() ==> hop(groups, start, i as nat) == Some(
                    (#[trigger] stack@[i])@,
                ),
            forall|i: int| 0 <= i < stack@.len() ==> has_name(groups, (#[trigger] stack@[i])@),
            forall|i: int, j: int|
                0 <= i < j < stack@.len() ==> (#[trigger] stack@[i])@ != (#[trigger] stack@[j])@,
        decreases n - stack@.len(),
    {
        let ghost k = stack@.len() as nat;
        if holds(&stack, link) {
            proof {
                assert forall|m: nat| m < k implies !repeats_at(groups, start, m) by {
                    if repeats_at(groups, start, m) {
                        let j = choose|j: nat|
                            j < m && #[trigger] hop(groups, start, j) == hop(groups, start, m);
                        assert(hop(groups, start, j) == Some(stack@[j as int]@));
                        assert(hop(groups, start, m) == Some(stack@[m as int]@));
                    }
                }
                lemma_first_repeat(groups, start, k);
            }
            return Err(Error::LinkCycle(String::from_str(link)));
        }
        let next = match highlights.get(link) {
            Some(h) => h.link,
            None => None,
        };
        match next {
            Some(next) => {
                stack.push(link);
                proof {
                    let names = Seq::new(stack@.len(), |i: int| stack@[i]@);
                    assert forall|i: int, j: int|
                        0 <= i < names.len() && 0 <= j < names.len() && i != j implies names[i]
                        != names[j] by {}
                    assert forall|i: int| 0 <= i < names.len() implies has_name(
                        groups,
                        #[trigger] names[i],
                    ) by {}
                    lemma_distinct_names_bound(groups, names);
                }
                link = next;
            },
            None => {
                proof {
                    lemma_end_unique(groups, start, k);
                }
                return Ok(link);
            },
        }
    }
}

/// Puts every link straight to the end of its chain, so that no group links to a group that
/// links on. Fails, and changes nothing, where a chain runs in a circle.
pub fn reduce_link_depth<'a>(highlights: &mut NameMap<'a, Highlight<'a>>) -> (r: Result<(), Error>)
    ensures
        match reduction(old(highlights)@) {
            Ok(groups) => r is Ok && final(highlights)@ == groups,
            Err(name) => {
                &&& r matches Err(e)
                &&& e@ == ErrorView::LinkCycle(name)
                &&& final(highlights)@ == old(highlights)@
            },
        },
{
    let ghost groups = highlights@;
    let n = highlights.len();
    let mut new_links: Vec<Option<&'a str>> = Vec::new();
    let mut i: usize = 0;
    while i < n
        invariant
            highlights@ == groups,
            n == groups.len(),
            0 <= i <= n,
            new_links@.len() == i,
            forall|j: int| 0 <= j < i ==> !cyclic_at(groups, j),
            forall|j: int|
                0 <= j < i ==> name_view(#[trigger] new_links@[j]) == relinked(
                    groups,
                    groups[j].1,
                ).link,
        decreases n - i,
    {
        let link = highlights.value_at(i).link;
        match link {
            Some(link) => {
                match find_last_link(link, highlights) {
                    Ok(last) => {
                        new_links.push(Some(last));
                    },
                    Err(e) => {
                        proof {
                            lemma_first_cyclic(groups, i as int);
                        }
                        return Err(e);
                    },
                }
            },
            None => {
                new_links.push(None);
            },
        }
        i += 1;
    }
    let mut i: usize = 0;
    while i < n
        invariant
            n == groups.len(),
            highlights@.len() == n,
            new_links@.len() == n,
            0 <= i <= n,
            forall|j: int|
                0 <= j < n ==> name_view(#[trigger] new_links@[j]) == relinked(
                    groups,
                    groups[j].1,
                ).link,
            forall|j: int| 0 <= j < i ==> highlights@[j] == reduced(groups)[j],
            forall|j: int| i <= j < n ==> highlights@[j] == groups[j],
        decreases n - i,
    {
        if let Some(last) = new_links[i] {
            let mut h = *highlights.value_at(i);
            h.link = Some(last);
            highlights.replace_value_at(i, h);
        }
        i += 1;
    }
    Ok(())
}

/// The theme configuration as mathematics: by namespace, then by the element's name.
pub type ThemeElementsView = Seq<(Seq<char>, Seq<(Seq<char>, ThemeElementView)>)>;

/// What is to be computed for one theme element: the colour of the palette that it starts
/// from, the steps that lead to its colour in the written theme, and the steps that lead to
/// its colour in the opposite theme. The latter are the former, then the flip of the
/// lightness, then the steps of the configuration's inverse modifiers. `Err` carries the
/// text of the first colour that the palette lacks: the element's own, that of its mix, or
/// that of the inverse modifiers' mix.
pub open spec fn element_plan(
    palette: Map<NamespacedColorView, Lch>,
    inverse: ColorModifiersView,
    e: ThemeElementView,
) -> Result<(Lch, Seq<ColorStep>, Seq<ColorStep>), Seq<char>> {
    if !palette.contains_key(e.color) {
        Err(color_text(e.color))
    } else {
        match steps_of(e.modifiers, palette) {
            Err(name) => Err(name),
            Ok(steps) => match steps_of(inverse, palette) {
                Err(name) => Err(name),
                Ok(inverse_steps) => Ok(
                    (
                        palette[e.color],
                        steps,
                        steps + seq![ColorStep::InvertLightness] + inverse_steps,
                    ),
                ),
            },
        }
    }
}

/// The text of the first missing colour among the elements from position `from` on.
pub open spec fn elements_missing_from(
    palette: Map<NamespacedColorView, Lch>,
    inverse: ColorModifiersView,
    elements: Seq<(Seq<char>, ThemeElementView)>,
    from: int,
) -> Option<Seq<char>>
    decreases elements.len() - from,
{
    if from < 0 || from >= elements.len() {
        None
    } else {
        match element_plan(palette, inverse, elements[from].1) {
            Err(name) => Some(name),
            Ok(_) => elements_missing_from(palette, inverse, elements, from + 1),
        }
    }
}

/// The text of the first missing colour among the namespaces from position `from` on,
/// namespace by namespace and element by element.
pub open spec fn themes_missing_from(
    palette: Map<NamespacedColorView, Lch>,
    inverse: ColorModifiersView,
    themes: ThemeElementsView,
    from: int,
) -> Option<Seq<char>>
    decreases themes.len() - from,
{
    if from < 0 || from >= themes.len() {
        None
    } else {
        match elements_missing_from(palette, inverse, themes[from].1, 0) {
            Some(name) => Some(name),
            None => themes_missing_from(palette, inverse, themes, from + 1),
        }
    }
}

/// A theme, of colours or of anything else, holds the element.
pub open spec fn element_known<T>(
    themes: Seq<(Seq<char>, Seq<(Seq<char>, T)>)>,
    e: NamespacedThemeElementView,
) -> bool {
    lookup(themes, e.theme_namespace) matches Some(elements) && has_name(
        elements,
        e.element_name,
    )
}

/// The first of a highlight group's foreground, background and special colour that the
/// theme does not hold.
pub open spec fn dangling<T>(
    themes: Seq<(Seq<char>, Seq<(Seq<char>, T)>)>,
    h: HighlightView,
) -> Option<NamespacedThemeElementView> {
    if h.fg matches Some(e) && !element_known(themes, e) {
        h.fg
    } else if h.bg matches Some(e) && !element_known(themes, e) {
        h.bg
    } else if h.sp matches Some(e) && !element_known(themes, e) {
        h.sp
    } else {
        None
    }
}

/// The first theme element that a group from position `from` on names and the theme does
/// not hold.
pub open spec fn first_dangling_from<T>(
    themes: Seq<(Seq<char>, Seq<(Seq<char>, T)>)>,
    groups: Groups,
    from: int,
) -> Option<NamespacedThemeElementView>
    decreases groups.len() - from,
{
    if from < 0 || from >= groups.len() {
        None
    } else {
        match dangling(themes, groups[from].1) {
            Some(e) => Some(e),
            None => first_dangling_from(themes, groups, from + 1),
        }
    }
}

/// Why no colour scheme comes of a configuration, if none does. First the links between
/// the highlight groups are reduced; then every theme element finds its colours in the
/// palette; then every highlight group finds its theme elements. The first of these to
/// fail decides.
pub open spec fn resolve_failure(
    palette: Map<NamespacedColorView, Lch>,
    inverse: ColorModifiersView,
    themes: ThemeElementsView,
    groups: Groups,
) -> Option<ErrorView> {
    match reduction(groups) {
        Err(name) => Some(ErrorView::LinkCycle(name)),
        Ok(flat) => match themes_missing_from(palette, inverse, themes, 0) {
            Some(name) => Some(ErrorView::ColorMissing(name)),
            None => match first_dangling_from(themes, flat, 0) {
                Some(e) => Some(ErrorView::ThemeElementMissing(theme_element_text(e))),
                None => None,
            },
        },
    }
}

/// Where the links between the highlight groups run in a circle anywhere, no colour scheme
/// comes of the configuration: resolving fails with a link cycle, and the group that the
/// failure names lies on a circle.
pub proof fn lemma_cycle_fails(
    palette: Map<NamespacedColorView, Lch>,
    inverse: ColorModifiersView,
    themes: ThemeElementsView,
    groups: Groups,
    name: Seq<char>,
)
    requires
        sorted(groups),
        on_cycle(groups, name),
    ensures
        resolve_failure(palette, inverse, themes, groups) matches Some(ErrorView::LinkCycle(member))
            && on_cycle(groups, member),
{
    lemma_cycle_is_reported(groups, name);
}

/// Two themes hold the same elements under the same namespaces, in the same order.
pub open spec fn same_names<A, B>(
    a: Seq<(Seq<char>, Seq<(Seq<char>, A)>)>,
    b: Seq<(Seq<char>, Seq<(Seq<char>, B)>)>,
) -> bool {
    &&& a.len() == b.len()
    &&& forall|i: int|
        0 <= i < a.len() ==> (#[trigger] a[i]).0 == b[i].0 && a[i].1.len() == b[i].1.len()
    &&& forall|i: int, j: int|
        0 <= i < a.len() && 0 <= j < a[i].1.len() ==> (#[trigger] a[i].1[j]).0 == b[i].1[j].0
}

/// `color` is what `render` may return for a colour and steps.
pub open spec fn made_by<F: Fn(Lch, &Vec<ColorStep>) -> Rgb8>(
    render: F,
    base: Lch,
    steps: Seq<ColorStep>,
    color: Rgb8,
) -> bool {
    exists|v: Vec<ColorStep>| v@ == steps && call_ensures(render, (base, &v), color)
}

/// The two themes are what `render` makes of the theme configuration: they hold its
/// elements under its names, and each colour is what `render` may return for the element's
/// colour of the palette and its steps, those of the written theme in `primary` and those
/// of the opposite theme in `opposite`.
pub open spec fn rendered<F: Fn(Lch, &Vec<ColorStep>) -> Rgb8>(
    render: F,
    palette: Map<NamespacedColorView, Lch>,
    inverse: ColorModifiersView,
    themes: ThemeElementsView,
    primary: ThemeView,
    opposite: ThemeView,
) -> bool {
    &&& same_names(themes, primary)
    &&& same_names(themes, opposite)
    &&& forall|i: int, j: int|
        0 <= i < themes.len() && 0 <= j < themes[i].1.len() ==> (element_plan(
            palette,
            inverse,
            (#[trigger] themes[i].1[j]).1,
        ) matches Ok(plan) && made_by(render, plan.0, plan.1, primary[i].1[j].1) && made_by(
            render,
            plan.0,
            plan.2,
            opposite[i].1[j].1,
        ))
}

/// A colour scheme as mathematics.
pub struct ColorschemeView {
    pub name: Seq<char>,
    pub kind: Kind,
    pub light_theme: ThemeView,
    pub dark_theme: ThemeView,
    pub highlights: Groups,
}

/// The theme that was written, as against the one that was derived from it.
pub open spec fn primary_theme(cs: ColorschemeView) -> ThemeView {
    match cs.kind {
        Kind::Light => cs.light_theme,
        Kind::Dark => cs.dark_theme,
    }
}

/// The theme that was derived from the written one.
pub open spec fn opposite_theme(cs: ColorschemeView) -> ThemeView {
    match cs.kind {
        Kind::Light => cs.dark_theme,
        Kind::Dark => cs.light_theme,
    }
}

/// `cs` is a colour scheme that comes of a configuration with `render`: it has the
/// configuration's name and kind and its highlight groups with the links reduced, and its
/// themes are what `render` makes of the theme configuration, the written theme on the side
/// of the kind and the opposite theme on the other.
pub open spec fn resolved<F: Fn(Lch, &Vec<ColorStep>) -> Rgb8>(
    render: F,
    name: Seq<char>,
    kind: Kind,
    palette: Map<NamespacedColorView, Lch>,
    inverse: ColorModifiersView,
    themes: ThemeElementsView,
    groups: Groups,
    cs: ColorschemeView,
) -> bool {
    &&& cs.name == name
    &&& cs.kind == kind
    &&& cs.highlights == reduced(groups)
    &&& rendered(render, palette, inverse, themes, primary_theme(cs), opposite_theme(cs))
}

/// `render` has one colour only for a colour of the palette and steps.
pub open spec fn single_valued<F: Fn(Lch, &Vec<ColorStep>) -> Rgb8>(render: F) -> bool {
    forall|base: Lch, v: Vec<ColorStep>, w: Vec<ColorStep>, c: Rgb8, d: Rgb8|
        v@ == w@ && #[trigger] call_ensures(render, (base, &v), c) && #[trigger] call_ensures(
            render,
            (base, &w),
            d,
        ) ==> c == d
}

/// With a `render` that has one colour only for each colour and steps, a configuration has
/// one pair of themes only.
pub proof fn lemma_rendered_unique<F: Fn(Lch, &Vec<ColorStep>) -> Rgb8>(
    render: F,
    palette: Map<NamespacedColorView, Lch>,
    inverse: ColorModifiersView,
    themes: ThemeElementsView,
    primary: ThemeView,
    opposite: ThemeView,
    other_primary: ThemeView,
    other_opposite: ThemeView,
)
    requires
        single_valued(render),
        rendered(render, palette, inverse, themes, primary, opposite),
        rendered(render, palette, inverse, themes, other_primary, other_opposite),
    ensures
        primary == other_primary,
        opposite == other_opposite,
{
    assert forall|i: int| 0 <= i < themes.len() implies primary[i] == other_primary[i]
        && opposite[i] == other_opposite[i] by {
        assert forall|j: int| 0 <= j < themes[i].1.len() implies primary[i].1[j]
            == other_primary[i].1[j] && opposite[i].1[j] == other_opposite[i].1[j] by {
            assert(themes[i].1[j].0 == primary[i].1[j].0);
        }
    }
}

/// Resolving is deterministic. With a `render` that has one colour only for each colour and
/// steps, a configuration has one colour scheme only, and so one script only for Neovim
/// and one only for Vim.
pub proof fn lemma_resolution_deterministic<F: Fn(Lch, &Vec<ColorStep>) -> Rgb8>(
    render: F,
    name: Seq<char>,
    kind: Kind,
    palette: Map<NamespacedColorView, Lch>,
    inverse: ColorModifiersView,
    themes: ThemeElementsView,
    groups: Groups,
    cs: ColorschemeView,
    other: ColorschemeView,
)
    requires
        single_valued(render),
        resolved(render, name, kind, palette, inverse, themes, groups, cs),
        resolved(render, name, kind, palette, inverse, themes, groups, other),
    ensures
        cs == other,
        crate::compiler_neovim::program(cs) == crate::compiler_neovim::program(other),
        crate::compiler_vim::program(cs) == crate::compiler_vim::program(other),
{
    lemma_rendered_unique(
        render,
        palette,
        inverse,
        themes,
        primary_theme(cs),
        opposite_theme(cs),
        primary_theme(other),
        opposite_theme(other),
    );
}

/// Every colour that the highlight group names is in the theme.
pub open spec fn colored(theme: ThemeView, h: HighlightView) -> bool {
    &&& h.fg matches Some(e) ==> theme_color(theme, e) is Some
    &&& h.bg matches Some(e) ==> theme_color(theme, e) is Some
    &&& h.sp matches Some(e) ==> theme_color(theme, e) is Some
}

/// What holds of every colour scheme: the two themes hold the same elements; each holds
/// every colour that a highlight group names; and no group links to a group that links on.
pub open spec fn well_formed(cs: ColorschemeView) -> bool {
    &&& same_names(cs.light_theme, cs.dark_theme)
    &&& forall|i: int|
        0 <= i < cs.highlights.len() ==> colored(cs.light_theme, (#[trigger] cs.highlights[i]).1)
            && colored(cs.dark_theme, cs.highlights[i].1)
    &&& forall|i: int|
        0 <= i < cs.highlights.len() ==> ((#[trigger] cs.highlights[i]).1.link matches Some(
            target,
        ) ==> link_of(cs.highlights, target) is None)
}

/// A colour scheme: a light theme and a dark theme, which hold colours, and the highlight
/// groups, which name elements of these themes.
pub struct Colorscheme<'a> {
    pub(crate) name: &'a str,
    pub(crate) kind: Kind,
    pub(crate) light_theme: Theme<'a>,
    pub(crate) dark_theme: Theme<'a>,
    pub(crate) highlights: NameMap<'a, Highlight<'a>>,
}

impl<'a> View for Colorscheme<'a> {
    type V = ColorschemeView;

    closed spec fn view(&self) -> ColorschemeView {
        ColorschemeView {
            name: self.name@,
            kind: self.kind,
            light_theme: self.light_theme@,
            dark_theme: self.dark_theme@,
            highlights: self.highlights@,
        }
    }
}

impl<'a> Colorscheme<'a> {
    /// The colour scheme is well formed.
    #[verifier::type_invariant]
    pub closed spec fn valid(self) -> bool {
        well_formed(self@)
    }

    /// What every colour scheme satisfies.
    pub proof fn lemma_valid(self)
        requires
            self.valid(),
        ensures
            well_formed(self@),
    {
    }

    /// The name of the colour scheme.
    pub fn name(&self) -> (r: &'a str)
        ensures
            r@ == self@.name,
    {
        self.name
    }

    /// Whether the colour scheme was written as a light theme or as a dark one. The other
    /// theme was derived from it.
    pub fn kind(&self) -> (r: Kind)
        ensures
            r == self@.kind,
    {
        self.kind
    }

    /// The colours of the light theme.
    pub fn light_theme(&self) -> (r: &Theme<'a>)
        ensures
            r@ == self@.light_theme,
    {
        &self.light_theme
    }

    /// The colours of the dark theme.
    pub fn dark_theme(&self) -> (r: &Theme<'a>)
        ensures
            r@ == self@.dark_theme,
    {
        &self.dark_theme
    }

    /// The colour of a theme element in the theme that was written.
    pub fn get_color(&self, theme_element: NamespacedThemeElement<'_>) -> (r: Option<Rgb8>)
        ensures
            r == theme_color(primary_theme(self@), theme_element@),
    {
        match self.kind {
            Kind::Light => self.light_theme.get_color(theme_element),
            Kind::Dark => self.dark_theme.get_color(theme_element),
        }
    }

    /// The colour of a theme element in the theme that was derived.
    pub fn get_inverse_color(&self, theme_element: NamespacedThemeElement<'_>) -> (r: Option<
        Rgb8,
    >)
        ensures
            r == theme_color(opposite_theme(self@), theme_element@),
    {
        match self.kind {
            Kind::Light => self.dark_theme.get_color(theme_element),
            Kind::Dark => self.light_theme.get_color(theme_element),
        }
    }

    /// The highlight groups by name.
    pub fn groups(&self) -> (r: &NameMap<'a, Highlight<'a>>)
        ensures
            r@ == self@.highlights,
    {
        &self.highlights
    }

    /// The highlight groups with their names, in the order of the names.
    pub fn highlights(&self) -> (r: Vec<(&'a str, Highlight<'a>)>)
        ensures
            highlight_views(r@) == self@.highlights,
    {
        let mut list: Vec<(&'a str, Highlight<'a>)> = Vec::new();
        let n = self.highlights.len();
        let mut i: usize = 0;
        while i < n
            invariant
                n == self.highlights@.len(),
                0 <= i <= n,
                list@.len() == i,
                forall|j: int|
                    0 <= j < i ==> ((#[trigger] list@[j]).0@, list@[j].1@) == self.highlights@[j],
            decreases n - i,
        {
            list.push((self.highlights.name_at(i), *self.highlights.value_at(i)));
            i += 1;
        }
        list
    }

    /// The highlight group of a name, if there is one.
    pub fn highlight(&self, group: &str) -> (r: Option<Highlight<'a>>)
        ensures
            match r {
                Some(h) => lookup(self@.highlights, group@) == Some(h@),
                None => !has_name(self@.highlights, group@),
            },
    {
        match self.highlights.get(group) {
            Some(h) => Some(*h),
            None => None,
        }
    }
}

/// Themes with the same names hold the same elements.
pub proof fn lemma_same_names_known<A, B>(
    a: Seq<(Seq<char>, Seq<(Seq<char>, A)>)>,
    b: Seq<(Seq<char>, Seq<(Seq<char>, B)>)>,
    e: NamespacedThemeElementView,
)
    requires
        same_names(a, b),
        sorted(a),
        sorted(b),
    ensures
        element_known(a, e) == element_known(b, e),
{
    if has_name(a, e.theme_namespace) {
        let i = index_of(a, e.theme_namespace);
        lemma_lookup_at(a, i);
        lemma_lookup_at(b, i);
        if has_name(a[i].1, e.element_name) {
            let j = index_of(a[i].1, e.element_name);
            assert(a[i].1[j].0 == b[i].1[j].0);
        }
        if has_name(b[i].1, e.element_name) {
            let j = index_of(b[i].1, e.element_name);
            assert(a[i].1[j].0 == b[i].1[j].0);
        }
    } else if has_name(b, e.theme_namespace) {
        let i = index_of(b, e.theme_namespace);
        assert(a[i].0 == b[i].0);
    }
}

/// Themes with the same names leave the same theme elements dangling.
pub proof fn lemma_same_names_dangling<A, B>(
    a: Seq<(Seq<char>, Seq<(Seq<char>, A)>)>,
    b: Seq<(Seq<char>, Seq<(Seq<char>, B)>)>,
    groups: Groups,
    from: int,
)
    requires
        same_names(a, b),
        sorted(a),
        sorted(b),
    ensures
        first_dangling_from(a, groups, from) == first_dangling_from(b, groups, from),
    decreases groups.len() - from,
{
    if 0 <= from < groups.len() {
        let h = groups[from].1;
        if h.fg is Some {
            lemma_same_names_known(a, b, h.fg.unwrap());
        }
        if h.bg is Some {
            lemma_same_names_known(a, b, h.bg.unwrap());
        }
        if h.sp is Some {
            lemma_same_names_known(a, b, h.sp.unwrap());
        }
        lemma_same_names_dangling(a, b, groups, from + 1);
    }
}

/// Where no theme element dangles from a position on, every group from there on finds its
/// colours in the theme.
pub proof fn lemma_none_dangling(theme: ThemeView, groups: Groups, from: int, i: int)
    requires
        0 <= from <= i < groups.len(),
        first_dangling_from(theme, groups, from) is None,
    ensures
        colored(theme, groups[i].1),
    decreases i - from,
{
    if from < i {
        lemma_none_dangling(theme, groups, from + 1, i);
    }
}

/// The steps to a colour of the opposite theme: the element's own, the flip of the
/// lightness, and those of the inverse modifiers.
fn joined(steps: &Vec<ColorStep>, inverse_steps: &Vec<ColorStep>) -> (r: Vec<ColorStep>)
    ensures
        r@ == steps@ + seq![ColorStep::InvertLightness] + inverse_steps@,
{
    let mut all: Vec<ColorStep> = Vec::new();
    let mut i: usize = 0;
    while i < steps.len()
        invariant
            0 <= i <= steps@.len(),
            all@ == steps@.take(i as int),
        decreases steps@.len() - i,
    {
        all.push(steps[i]);
        i += 1;
    }
    all.push(ColorStep::InvertLightness);
    let ghost head = all@;
    let mut j: usize = 0;
    while j < inverse_steps.len()
        invariant
            0 <= j <= inverse_steps@.len(),
            head == steps@ + seq![ColorStep::InvertLightness],
            all@ == head + inverse_steps@.take(j as int),
        decreases inverse_steps@.len() - j,
    {
        all.push(inverse_steps[j]);
        j += 1;
    }
    all
}

/// The colours of the elements of one namespace, in the written theme and in the
/// opposite one.
fn render_elements<'a, F: Fn(Lch, &Vec<ColorStep>) -> Rgb8>(
    colors: &Palette<'a>,
    inverse: &Inverse<'a>,
    elements: &ThemeElements<'a>,
    render: &F,
) -> (r: Result<(NameMap<'a, Rgb8>, NameMap<'a, Rgb8>), Error>)
    requires
        forall|base: Lch, steps: &Vec<ColorStep>| call_requires(*render, (base, steps)),
    ensures
        match elements_missing_from(colors@, inverse@, elements@, 0) {
            Some(name) => r matches Err(e) && e@ == ErrorView::ColorMissing(name),
            None => {
                &&& r matches Ok(pair)
                &&& pair.0@.len() == elements@.len()
                &&& pair.1@.len() == elements@.len()
                &&& forall|j: int|
                    0 <= j < elements@.len() ==> {
                        &&& (#[trigger] elements@[j]).0 == pair.0@[j].0
                        &&& elements@[j].0 == pair.1@[j].0
                        &&& element_plan(colors@, inverse@, elements@[j].1) matches Ok(plan)
                        &&& made_by(*render, plan.0, plan.1, pair.0@[j].1)
                        &&& made_by(*render, plan.0, plan.2, pair.1@[j].1)
                    }
            },
        },
{
    let mut primary: NameMap<'a, Rgb8> = NameMap::new();
    let mut opposite: NameMap<'a, Rgb8> = NameMap::new();
    let n = elements.0.len();
    let mut j: usize = 0;
    proof {
        use_type_invariant(&elements.0);
        elements.0.lemma_sorted();
    }
    while j < n
        invariant
            n == elements@.len(),
            elements@ == elements.0@,
            0 <= j <= n,
            sorted(elements@),
            forall|base: Lch, steps: &Vec<ColorStep>| call_requires(*render, (base, steps)),
            elements_missing_from(colors@, inverse@, elements@, 0) == elements_missing_from(
                colors@,
                inverse@,
                elements@,
                j as int,
            ),
            primary@.len() == j,
            opposite@.len() == j,
            forall|k: int|
                0 <= k < j ==> {
                    &&& (#[trigger] elements@[k]).0 == primary@[k].0
                    &&& elements@[k].0 == opposite@[k].0
                    &&& element_plan(colors@, inverse@, elements@[k].1) matches Ok(plan)
                    &&& made_by(*render, plan.0, plan.1, primary@[k].1)
                    &&& made_by(*render, plan.0, plan.2, opposite@[k].1)
                },
        decreases n - j,
    {
        let name = elements.0.name_at(j);
        let element = elements.0.value_at(j);
        let base = match colors.get(element.color) {
            Some(base) => base,
            None => {
                return Err(Error::ColorMissing(element.color.to_string()));
            },
        };
        let steps = element.modifiers.steps(colors)?;
        let inverse_steps = inverse.modifiers.steps(colors)?;
        let all = joined(&steps, &inverse_steps);
        let color = render(base, &steps);
        let opposite_color = render(base, &all);
        proof {
            if j > 0 {
                assert(crate::text::precedes(elements@[j - 1].0, elements@[j as int].0));
            }
        }
        primary.push_last(name, color);
        opposite.push_last(name, opposite_color);
        proof {
            assert forall|k: int| 0 <= k < j + 1 implies {
                &&& (#[trigger] elements@[k]).0 == primary@[k].0
                &&& elements@[k].0 == opposite@[k].0
                &&& element_plan(colors@, inverse@, elements@[k].1) matches Ok(plan)
                &&& made_by(*render, plan.0, plan.1, primary@[k].1)
                &&& made_by(*render, plan.0, plan.2, opposite@[k].1)
            } by {}
        }
        j += 1;
    }
    Ok((primary, opposite))
}

/// The two themes of a configuration: the written one and the opposite one.
fn render_themes<'a, F: Fn(Lch, &Vec<ColorStep>) -> Rgb8>(
    colors: &Palette<'a>,
    inverse: &Inverse<'a>,
    themes: &ThemeNamespaces<'a>,
    render: &F,
) -> (r: Result<(Theme<'a>, Theme<'a>), Error>)
    requires
        forall|base: Lch, steps: &Vec<ColorStep>| call_requires(*render, (base, steps)),
    ensures
        match themes_missing_from(colors@, inverse@, themes@, 0) {
            Some(name) => r matches Err(e) && e@ == ErrorView::ColorMissing(name),
            None => {
                &&& r matches Ok(pair)
                &&& rendered(*render, colors@, inverse@, themes@, pair.0@, pair.1@)
                &&& sorted(themes@)
                &&& sorted(pair.0@)
                &&& sorted(pair.1@)
            },
        },
{
    let mut primary: NameMap<'a, NameMap<'a, Rgb8>> = NameMap::new();
    let mut opposite: NameMap<'a, NameMap<'a, Rgb8>> = NameMap::new();
    let n = themes.0.len();
    let mut i: usize = 0;
    proof {
        use_type_invariant(&themes.0);
        themes.0.lemma_sorted();
    }
    while i < n
        invariant
            n == themes@.len(),
            themes@ == themes.0@,
            0 <= i <= n,
            sorted(themes@),
            forall|base: Lch, steps: &Vec<ColorStep>| call_requires(*render, (base, steps)),
            themes_missing_from(colors@, inverse@, themes@, 0) == themes_missing_from(
                colors@,
                inverse@,
                themes@,
                i as int,
            ),
            primary@.len() == i,
            opposite@.len() == i,
            forall|k: int|
                0 <= k < i ==> (#[trigger] themes@[k]).0 == primary@[k].0 && themes@[k].0
                    == opposite@[k].0 && themes@[k].1.len() == primary@[k].1.len()
                    && themes@[k].1.len() == opposite@[k].1.len(),
            forall|k: int, j: int|
                0 <= k < i && 0 <= j < themes@[k].1.len() ==> {
                    &&& (#[trigger] themes@[k].1[j]).0 == primary@[k].1[j].0
                    &&& themes@[k].1[j].0 == opposite@[k].1[j].0
                    &&& element_plan(colors@, inverse@, themes@[k].1[j].1) matches Ok(plan)
                    &&& made_by(*render, plan.0, plan.1, primary@[k].1[j].1)
                    &&& made_by(*render, plan.0, plan.2, opposite@[k].1[j].1)
                },
        decreases n - i,
    {
        let namespace = themes.0.name_at(i);
        let elements = themes.0.value_at(i);
        let (colors_here, opposite_here) = render_elements(colors, inverse, elements, render)?;
        proof {
            if i > 0 {
                assert(crate::text::precedes(themes@[i - 1].0, themes@[i as int].0));
            }
        }
        primary.push_last(namespace, colors_here);
        opposite.push_last(namespace, opposite_here);
        proof {
            assert forall|k: int| 0 <= k < i + 1 implies (#[trigger] themes@[k]).0
                == primary@[k].0 && themes@[k].0 == opposite@[k].0 && themes@[k].1.len()
                == primary@[k].1.len() && themes@[k].1.len() == opposite@[k].1.len() by {}
            assert forall|k: int, j: int| 0 <= k < i + 1 && 0 <= j < themes@[k].1.len() implies {
                &&& (#[trigger] themes@[k].1[j]).0 == primary@[k].1[j].0
                &&& themes@[k].1[j].0 == opposite@[k].1[j].0
                &&& element_plan(colors@, inverse@, themes@[k].1[j].1) matches Ok(plan)
                &&& made_by(*render, plan.0, plan.1, primary@[k].1[j].1)
                &&& made_by(*render, plan.0, plan.2, opposite@[k].1[j].1)
            } by {}
        }
        i += 1;
    }
    proof {
        use_type_invariant(&primary);
        primary.lemma_sorted();
        use_type_invariant(&opposite);
        opposite.lemma_sorted();
    }
    Ok((Theme { colors: primary }, Theme { colors: opposite }))
}

/// The text of a theme element that the theme lacks, as an error.
fn missing(e: NamespacedThemeElement<'_>) -> (r: Error)
    ensures
        r@ == ErrorView::ThemeElementMissing(theme_element_text(e@)),
{
    Error::ThemeElementMissing(e.to_string())
}

/// Checks that the theme holds every theme element that a highlight group names.
fn check_highlights(highlights: &NameMap<'_, Highlight<'_>>, theme: &Theme<'_>) -> (r: Result<
    (),
    Error,
>)
    ensures
        match first_dangling_from(theme@, highlights@, 0) {
            Some(e) => r matches Err(err) && err@ == ErrorView::ThemeElementMissing(
                theme_element_text(e),
            ),
            None => r is Ok,
        },
{
    let n = highlights.len();
    let mut i: usize = 0;
    while i < n
        invariant
            n == highlights@.len(),
            0 <= i <= n,
            first_dangling_from(theme@, highlights@, 0) == first_dangling_from(
                theme@,
                highlights@,
                i as int,
            ),
        decreases n - i,
    {
        let h = highlights.value_at(i);
        if let Some(fg) = h.fg {
            if theme.get_color(fg).is_none() {
                return Err(missing(fg));
            }
        }
        if let Some(bg) = h.bg {
            if theme.get_color(bg).is_none() {
                return Err(missing(bg));
            }
        }
        if let Some(sp) = h.sp {
            if theme.get_color(sp).is_none() {
                return Err(missing(sp));
            }
        }
        i += 1;
    }
    Ok(())
}

/// Makes a colour scheme of a configuration. `render` computes one colour of a theme: it
/// is given a colour of the palette and the steps to take from it, and returns the colour
/// that a screen shows for the outcome.
pub fn resolve<'a, F: Fn(Lch, &Vec<ColorStep>) -> Rgb8>(config: Configuration<'a>, render: F) -> (r:
    Result<Colorscheme<'a>, Error>)
    requires
        forall|base: Lch, steps: &Vec<ColorStep>| call_requires(render, (base, steps)),
    ensures
        match resolve_failure(
            config.colors@,
            config.inverse@,
            config.themes@,
            config.highlights@,
        ) {
            Some(e) => r matches Err(err) && err@ == e,
            None => r matches Ok(cs) && resolved(
                render,
                config.name@,
                config.kind,
                config.colors@,
                config.inverse@,
                config.themes@,
                config.highlights@,
                cs@,
            ),
        },
{
    let Configuration { name, kind, inverse, colors, themes, highlights } = config;
    let mut highlights = highlights;
    let ghost groups = highlights@;
    proof {
        use_type_invariant(&highlights);
        highlights.lemma_sorted();
    }
    reduce_link_depth(&mut highlights)?;
    let (primary, opposite) = render_themes(&colors, &inverse, &themes, &render)?;
    proof {
        lemma_same_names_dangling(themes@, primary@, highlights@, 0);
    }
    check_highlights(&highlights, &primary)?;
    proof {
        lemma_reduced_links_end(groups);
        assert forall|i: int| 0 <= i < highlights@.len() implies colored(
            primary@,
            (#[trigger] highlights@[i]).1,
        ) && colored(opposite@, highlights@[i].1) by {
            lemma_none_dangling(primary@, highlights@, 0, i);
            let h = highlights@[i].1;
            if h.fg is Some {
                lemma_same_names_known(themes@, primary@, h.fg.unwrap());
                lemma_same_names_known(themes@, opposite@, h.fg.unwrap());
            }
            if h.bg is Some {
                lemma_same_names_known(themes@, primary@, h.bg.unwrap());
                lemma_same_names_known(themes@, opposite@, h.bg.unwrap());
            }
            if h.sp is Some {
                lemma_same_names_known(themes@, primary@, h.sp.unwrap());
                lemma_same_names_known(themes@, opposite@, h.sp.unwrap());
            }
        }
        assert(same_names(primary@, opposite@) && same_names(opposite@, primary@)) by {
            assert forall|i: int| 0 <= i < primary@.len() implies (#[trigger] primary@[i]).0
                == opposite@[i].0 && primary@[i].1.len() == opposite@[i].1.len() by {
                assert(themes@[i].0 == primary@[i].0);
            }
            assert forall|i: int, j: int|
                0 <= i < primary@.len() && 0 <= j < primary@[i].1.len() implies (
            #[trigger] primary@[i].1[j]).0 == opposite@[i].1[j].0 by {
                assert(themes@[i].1[j].0 == primary@[i].1[j].0);
            }
            assert forall|i: int| 0 <= i < opposite@.len() implies (#[trigger] opposite@[i]).0
                == primary@[i].0 && opposite@[i].1.len() == primary@[i].1.len() by {}
            assert forall|i: int, j: int|
                0 <= i < opposite@.len() && 0 <= j < opposite@[i].1.len() implies (
            #[trigger] opposite@[i].1[j]).0 == primary@[i].1[j].0 by {}
        }
    }
    let cs = match kind {
        Kind::Light => Colorscheme {
            name,
            kind,
            light_theme: primary,
            dark_theme: opposite,
            highlights,
        },
        Kind::Dark => Colorscheme {
            name,
            kind,
            light_theme: opposite,
            dark_theme: primary,
            highlights,
        },
    };
    Ok(cs)
}

/// Makes a colour scheme of a configuration document: reads the kind, fills the gaps among
/// the highlight groups from the built-in ones, and resolves the colours with `render`.
pub fn parse<'a, F: Fn(Lch, &Vec<ColorStep>) -> Rgb8>(
    document: Document<'a>,
    defaults: &Vec<(&'a str, Highlight<'a>)>,
    render: F,
) -> (r: Result<Colorscheme<'a>, Error>)
    requires
        forall|base: Lch, steps: &Vec<ColorStep>| call_requires(render, (base, steps)),
    ensures
        match kind_of(document.kind@) {
            None => r matches Err(Error::InvalidKind),
            Some(kind) => {
                let palette = expanded_palette(
                    named(document.colors@),
                    named(document.hues@),
                    named(document.groups@),
                );
                let groups = with_defaults(document.highlights@, highlight_views(defaults@));
                match resolve_failure(palette, document.inverse@, document.themes@, groups) {
                    Some(e) => r matches Err(err) && err@ == e,
                    None => r matches Ok(cs) && resolved(
                        render,
                        document.name@,
                        kind,
                        palette,
                        document.inverse@,
                        document.themes@,
                        groups,
                        cs@,
                    ),
                }
            },
        },
{
    let config = parse_configuration(document, defaults)?;
    resolve(config, render)
}

} // verus!
