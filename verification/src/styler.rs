//! A colour scheme as CSS variables, for a preview of highlighted text in a browser.

use crate::colorscheme::{
    opposite_theme, parse, primary_theme, resolve_failure, resolved, rgb_text, theme_color,
    Colorscheme, ColorschemeView, Rgb8, ThemeView,
};
use crate::configuration::{
    expanded_palette, highlight_views, kind_of, named, texts, with_defaults, Document, Highlight,
    HighlightView, Lch, NamespacedThemeElementView,
};
use crate::compiler_vim::unlinkable;
use crate::error::{Error, ErrorView};
use crate::links::{reduced, Groups};
use crate::modifiers::ColorStep;
use crate::name_map::lookup;
use vstd::prelude::*;
use vstd::std_specs::iter::IteratorSpec;

verus! {

/// The editor that a script is compiled for.
#[derive(Clone, Copy, Debug, PartialEq, Eq, Structural)]
pub enum Target {
    Neovim,
    Vim,
}

/// A character of a group's name as a CSS identifier takes it: `@` and `.` get a backslash
/// in front.
pub open spec fn escaped_char(c: char) -> Seq<char> {
    if c == '@' || c == '.' {
        seq!['\\', c]
    } else {
        seq![c]
    }
}

/// The name of a group as a CSS identifier takes it.
pub open spec fn escaped(name: Seq<char>) -> Seq<char>
    decreases name.len(),
{
    if name.len() == 0 {
        Seq::empty()
    } else {
        escaped(name.drop_last()) + escaped_char(name.last())
    }
}

/// The name of a group as a CSS identifier takes it.
pub fn escape(name: &str) -> (r: String)
    ensures
        r@ == escaped(name@),
{
    broadcast use vstd::string::group_string_axioms;

    proof {
        reveal_strlit("\\@");
        reveal_strlit("\\.");
    }
    let n = name.unicode_len();
    let mut r = String::new();
    let mut it = name.chars();
    let mut i: usize = 0;
    loop
        invariant
            n == name@.len(),
            0 <= i <= n,
            it.remaining() == name@.skip(i as int),
            r@ == escaped(name@.take(i as int)),
            "\\@"@ == seq!['\\', '@'],
            "\\."@ == seq!['\\', '.'],
            it.decrease() is Some,
        decreases it.decrease()->0,
    {
        broadcast use vstd::string::group_string_axioms;

        match it.next() {
            None => {
                assert(name@.take(i as int) =~= name@);
                return r;
            },
            Some(c) => {
                if c == '@' {
                    r.append("\\@");
                } else if c == '.' {
                    r.append("\\.");
                } else {
                    r.append(name.substring_char(i, i + 1));
                }
                proof {
                    let next = name@.take(i + 1);
                    assert(next.drop_last() =~= name@.take(i as int));
                }
                i += 1;
            },
        }
    }
}

/// The declaration of one variable of a group.
pub open spec fn variable(group: Seq<char>, property: Seq<char>, value: Seq<char>) -> Seq<char> {
    "--"@ + group + "--"@ + property + ": "@ + value + "; "@
}

/// The colour that a theme holds for an element, where there is an element and the theme
/// holds it.
pub open spec fn element_color(theme: ThemeView, e: Option<NamespacedThemeElementView>) -> Option<
    Rgb8,
> {
    match e {
        Some(e) => theme_color(theme, e),
        None => None,
    }
}

/// The declaration of a colour of a group, where there is a colour.
pub open spec fn color_variable(group: Seq<char>, property: Seq<char>, color: Option<Rgb8>) -> Seq<
    char,
> {
    match color {
        Some(color) => variable(group, property, rgb_text(color)),
        None => Seq::empty(),
    }
}

/// The way in which a group's text is decorated: the first of underline, undercurl,
/// underdouble, underdotted, underdashed and strikethrough that is switched on.
pub open spec fn decoration(h: HighlightView) -> Option<Seq<char>> {
    if h.underline == Some(true) {
        Some("underline"@)
    } else if h.undercurl == Some(true) {
        Some("underline wavy"@)
    } else if h.underdouble == Some(true) {
        Some("underline double"@)
    } else if h.underdotted == Some(true) {
        Some("underline dotted"@)
    } else if h.underdashed == Some(true) {
        Some("underline dashed"@)
    } else if h.strikethrough == Some(true) {
        Some("line-through"@)
    } else {
        None
    }
}

/// The declarations of the styles of a group: weight, slant and decoration.
pub open spec fn style_variables(group: Seq<char>, h: HighlightView) -> Seq<char> {
    (if h.bold == Some(true) {
        variable(group, "font-weight"@, "600"@)
    } else {
        Seq::empty()
    }) + (if h.italic == Some(true) {
        variable(group, "font-style"@, "italic"@)
    } else {
        Seq::empty()
    }) + (match decoration(h) {
        Some(value) => variable(group, "text-decoration"@, value),
        None => Seq::empty(),
    })
}

/// The declarations of the colours of a group: foreground and background in the written
/// theme, then in the opposite theme.
pub open spec fn color_variables(group: Seq<char>, h: HighlightView, cs: ColorschemeView) -> Seq<
    char,
> {
    color_variable(group, "fg"@, element_color(primary_theme(cs), h.fg)) + color_variable(
        group,
        "bg"@,
        element_color(primary_theme(cs), h.bg),
    ) + color_variable(group, "inverse-fg"@, element_color(opposite_theme(cs), h.fg))
        + color_variable(group, "inverse-bg"@, element_color(opposite_theme(cs), h.bg))
}

/// The group whose colours and styles a group shows: the group that it links to, where it
/// links, and else itself. A group that links to no group shows nothing.
pub open spec fn shown(h: HighlightView, cs: ColorschemeView) -> Option<HighlightView> {
    match h.link {
        Some(link) => lookup(cs.highlights, link),
        None => Some(h),
    }
}

/// The declarations of a group.
pub open spec fn group_style(group: Seq<char>, h: HighlightView, cs: ColorschemeView) -> Seq<
    char,
> {
    match shown(h, cs) {
        Some(s) => color_variables(escaped(group), s, cs) + style_variables(escaped(group), s),
        None => Seq::empty(),
    }
}

/// The declarations of the groups, one group after the other.
pub open spec fn groups_style(groups: Groups, cs: ColorschemeView) -> Seq<char>
    decreases groups.len(),
{
    if groups.len() == 0 {
        Seq::empty()
    } else {
        groups_style(groups.drop_last(), cs) + group_style(
            groups.last().0,
            groups.last().1,
            cs,
        )
    }
}

fn variable_text(group: &str, property: &str, value: &str) -> (r: String)
    ensures
        r@ == variable(group@, property@, value@),
{
    let mut r = String::from_str("--");
    r.append(group);
    r.append("--");
    r.append(property);
    r.append(": ");
    r.append(value);
    r.append("; ");
    r
}

fn color_variable_text(group: &str, property: &str, color: Option<Rgb8>) -> (r: String)
    ensures
        r@ == color_variable(group@, property@, color),
{
    match color {
        Some(color) => {
            let text = color.to_string();
            variable_text(group, property, text.as_str())
        },
        None => String::new(),
    }
}

fn is_on(flag: Option<bool>) -> (r: bool)
    ensures
        r == (flag == Some(true)),
{
    match flag {
        Some(on) => on,
        None => false,
    }
}

fn decoration_word(h: &Highlight<'_>) -> (r: Option<&'static str>)
    ensures
        match decoration(h@) {
            Some(value) => r matches Some(word) && word@ == value,
            None => r is None,
        },
{
    if is_on(h.underline) {
        Some("underline")
    } else if is_on(h.undercurl) {
        Some("underline wavy")
    } else if is_on(h.underdouble) {
        Some("underline double")
    } else if is_on(h.underdotted) {
        Some("underline dotted")
    } else if is_on(h.underdashed) {
        Some("underline dashed")
    } else if is_on(h.strikethrough) {
        Some("line-through")
    } else {
        None
    }
}

fn style_variables_text(group: &str, h: &Highlight<'_>) -> (r: String)
    ensures
        r@ == style_variables(group@, h@),
{
    let mut r = if is_on(h.bold) {
        variable_text(group, "font-weight", "600")
    } else {
        String::new()
    };
    if is_on(h.italic) {
        let slant = variable_text(group, "font-style", "italic");
        r.append(slant.as_str());
    }
    if let Some(word) = decoration_word(h) {
        let text = variable_text(group, "text-decoration", word);
        r.append(text.as_str());
    }
    r
}

fn color_variables_text(group: &str, h: &Highlight<'_>, colorscheme: &Colorscheme<'_>) -> (r: String)
    ensures
        r@ == color_variables(group@, h@, colorscheme@),
{
    let fg = match h.fg {
        Some(e) => colorscheme.get_color(e),
        None => None,
    };
    let bg = match h.bg {
        Some(e) => colorscheme.get_color(e),
        None => None,
    };
    let inverse_fg = match h.fg {
        Some(e) => colorscheme.get_inverse_color(e),
        None => None,
    };
    let inverse_bg = match h.bg {
        Some(e) => colorscheme.get_inverse_color(e),
        None => None,
    };
    let mut r = color_variable_text(group, "fg", fg);
    let second = color_variable_text(group, "bg", bg);
    let third = color_variable_text(group, "inverse-fg", inverse_fg);
    let fourth = color_variable_text(group, "inverse-bg", inverse_bg);
    r.append(second.as_str());
    r.append(third.as_str());
    r.append(fourth.as_str());
    r
}

/// Appends the declarations of one group to `w`.
pub fn style_group(
    w: &mut String,
    group: &str,
    highlight: Highlight<'_>,
    colorscheme: &Colorscheme<'_>,
)
    ensures
        final(w)@ == old(w)@ + group_style(group@, highlight@, colorscheme@),
{
    let target = match highlight.link {
        Some(link) => colorscheme.highlight(link),
        None => Some(highlight),
    };
    if let Some(h) = target {
        let name = escape(group);
        let mut text = color_variables_text(name.as_str(), &h, colorscheme);
        let styles = style_variables_text(name.as_str(), &h);
        text.append(styles.as_str());
        w.append(text.as_str());
    }
}

/// The declarations of the groups that are listed by name, one after the other. A name that
/// no group has adds nothing.
pub open spec fn listed_style(names: Seq<Seq<char>>, cs: ColorschemeView) -> Seq<char>
    decreases names.len(),
{
    if names.len() == 0 {
        Seq::empty()
    } else {
        listed_style(names.drop_last(), cs) + (match lookup(cs.highlights, names.last()) {
            Some(h) => group_style(names.last(), h, cs),
            None => Seq::empty(),
        })
    }
}

/// The script of a colour scheme for a target, where there is one.
pub open spec fn script(target: Target, cs: ColorschemeView) -> Option<Seq<char>> {
    match target {
        Target::Neovim => Some(crate::compiler_neovim::program(cs)),
        Target::Vim => crate::compiler_vim::program(cs),
    }
}

/// A colour scheme with its script and its CSS variables.
pub struct Compiled<'a> {
    pub name: &'a str,
    pub css_variables: String,
    pub compiled_colorscheme: String,
    pub colorscheme: Colorscheme<'a>,
}

/// The script of a colour scheme for a target.
pub fn compile_target(colorscheme: &Colorscheme<'_>, target: Target) -> (r: Result<String, Error>)
    ensures
        match script(target, colorscheme@) {
            Some(text) => r matches Ok(s) && s@ == text,
            None => r matches Err(Error::CompilationFailed),
        },
        r is Err <==> target == Target::Vim && crate::compiler_vim::unlinkable(
            colorscheme@.highlights,
        ),
{
    match target {
        Target::Neovim => crate::compiler_neovim::compile(colorscheme),
        Target::Vim => crate::compiler_vim::compile(colorscheme),
    }
}

/// The CSS variables of all groups of a colour scheme.
pub fn all_variables(colorscheme: &Colorscheme<'_>) -> (r: String)
    ensures
        r@ == groups_style(colorscheme@.highlights, colorscheme@),
{
    let highlights = colorscheme.groups();
    let ghost groups = colorscheme@.highlights;
    let mut css = String::new();
    let n = highlights.len();
    let mut i: usize = 0;
    while i < n
        invariant
            n == groups.len(),
            highlights@ == groups,
            groups == colorscheme@.highlights,
            0 <= i <= n,
            css@ == groups_style(groups.take(i as int), colorscheme@),
        decreases n - i,
    {
        style_group(&mut css, highlights.name_at(i), *highlights.value_at(i), colorscheme);
        proof {
            let next = groups.take(i + 1);
            assert(next.drop_last() =~= groups.take(i as int));
        }
        i += 1;
    }
    assert(groups.take(n as int) =~= groups);
    css
}

/// The CSS variables of the groups of a colour scheme that are listed by name.
pub fn listed_variables(colorscheme: &Colorscheme<'_>, groups: &Vec<&str>) -> (r: String)
    ensures
        r@ == listed_style(texts(groups@), colorscheme@),
{
    let ghost names = texts(groups@);
    let mut css = String::new();
    let mut i: usize = 0;
    while i < groups.len()
        invariant
            names == texts(groups@),
            0 <= i <= groups@.len(),
            css@ == listed_style(names.take(i as int), colorscheme@),
        decreases groups@.len() - i,
    {
        proof {
            let next = names.take(i + 1);
            assert(next.drop_last() =~= names.take(i as int));
        }
        if let Some(h) = colorscheme.highlight(groups[i]) {
            style_group(&mut css, groups[i], h, colorscheme);
        }
        i += 1;
    }
    assert(names.take(i as int) =~= names);
    css
}

/// Why a configuration document has no script for a target, if it has none: the kind is
/// not one, or no colour scheme comes of the configuration, or the script cannot hold one
/// of the groups.
pub open spec fn style_failure<'a>(
    document: Document<'a>,
    defaults: Seq<(&'a str, Highlight<'a>)>,
    target: Target,
) -> Option<ErrorView> {
    let groups = with_defaults(document.highlights@, highlight_views(defaults));
    if kind_of(document.kind@) is None {
        Some(ErrorView::InvalidKind)
    } else {
        match resolve_failure(
            expanded_palette(
                named(document.colors@),
                named(document.hues@),
                named(document.groups@),
            ),
            document.inverse@,
            document.themes@,
            groups,
        ) {
            Some(e) => Some(e),
            None => if target == Target::Vim && unlinkable(reduced(groups)) {
                Some(ErrorView::CompilationFailed)
            } else {
                None
            },
        }
    }
}

/// `compiled` holds the colour scheme that comes of the document with `render`, under its
/// name, and the script of that colour scheme for the target.
pub open spec fn compiled_from<'a, F: Fn(Lch, &Vec<ColorStep>) -> Rgb8>(
    render: F,
    document: Document<'a>,
    defaults: Seq<(&'a str, Highlight<'a>)>,
    target: Target,
    compiled: Compiled<'a>,
) -> bool {
    &&& kind_of(document.kind@) matches Some(kind) && resolved(
        render,
        document.name@,
        kind,
        expanded_palette(named(document.colors@), named(document.hues@), named(document.groups@)),
        document.inverse@,
        document.themes@,
        with_defaults(document.highlights@, highlight_views(defaults)),
        compiled.colorscheme@,
    )
    &&& compiled.name@ == document.name@
    &&& script(target, compiled.colorscheme@) == Some(compiled.compiled_colorscheme@)
}

/// Makes a colour scheme of a configuration document and compiles it for the target,
/// with the CSS variables of the groups that are listed by name.
pub fn style_groups<'a, F: Fn(Lch, &Vec<ColorStep>) -> Rgb8>(
    document: Document<'a>,
    defaults: &Vec<(&'a str, Highlight<'a>)>,
    render: F,
    groups: &Vec<&str>,
    target: Target,
) -> (r: Result<Compiled<'a>, Error>)
    requires
        forall|base: Lch, steps: &Vec<ColorStep>| call_requires(render, (base, steps)),
    ensures
        match style_failure(document, defaults@, target) {
            Some(e) => r matches Err(err) && err@ == e,
            None => {
                &&& r matches Ok(compiled)
                &&& compiled_from(render, document, defaults@, target, compiled)
                &&& compiled.css_variables@ == listed_style(
                    texts(groups@),
                    compiled.colorscheme@,
                )
            },
        },
{
    let colorscheme = parse(document, defaults, render)?;
    let compiled_colorscheme = compile_target(&colorscheme, target)?;
    let css_variables = listed_variables(&colorscheme, groups);
    Ok(Compiled { name: colorscheme.name(), css_variables, compiled_colorscheme, colorscheme })
}

/// Makes a colour scheme of a configuration document and compiles it for the target,
/// with the CSS variables of all its groups.
pub fn style<'a, F: Fn(Lch, &Vec<ColorStep>) -> Rgb8>(
    document: Document<'a>,
    defaults: &Vec<(&'a str, Highlight<'a>)>,
    render: F,
    target: Target,
) -> (r: Result<Compiled<'a>, Error>)
    requires
        forall|base: Lch, steps: &Vec<ColorStep>| call_requires(render, (base, steps)),
    ensures
        match style_failure(document, defaults@, target) {
            Some(e) => r matches Err(err) && err@ == e,
            None => {
                &&& r matches Ok(compiled)
                &&& compiled_from(render, document, defaults@, target, compiled)
                &&& compiled.css_variables@ == groups_style(
                    compiled.colorscheme@.highlights,
                    compiled.colorscheme@,
                )
            },
        },
{
    let colorscheme = parse(document, defaults, render)?;
    let compiled_colorscheme = compile_target(&colorscheme, target)?;
    let css_variables = all_variables(&colorscheme);
    Ok(Compiled { name: colorscheme.name(), css_variables, compiled_colorscheme, colorscheme })
}

} // verus!
