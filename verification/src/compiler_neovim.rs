//! The compiler for Neovim: a colour scheme as a Vim script that holds a Lua block.

use crate::colorscheme::{rgb_text, Colorscheme, ColorschemeView, Rgb8, Theme, ThemeView};
use crate::configuration::{
    element_view, gui_styles, texts, Highlight, HighlightView, NamespacedThemeElement,
    NamespacedThemeElementView,
};
use crate::error::Error;
use crate::links::Groups;
use crate::text::{deeper, indentation, push_indentation, shallower};
use vstd::prelude::*;

verus! {

/// The line that gives one theme element its colour, inside the table of its namespace.
pub open spec fn color_line(level: u8, name: Seq<char>, color: Rgb8) -> Seq<char> {
    indentation(level) + "[\""@ + name + "\"] = \""@ + rgb_text(color) + "\""@ + ",\n"@
}

/// The lines of the elements of one namespace.
pub open spec fn color_lines(level: u8, elements: Seq<(Seq<char>, Rgb8)>) -> Seq<char>
    decreases elements.len(),
{
    if elements.len() == 0 {
        Seq::empty()
    } else {
        color_lines(level, elements.drop_last()) + color_line(
            level,
            elements.last().0,
            elements.last().1,
        )
    }
}

/// The table of one theme namespace: a local variable that maps each element's name to
/// its colour.
pub open spec fn namespace_table(
    level: u8,
    namespace: Seq<char>,
    elements: Seq<(Seq<char>, Rgb8)>,
) -> Seq<char> {
    indentation(level) + "local "@ + namespace + " = {\n"@ + color_lines(deeper(level), elements)
        + indentation(level) + "}\n"@
}

/// The tables of a theme, one for each namespace.
pub open spec fn theme_tables(level: u8, theme: ThemeView) -> Seq<char>
    decreases theme.len(),
{
    if theme.len() == 0 {
        Seq::empty()
    } else {
        theme_tables(level, theme.drop_last()) + namespace_table(
            level,
            theme.last().0,
            theme.last().1,
        )
    }
}

/// The fields that switch styles on, one for each style.
pub open spec fn style_fields(styles: Seq<Seq<char>>) -> Seq<char>
    decreases styles.len(),
{
    if styles.len() == 0 {
        Seq::empty()
    } else {
        style_fields(styles.drop_last()) + styles.last() + " = true, "@
    }
}

/// The field that holds a link.
pub open spec fn link_field(link: Seq<char>) -> Seq<char> {
    "link = \""@ + link + "\", "@
}

/// The field that holds the foreground, where it is set: a look-up in the table of the
/// namespace.
pub open spec fn fg_field(fg: Option<NamespacedThemeElementView>) -> Seq<char> {
    match fg {
        Some(fg) => "fg = "@ + fg.theme_namespace + "[\""@ + fg.element_name + "\"], "@,
        None => Seq::empty(),
    }
}

/// The field that holds the background, where it is set: a look-up in the table of the
/// namespace.
pub open spec fn bg_field(bg: Option<NamespacedThemeElementView>) -> Seq<char> {
    match bg {
        Some(bg) => "bg = "@ + bg.theme_namespace + "."@ + bg.element_name + ", "@,
        None => Seq::empty(),
    }
}

/// The fields of a highlight group. A group that links has the link and nothing else.
/// Another group has its foreground, its background and its styles.
pub open spec fn highlight_fields(h: HighlightView) -> Seq<char> {
    match h.link {
        Some(link) => link_field(link),
        None => fg_field(h.fg) + bg_field(h.bg) + style_fields(gui_styles(h)),
    }
}

/// The statement that defines one highlight group.
pub open spec fn highlight_statement(level: u8, name: Seq<char>, h: HighlightView) -> Seq<char> {
    indentation(level) + "vim.api.nvim_set_hl(0, \""@ + name + "\", { "@ + highlight_fields(h)
        + "})\n"@
}

/// The statements that define the highlight groups, in the order of their names.
pub open spec fn highlight_statements(level: u8, groups: Groups) -> Seq<char>
    decreases groups.len(),
{
    if groups.len() == 0 {
        Seq::empty()
    } else {
        highlight_statements(level, groups.drop_last()) + highlight_statement(
            level,
            groups.last().0,
            groups.last().1,
        )
    }
}

/// The body of a set-up function: the tables of the theme, then the highlight groups.
pub open spec fn setup_body(level: u8, theme: ThemeView, groups: Groups) -> Seq<char> {
    indentation(level) + "-- Colors\n"@ + theme_tables(level, theme) + "\n"@ + indentation(level)
        + "-- Highlights\n"@ + highlight_statements(level, groups)
}

/// A set-up function: its head, its body one level deeper, and its end.
pub open spec fn setup_function(level: u8, head: Seq<char>, theme: ThemeView, groups: Groups) -> Seq<
    char,
> {
    indentation(level) + head + setup_body(deeper(level), theme, groups) + indentation(
        shallower(deeper(level)),
    ) + "end\n"@
}

/// The set-up function of the light theme.
pub open spec fn light_setup(level: u8, cs: ColorschemeView) -> Seq<char> {
    setup_function(
        level,
        "local function setupLightColorscheme()\n"@,
        cs.light_theme,
        cs.highlights,
    )
}

/// The set-up function of the dark theme.
pub open spec fn dark_setup(level: u8, cs: ColorschemeView) -> Seq<char> {
    setup_function(
        level,
        "local function setupDarkColorscheme()\n"@,
        cs.dark_theme,
        cs.highlights,
    )
}

/// The script for Neovim. It clears the highlighting, switches true colour on and names
/// the colour scheme; then, in Lua, it defines the set-up functions of the two themes and
/// calls the one that fits the background.
pub open spec fn program(cs: ColorschemeView) -> Seq<char> {
    "hi clear\nset termguicolors\nlet g:colors_name = \""@ + cs.name + "\"\n\nlua << EOF\n"@
        + light_setup(1, cs) + "\n"@ + dark_setup(1, cs) + "\n"@
        + "    if vim.o.background == \"dark\" then\n        setupDarkColorscheme()\n    else\n        setupLightColorscheme()\n    end\nEOF\n"@
}

/// A script for Neovim in the making.
pub struct Compiler<'c> {
    colorscheme: &'c Colorscheme<'c>,
    program: String,
    indent: u8,
}

impl<'c> Compiler<'c> {
    /// The text written so far.
    pub closed spec fn text(&self) -> Seq<char> {
        self.program@
    }

    /// How deep the next line is indented.
    pub closed spec fn level(&self) -> u8 {
        self.indent
    }

    /// The colour scheme that is compiled.
    pub closed spec fn scheme(&self) -> ColorschemeView {
        self.colorscheme@
    }

    /// This compiler is `before` with `written` added to its text.
    pub open spec fn continues(&self, before: &Self, written: Seq<char>) -> bool {
        &&& self.text() == before.text() + written
        &&& self.level() == before.level()
        &&& self.scheme() == before.scheme()
    }

    /// A compiler that has written nothing yet.
    pub fn new(colorscheme: &'c Colorscheme<'c>) -> (r: Self)
        ensures
            r.text() == Seq::<char>::empty(),
            r.level() == 0,
            r.scheme() == colorscheme@,
    {
        Compiler { colorscheme, program: String::new(), indent: 0 }
    }

    /// The text written so far.
    pub fn into_program(self) -> (r: String)
        ensures
            r@ == self.text(),
    {
        self.program
    }

    fn indent(&mut self)
        ensures
            final(self).text() == old(self).text(),
            final(self).level() == deeper(old(self).level()),
            final(self).scheme() == old(self).scheme(),
    {
        self.indent = self.indent.saturating_add(1);
    }

    fn dedent(&mut self)
        ensures
            final(self).text() == old(self).text(),
            final(self).level() == shallower(old(self).level()),
            final(self).scheme() == old(self).scheme(),
    {
        self.indent = self.indent.saturating_sub(1);
    }

    fn write_indent(&mut self)
        ensures
            final(self).continues(old(self), indentation(old(self).level())),
    {
        let level = self.indent;
        push_indentation(&mut self.program, level);
    }

    fn write_indent_at(&mut self, level: u8)
        ensures
            final(self).continues(old(self), indentation(level)),
    {
        push_indentation(&mut self.program, level);
    }

    fn write(&mut self, s: &str)
        ensures
            final(self).continues(old(self), s@),
    {
        self.program.append(s);
    }

    fn compile_themes(&mut self, theme: &Theme<'_>)
        ensures
            final(self).continues(old(self), theme_tables(old(self).level(), theme@)),
    {
        let ghost level = self.level();
        let ghost start = self.text();
        let inner = self.indent.saturating_add(1);
        let n = theme.colors.len();
        let mut i: usize = 0;
        while i < n
            invariant
                n == theme@.len(),
                0 <= i <= n,
                self.level() == level,
                inner == deeper(level),
                self.scheme() == old(self).scheme(),
                self.text() == start + theme_tables(level, theme@.take(i as int)),
            decreases n - i,
        {
            let namespace = theme.colors.name_at(i);
            let elements = theme.colors.value_at(i);
            self.write_indent();
            self.write("local ");
            self.write(namespace);
            self.write(" = {\n");
            let ghost lines_start = self.text();
            let m = elements.len();
            let mut j: usize = 0;
            while j < m
                invariant
                    m == elements@.len(),
                    0 <= j <= m,
                    self.level() == level,
                    inner == deeper(level),
                    self.scheme() == old(self).scheme(),
                    self.text() == lines_start + color_lines(
                        deeper(level),
                        elements@.take(j as int),
                    ),
                decreases m - j,
            {
                let name = elements.name_at(j);
                let color = elements.value_at(j);
                self.write_indent_at(inner);
                self.write("[\"");
                self.write(name);
                self.write("\"] = \"");
                let hex = color.to_string();
                self.write(hex.as_str());
                self.write("\"");
                self.write(",\n");
                proof {
                    let next = elements@.take(j + 1);
                    assert(next.drop_last() =~= elements@.take(j as int));
                }
                j += 1;
            }
            assert(elements@.take(m as int) =~= elements@);
            self.write_indent();
            self.write("}\n");
            proof {
                let next = theme@.take(i + 1);
                assert(next.drop_last() =~= theme@.take(i as int));
            }
            i += 1;
        }
        assert(theme@.take(n as int) =~= theme@);
    }

    fn write_link(&mut self, link: &str)
        ensures
            final(self).continues(old(self), link_field(link@)),
    {
        self.write("link = \"");
        self.write(link);
        self.write("\", ");
        assert(self.text() =~= old(self).text() + link_field(link@));
    }

    fn write_fg(&mut self, fg: Option<NamespacedThemeElement<'_>>)
        ensures
            final(self).continues(old(self), fg_field(element_view(fg))),
    {
        if let Some(fg) = fg {
            self.write("fg = ");
            self.write(fg.theme_namespace);
            self.write("[\"");
            self.write(fg.element_name);
            self.write("\"], ");
        }
        assert(self.text() =~= old(self).text() + fg_field(element_view(fg)));
    }

    fn write_bg(&mut self, bg: Option<NamespacedThemeElement<'_>>)
        ensures
            final(self).continues(old(self), bg_field(element_view(bg))),
    {
        if let Some(bg) = bg {
            self.write("bg = ");
            self.write(bg.theme_namespace);
            self.write(".");
            self.write(bg.element_name);
            self.write(", ");
        }
        assert(self.text() =~= old(self).text() + bg_field(element_view(bg)));
    }

    fn write_styles(&mut self, highlight: &Highlight<'_>)
        ensures
            final(self).continues(old(self), style_fields(gui_styles(highlight@))),
    {
        let ghost start = self.text();
        let styles = highlight.gui_styles_iter();
        let mut i: usize = 0;
        while i < styles.len()
            invariant
                0 <= i <= styles@.len(),
                self.level() == old(self).level(),
                self.scheme() == old(self).scheme(),
                self.text() == start + style_fields(texts(styles@).take(i as int)),
            decreases styles@.len() - i,
        {
            self.write(styles[i]);
            self.write(" = true, ");
            proof {
                let next = texts(styles@).take(i + 1);
                assert(next.drop_last() =~= texts(styles@).take(i as int));
            }
            i += 1;
        }
        assert(texts(styles@).take(i as int) =~= gui_styles(highlight@));
    }

    fn write_fields(&mut self, highlight: &Highlight<'_>)
        ensures
            final(self).continues(old(self), highlight_fields(highlight@)),
    {
        match highlight.link {
            Some(link) => {
                self.write_link(link);
            },
            None => {
                self.write_fg(highlight.fg);
                self.write_bg(highlight.bg);
                self.write_styles(highlight);
                assert(self.text() =~= old(self).text() + highlight_fields(highlight@));
            },
        }
    }

    fn compile_highlight_group(&mut self, name: &str, highlight: &Highlight<'_>)
        ensures
            final(self).continues(
                old(self),
                highlight_statement(old(self).level(), name@, highlight@),
            ),
    {
        self.write_indent();
        self.write("vim.api.nvim_set_hl(0, \"");
        self.write(name);
        self.write("\", { ");
        self.write_fields(highlight);
        self.write("})\n");
        assert(self.text() =~= old(self).text() + highlight_statement(
            old(self).level(),
            name@,
            highlight@,
        ));
    }

    fn compile_inner(&mut self, theme: &Theme<'_>)
        ensures
            final(self).continues(
                old(self),
                setup_body(old(self).level(), theme@, old(self).scheme().highlights),
            ),
    {
        let ghost level = self.level();
        let ghost start = self.text();
        let ghost groups = self.scheme().highlights;
        self.write_indent();
        self.write("-- Colors\n");
        self.compile_themes(theme);
        self.write("\n");
        self.write_indent();
        self.write("-- Highlights\n");
        let ghost statements_start = self.text();
        let colorscheme = self.colorscheme;
        let highlights = colorscheme.groups();
        let n = highlights.len();
        let mut i: usize = 0;
        while i < n
            invariant
                n == groups.len(),
                highlights@ == groups,
                0 <= i <= n,
                self.level() == level,
                self.scheme() == old(self).scheme(),
                self.text() == statements_start + highlight_statements(
                    level,
                    groups.take(i as int),
                ),
            decreases n - i,
        {
            self.compile_highlight_group(highlights.name_at(i), highlights.value_at(i));
            proof {
                let next = groups.take(i + 1);
                assert(next.drop_last() =~= groups.take(i as int));
            }
            i += 1;
        }
        assert(groups.take(n as int) =~= groups);
        assert(self.text() =~= start + setup_body(level, theme@, groups));
    }

    fn compile_setup(&mut self, head: &str, theme: &Theme<'_>)
        ensures
            final(self).text() == old(self).text() + setup_function(
                old(self).level(),
                head@,
                theme@,
                old(self).scheme().highlights,
            ),
            final(self).level() == shallower(deeper(old(self).level())),
            final(self).scheme() == old(self).scheme(),
    {
        self.write_indent();
        self.write(head);
        self.indent();
        self.compile_inner(theme);
        self.dedent();
        self.write_indent();
        self.write("end\n");
    }

    /// Writes the set-up function of the light theme.
    pub fn compile_light_colorscheme(&mut self)
        ensures
            final(self).text() == old(self).text() + light_setup(
                old(self).level(),
                old(self).scheme(),
            ),
            final(self).level() == shallower(deeper(old(self).level())),
            final(self).scheme() == old(self).scheme(),
    {
        let colorscheme = self.colorscheme;
        self.compile_setup("local function setupLightColorscheme()\n", colorscheme.light_theme());
    }

    /// Writes the set-up function of the dark theme.
    pub fn compile_dark_colorscheme(&mut self)
        ensures
            final(self).text() == old(self).text() + dark_setup(
                old(self).level(),
                old(self).scheme(),
            ),
            final(self).level() == shallower(deeper(old(self).level())),
            final(self).scheme() == old(self).scheme(),
    {
        let colorscheme = self.colorscheme;
        self.compile_setup("local function setupDarkColorscheme()\n", colorscheme.dark_theme());
    }
}

/// Compiles a colour scheme to a script for Neovim.
pub fn compile(colorscheme: &Colorscheme<'_>) -> (r: Result<String, Error>)
    ensures
        r matches Ok(script) && script@ == program(colorscheme@),
{
    let mut compiler = Compiler::new(colorscheme);
    compiler.write("hi clear\nset termguicolors\nlet g:colors_name = \"");
    compiler.write(colorscheme.name());
    compiler.write("\"\n\nlua << EOF\n");
    compiler.indent();
    compiler.compile_light_colorscheme();
    compiler.write("\n");
    compiler.compile_dark_colorscheme();
    compiler.dedent();
    compiler.write("\n");
    compiler.write(
        "    if vim.o.background == \"dark\" then\n        setupDarkColorscheme()\n    else\n        setupLightColorscheme()\n    end\nEOF\n",
    );
    let script = compiler.into_program();
    Ok(script)
}

} // verus!
