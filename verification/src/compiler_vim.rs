//! The compiler for Vim: a colour scheme as a plain Vim script.

use crate::colorscheme::{
    colored, rgb_text, theme_color, well_formed, Colorscheme, ColorschemeView, Theme, ThemeView,
};
use crate::configuration::{
    element_view, gui_styles, texts, Highlight, HighlightView, NamespacedThemeElement,
    NamespacedThemeElementView,
};
use crate::error::Error;
use crate::links::Groups;
use crate::name_map::{has_name, index_of, lookup};
use crate::text::{deeper, indentation, push_indentation, shallower};
use vstd::prelude::*;
use vstd::std_specs::iter::IteratorSpec;

verus! {

/// A character that Vim takes in the name of a highlight group: an ASCII letter, an ASCII
/// digit or the underscore.
pub open spec fn legal_char(c: char) -> bool {
    ('a' <= c && c <= 'z') || ('A' <= c && c <= 'Z') || ('0' <= c && c <= '9') || c == '_'
}

/// A name that Vim takes for a highlight group: every character of it is legal.
pub open spec fn legal_name(name: Seq<char>) -> bool {
    forall|i: int| 0 <= i < name.len() ==> legal_char(#[trigger] name[i])
}

/// Whether Vim takes `name` for a highlight group.
pub fn vim_legal_name(name: &str) -> (r: bool)
    ensures
        r == legal_name(name@),
{
    broadcast use vstd::string::group_string_axioms;

    let mut it = name.chars();
    let ghost mut seen: int = 0;
    loop
        invariant
            0 <= seen <= name@.len(),
            it.remaining() == name@.skip(seen),
            forall|i: int| 0 <= i < seen ==> legal_char(#[trigger] name@[i]),
            it.decrease() is Some,
        decreases it.decrease()->0,
    {
        broadcast use vstd::string::group_string_axioms;

        match it.next() {
            None => {
                return true;
            },
            Some(c) => {
                let legal = ('a' <= c && c <= 'z') || ('A' <= c && c <= 'Z') || ('0' <= c && c
                    <= '9') || c == '_';
                if !legal {
                    return false;
                }
                proof {
                    seen = seen + 1;
                }
            },
        }
    }
}

/// A colour of the theme as the script writes it, or `NONE` where no colour is set. There
/// is no text where the theme lacks the colour.
pub open spec fn color_or_none(theme: ThemeView, e: Option<NamespacedThemeElementView>) -> Option<
    Seq<char>,
> {
    match e {
        Some(e) => match theme_color(theme, e) {
            Some(color) => Some(rgb_text(color)),
            None => None,
        },
        None => Some("NONE"@),
    }
}

/// The names of styles with commas between them.
pub open spec fn comma_joined(styles: Seq<Seq<char>>) -> Seq<char>
    decreases styles.len(),
{
    if styles.len() == 0 {
        Seq::empty()
    } else if styles.len() == 1 {
        styles[0]
    } else {
        comma_joined(styles.drop_last()) + ","@ + styles.last()
    }
}

/// The styles as the script lists them: with commas between them, or `NONE` for none.
pub open spec fn style_list(styles: Seq<Seq<char>>) -> Seq<char> {
    if styles.len() == 0 {
        "NONE"@
    } else {
        comma_joined(styles)
    }
}

/// The words of the command that gives the group `name` colours and styles.
pub open spec fn attributes_words(
    name: Seq<char>,
    fg: Seq<char>,
    bg: Seq<char>,
    sp: Seq<char>,
    styles: Seq<char>,
) -> Seq<char> {
    "hi "@ + name + " term=NONE cterm=NONE"@ + " guifg="@ + fg + " guibg="@ + bg + " guisp="@ + sp
        + " gui="@ + styles + "\n"@
}

/// The command that gives the group `name` the colours and styles of `h`, whatever `h` says
/// of a link. There is none where the theme lacks one of the colours.
pub open spec fn attributes_command(level: u8, theme: ThemeView, name: Seq<char>, h: HighlightView) -> Option<
    Seq<char>,
> {
    match (color_or_none(theme, h.fg), color_or_none(theme, h.bg), color_or_none(theme, h.sp)) {
        (Some(fg), Some(bg), Some(sp)) => Some(
            indentation(level) + attributes_words(name, fg, bg, sp, style_list(gui_styles(h))),
        ),
        _ => None,
    }
}

/// The words of the command that makes the group `name` a link to `link`.
pub open spec fn link_words(name: Seq<char>, link: Seq<char>) -> Seq<char> {
    "hi! link "@ + name + " "@ + link + "\n"@
}

/// The command that makes the group `name` a link to `link`.
pub open spec fn link_command(level: u8, name: Seq<char>, link: Seq<char>) -> Seq<char> {
    indentation(level) + link_words(name, link)
}

/// The command for one highlight group. A group that links to a legal name becomes a link.
/// A group that links to another name gets what the group of that name has, since that
/// group itself will not be in the script; there is no command where no such group exists.
/// A group without a link gets what it has.
pub open spec fn group_command(
    level: u8,
    groups: Groups,
    theme: ThemeView,
    name: Seq<char>,
    h: HighlightView,
) -> Option<Seq<char>> {
    match h.link {
        Some(link) => {
            if legal_name(link) {
                Some(link_command(level, name, link))
            } else {
                match lookup(groups, link) {
                    Some(target) => attributes_command(level, theme, name, target),
                    None => None,
                }
            }
        },
        None => attributes_command(level, theme, name, h),
    }
}

/// The commands for the first `n` highlight groups, in the order of their names. Groups
/// whose names are not legal are left out. There is no text where a group that is not left
/// out has no command.
pub open spec fn group_commands(level: u8, groups: Groups, theme: ThemeView, n: nat) -> Option<
    Seq<char>,
>
    decreases n,
{
    if n == 0 || n > groups.len() {
        Some(Seq::empty())
    } else {
        let (name, h) = groups[n - 1];
        match group_commands(level, groups, theme, (n - 1) as nat) {
            None => None,
            Some(before) => {
                if !legal_name(name) {
                    Some(before)
                } else {
                    match group_command(level, groups, theme, name, h) {
                        Some(command) => Some(before + command),
                        None => None,
                    }
                }
            },
        }
    }
}

/// The script for Vim. It clears the highlighting, switches true colour on and names the
/// colour scheme; then come the commands for the light theme and those for the dark theme,
/// in the two branches of a test of the background.
pub open spec fn program(cs: ColorschemeView) -> Option<Seq<char>> {
    match (
        group_commands(1, cs.highlights, cs.light_theme, cs.highlights.len()),
        group_commands(1, cs.highlights, cs.dark_theme, cs.highlights.len()),
    ) {
        (Some(light), Some(dark)) => Some(
            "hi clear\nset termguicolors\nlet g:colors_name = \""@ + cs.name + "\"\n\n"@
                + "if &background == \"light\"\n"@ + light + "else\n"@ + dark + "end"@,
        ),
        _ => None,
    }
}

/// A group that the script cannot hold: it has a legal name and links to a name that is
/// not legal and that no group has.
pub open spec fn unlinkable_at(groups: Groups, i: int) -> bool {
    &&& legal_name(groups[i].0)
    &&& groups[i].1.link matches Some(link)
    &&& !legal_name(link)
    &&& !has_name(groups, link)
}

/// Some group cannot be held by the script.
pub open spec fn unlinkable(groups: Groups) -> bool {
    exists|i: int| 0 <= i < groups.len() && unlinkable_at(groups, i)
}

/// Where the theme holds every colour that the groups name, the commands for the first `n`
/// groups exist unless one of these groups cannot be held by the script.
pub proof fn lemma_group_commands(level: u8, groups: Groups, theme: ThemeView, n: nat)
    requires
        n <= groups.len(),
        forall|i: int| 0 <= i < groups.len() ==> colored(theme, (#[trigger] groups[i]).1),
    ensures
        group_commands(level, groups, theme, n) is None <==> exists|i: int|
            0 <= i < n && unlinkable_at(groups, i),
    decreases n,
{
    if n > 0 {
        lemma_group_commands(level, groups, theme, (n - 1) as nat);
        let (name, h) = groups[n - 1];
        if legal_name(name) {
            if h.link is Some && !legal_name(h.link.unwrap()) {
                let link = h.link.unwrap();
                if has_name(groups, link) {
                    assert(colored(theme, groups[index_of(groups, link)].1));
                }
            }
        }
        if group_commands(level, groups, theme, n) is None {
            if group_commands(level, groups, theme, (n - 1) as nat) is Some {
                assert(unlinkable_at(groups, n - 1));
            }
        }
    }
}

/// The script for a colour scheme exists unless one of its groups cannot be held by it.
pub proof fn lemma_program_exists(cs: ColorschemeView)
    requires
        well_formed(cs),
    ensures
        program(cs) is None <==> unlinkable(cs.highlights),
{
    lemma_group_commands(1, cs.highlights, cs.light_theme, cs.highlights.len());
    lemma_group_commands(1, cs.highlights, cs.dark_theme, cs.highlights.len());
}

/// A script for Vim in the making.
pub struct Compiler<'c> {
    colorscheme: &'c Colorscheme<'c>,
    program: String,
    indent: u8,
}

/// A colour of the theme as the script writes it, or `NONE` where no colour is set.
fn color_word(theme: &Theme<'_>, e: Option<NamespacedThemeElement<'_>>) -> (r: Option<String>)
    ensures
        match color_or_none(theme@, element_view(e)) {
            Some(word) => r matches Some(s) && s@ == word,
            None => r is None,
        },
{
    match e {
        Some(e) => match theme.get_color(e) {
            Some(color) => Some(color.to_string()),
            None => None,
        },
        None => Some(String::from_str("NONE")),
    }
}

/// The styles of a highlight group as the script lists them.
fn style_words(highlight: &Highlight<'_>) -> (r: String)
    ensures
        r@ == style_list(gui_styles(highlight@)),
{
    let styles = highlight.gui_styles_iter();
    if styles.len() == 0 {
        return String::from_str("NONE");
    }
    let mut words = String::from_str(styles[0]);
    let mut i: usize = 1;
    while i < styles.len()
        invariant
            1 <= i <= styles@.len(),
            words@ == comma_joined(texts(styles@).take(i as int)),
        decreases styles@.len() - i,
    {
        words.append(",");
        words.append(styles[i]);
        proof {
            let next = texts(styles@).take(i + 1);
            assert(next.drop_last() =~= texts(styles@).take(i as int));
        }
        i += 1;
    }
    assert(texts(styles@).take(i as int) =~= gui_styles(highlight@));
    words
}

impl<'c> Compiler<'c> {
    /// The text written so far.
    pub closed spec fn text(&self) -> Seq<char> {
        self.program@
    }

    /// How deep the next line is indented.
    pub closed spec fn level(&self) -> u8 {
        self.indent
    }

    /// The colour scheme that is compiled.
    pub closed spec fn scheme(&self) -> ColorschemeView {
        self.colorscheme@
    }

    /// This compiler is `before` with `written` added to its text.
    pub open spec fn continues(&self, before: &Self, written: Seq<char>) -> bool {
        &&& self.text() == before.text() + written
        &&& self.level() == before.level()
        &&& self.scheme() == before.scheme()
    }

    /// This compiler is `before` with something added to its text.
    pub open spec fn extends(&self, before: &Self) -> bool {
        &&& before.text().is_prefix_of(self.text())
        &&& self.level() == before.level()
        &&& self.scheme() == before.scheme()
    }

    /// A compiler that has written nothing yet.
    pub fn new(colorscheme: &'c Colorscheme<'c>) -> (r: Self)
        ensures
            r.text() == Seq::<char>::empty(),
            r.level() == 0,
            r.scheme() == colorscheme@,
    {
        Compiler { colorscheme, program: String::new(), indent: 0 }
    }

    /// The text written so far.
    pub fn into_program(self) -> (r: String)
        ensures
            r@ == self.text(),
    {
        self.program
    }

    fn indent(&mut self)
        ensures
            final(self).text() == old(self).text(),
            final(self).level() == deeper(old(self).level()),
            final(self).scheme() == old(self).scheme(),
    {
        self.indent = self.indent.saturating_add(1);
    }

    fn dedent(&mut self)
        ensures
            final(self).text() == old(self).text(),
            final(self).level() == shallower(old(self).level()),
            final(self).scheme() == old(self).scheme(),
    {
        self.indent = self.indent.saturating_sub(1);
    }

    fn write_indent(&mut self)
        ensures
            final(self).continues(old(self), indentation(old(self).level())),
    {
        let level = self.indent;
        push_indentation(&mut self.program, level);
    }

    fn write(&mut self, s: &str)
        ensures
            final(self).continues(old(self), s@),
    {
        self.program.append(s);
    }

    fn write_link(&mut self, name: &str, link: &str)
        ensures
            final(self).continues(old(self), link_command(old(self).level(), name@, link@)),
    {
        let mut words = String::from_str("hi! link ");
        words.append(name);
        words.append(" ");
        words.append(link);
        words.append("\n");
        self.write_indent();
        self.write(words.as_str());
        assert(self.text() =~= old(self).text() + link_command(old(self).level(), name@, link@));
    }

    fn write_attributes(&mut self, name: &str, highlight: &Highlight<'_>, theme: &Theme<'_>) -> (r:
        Result<(), Error>)
        ensures
            match attributes_command(old(self).level(), theme@, name@, highlight@) {
                Some(command) => r is Ok && final(self).continues(old(self), command),
                None => r matches Err(Error::CompilationFailed) && final(self).extends(old(self)),
            },
    {
        let fg = match color_word(theme, highlight.fg) {
            Some(word) => word,
            None => {
                return Err(Error::CompilationFailed);
            },
        };
        let bg = match color_word(theme, highlight.bg) {
            Some(word) => word,
            None => {
                return Err(Error::CompilationFailed);
            },
        };
        let sp = match color_word(theme, highlight.sp) {
            Some(word) => word,
            None => {
                return Err(Error::CompilationFailed);
            },
        };
        let styles = style_words(highlight);
        let mut words = String::from_str("hi ");
        words.append(name);
        words.append(" term=NONE cterm=NONE");
        words.append(" guifg=");
        words.append(fg.as_str());
        words.append(" guibg=");
        words.append(bg.as_str());
        words.append(" guisp=");
        words.append(sp.as_str());
        words.append(" gui=");
        words.append(styles.as_str());
        words.append("\n");
        self.write_indent();
        self.write(words.as_str());
        assert(self.text() =~= old(self).text() + (indentation(old(self).level()) + words@));
        Ok(())
    }

    fn compile_highlight_group(
        &mut self,
        name: &str,
        highlight: &Highlight<'_>,
        theme: &Theme<'_>,
    ) -> (r: Result<(), Error>)
        ensures
            match group_command(
                old(self).level(),
                old(self).scheme().highlights,
                theme@,
                name@,
                highlight@,
            ) {
                Some(command) => r is Ok && final(self).continues(old(self), command),
                None => r matches Err(Error::CompilationFailed) && final(self).extends(old(self)),
            },
    {
        match highlight.link {
            Some(link) => {
                if vim_legal_name(link) {
                    self.write_link(name, link);
                    Ok(())
                } else {
                    let colorscheme = self.colorscheme;
                    match colorscheme.highlight(link) {
                        Some(target) => self.write_attributes(name, &target, theme),
                        None => Err(Error::CompilationFailed),
                    }
                }
            },
            None => self.write_attributes(name, highlight, theme),
        }
    }

    /// Writes the commands for the highlight groups with the colours of `theme`. Fails where
    /// a group has no command.
    pub fn compile_highlight_groups(&mut self, theme: &Theme<'_>) -> (r: Result<(), Error>)
        ensures
            match group_commands(
                old(self).level(),
                old(self).scheme().highlights,
                theme@,
                old(self).scheme().highlights.len(),
            ) {
                Some(commands) => r is Ok && final(self).continues(old(self), commands),
                None => r matches Err(Error::CompilationFailed) && final(self).extends(old(self)),
            },
    {
        let ghost level = self.level();
        let ghost start = self.text();
        let ghost groups = self.scheme().highlights;
        let colorscheme = self.colorscheme;
        let highlights = colorscheme.groups();
        let n = highlights.len();
        let mut i: usize = 0;
        while i < n
            invariant
                n == groups.len(),
                highlights@ == groups,
                groups == old(self).scheme().highlights,
                start == old(self).text(),
                level == old(self).level(),
                0 <= i <= n,
                self.level() == level,
                self.scheme() == old(self).scheme(),
                group_commands(level, groups, theme@, i as nat) matches Some(commands)
                    && self.text() == start + commands,
            decreases n - i,
        {
            let name = highlights.name_at(i);
            if vim_legal_name(name) {
                if let Err(e) = self.compile_highlight_group(name, highlights.value_at(i), theme) {
                    proof {
                        lemma_commands_stay_none(level, groups, theme@, (i + 1) as nat, n as nat);
                    }
                    return Err(e);
                }
            }
            i += 1;
        }
        Ok(())
    }
}

/// Once the commands for the first groups do not exist, those for more groups do not either.
pub proof fn lemma_commands_stay_none(level: u8, groups: Groups, theme: ThemeView, m: nat, n: nat)
    requires
        m <= n <= groups.len(),
        group_commands(level, groups, theme, m) is None,
    ensures
        group_commands(level, groups, theme, n) is None,
    decreases n,
{
    if m < n {
        lemma_commands_stay_none(level, groups, theme, m, (n - 1) as nat);
    }
}

/// Compiles a colour scheme to a script for Vim. Fails where a group would have to be in
/// the script that it cannot hold.
pub fn compile(colorscheme: &Colorscheme<'_>) -> (r: Result<String, Error>)
    ensures
        match program(colorscheme@) {
            Some(script) => r matches Ok(s) && s@ == script,
            None => r matches Err(Error::CompilationFailed),
        },
        r is Err <==> unlinkable(colorscheme@.highlights),
{
    proof {
        use_type_invariant(colorscheme);
        colorscheme.lemma_valid();
        lemma_program_exists(colorscheme@);
    }
    let mut compiler = Compiler::new(colorscheme);
    compiler.write("hi clear\nset termguicolors\nlet g:colors_name = \"");
    compiler.write(colorscheme.name());
    compiler.write("\"\n\n");
    compiler.write("if &background == \"light\"\n");
    compiler.indent();
    compiler.compile_highlight_groups(colorscheme.light_theme())?;
    compiler.write("else\n");
    compiler.compile_highlight_groups(colorscheme.dark_theme())?;
    compiler.write("end");
    compiler.dedent();
    let script = compiler.into_program();
    Ok(script)
}

} // verus!
