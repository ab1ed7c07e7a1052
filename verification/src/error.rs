//! What can go wrong between a configuration document and a colour scheme script.

use vstd::prelude::*;

verus! {

/// The ways in which compiling a colour scheme fails.
#[derive(Debug)]
pub enum Error {
    /// The document is not well-formed; carries what the parser said.
    Toml(String),
    /// The kind is neither `light` nor `dark`.
    InvalidKind,
    /// A theme element, or a mix modifier, names a colour that the palette lacks.
    ColorMissing(String),
    /// A highlight group names a theme element that no theme holds.
    ThemeElementMissing(String),
    /// The links between highlight groups run in a circle; carries a group on it.
    LinkCycle(String),
    /// A script could not be written out.
    CompilationFailed,
}

/// An [`Error`] with its texts as sequences of characters.
pub enum ErrorView {
    Toml(Seq<char>),
    InvalidKind,
    ColorMissing(Seq<char>),
    ThemeElementMissing(Seq<char>),
    LinkCycle(Seq<char>),
    CompilationFailed,
}

impl View for Error {
    type V = ErrorView;

    open spec fn view(&self) -> ErrorView {
        match self {
            Error::Toml(s) => ErrorView::Toml(s@),
            Error::InvalidKind => ErrorView::InvalidKind,
            Error::ColorMissing(s) => ErrorView::ColorMissing(s@),
            Error::ThemeElementMissing(s) => ErrorView::ThemeElementMissing(s@),
            Error::LinkCycle(s) => ErrorView::LinkCycle(s@),
            Error::CompilationFailed => ErrorView::CompilationFailed,
        }
    }
}

/// The sentence that describes an error to a reader.
pub open spec fn message_of(e: ErrorView) -> Seq<char> {
    match e {
        ErrorView::Toml(s) => "Could not parse configuration file: "@ + s,
        ErrorView::InvalidKind => "Invalid Kind specified. Valid values are `light` and `dark`"@,
        ErrorView::ColorMissing(s) => "A color referenced by a theme element is missing: "@ + s,
        ErrorView::ThemeElementMissing(s) => {
            "A theme element referenced by a highlight group is missing: "@ + s
        },
        ErrorView::LinkCycle(s) => {
            "A link cycle was detected. This highlight group is part of the cycle: "@ + s
        },
        ErrorView::CompilationFailed => "Color scheme compilation failed for an unknown reason"@,
    }
}

impl Error {
    /// The sentence that describes this error to a reader.
    pub fn message(&self) -> (r: String)
        ensures
            r@ == message_of(self@),
    {
        match self {
            Error::Toml(s) => {
                let mut r = String::from_str("Could not parse configuration file: ");
                r.append(s.as_str());
                r
            },
            Error::InvalidKind => {
                String::from_str("Invalid Kind specified. Valid values are `light` and `dark`")
            },
            Error::ColorMissing(s) => {
                let mut r = String::from_str("A color referenced by a theme element is missing: ");
                r.append(s.as_str());
                r
            },
            Error::ThemeElementMissing(s) => {
                let mut r = String::from_str(
                    "A theme element referenced by a highlight group is missing: ",
                );
                r.append(s.as_str());
                r
            },
            Error::LinkCycle(s) => {
                let mut r = String::from_str(
                    "A link cycle was detected. This highlight group is part of the cycle: ",
                );
                r.append(s.as_str());
                r
            },
            Error::CompilationFailed => {
                String::from_str("Color scheme compilation failed for an unknown reason")
            },
        }
    }
}

} // verus!
