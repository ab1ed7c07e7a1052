//! Compiles a declarative colour-theme description into Neovim and Vim colour scheme scripts.
//!
//! A configuration document is read into a [`configuration::Document`]. [`parse`] makes a
//! [`Colorscheme`] of it: it reduces the links between highlight groups, resolves every theme
//! element to a colour of the palette and the steps that modify it, and checks that every
//! highlight group finds its theme elements. [`compile_neovim`] and [`compile_vim`] turn the
//! colour scheme into a script.
//!
//! The library does no floating-point arithmetic. The numbers of the colour computations
//! pass through it as bit patterns, and the computation of a colour from the steps that the
//! library lays down is handed in by the caller.

pub mod colorscheme;
pub mod compiler_neovim;
pub mod compiler_vim;
pub mod configuration;
pub mod error;
pub mod links;
pub mod modifiers;
pub mod name_map;
pub mod styler;
pub mod text;

pub use colorscheme::{parse, Colorscheme, Rgb8, Theme};
pub use compiler_neovim::compile as compile_neovim;
pub use compiler_vim::compile as compile_vim;
pub use configuration::{Highlight, Kind, NamespacedThemeElement};
pub use error::Error;
