//! A compiler and renderer for markup with typed attributes and embedded
//! expressions: tokens are parsed into a tree of elements, the tree is built
//! into renderable values, and those render to escaped text.

pub mod text;
pub mod escape;
pub mod render;
pub mod value;
pub mod markup;
pub mod composite;
pub mod error;
pub mod token;
pub mod attributes;
pub mod element;
pub mod component;
pub mod compile;
pub mod template;
pub mod dom;
pub mod written;
pub mod laws;

pub use component::{renderable, ElementDefaults};
pub use escape::{escape_attr, escape_html};
pub use markup::{AttributeMap, AttributeValue, Element};
pub use render::{Render, Write, WriteError};
pub use template::{html, tree};
