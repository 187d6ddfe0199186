//! Renders Elementor atomic-widget style definitions (typed prop value trees) to CSS text.
//!
//! A definition of type `class` renders one rule per variant that has declarations
//! or custom CSS; a variant's state adds state selectors and its breakpoint wraps
//! the rule in a media query. Each prop goes through the transformer that the
//! registry holds for its `$$type`.
pub mod assoc;
pub mod json;
pub mod props_resolver;
pub mod style_states;
pub mod styles_renderer;
pub mod text;
pub mod transformer;
pub mod transformers;
pub mod types;

pub use json::{Json, JsonNumber};
pub use props_resolver::PropsResolver;
pub use styles_renderer::{build_registry, StylesRenderer};
pub use transformer::{Transformer, TransformerKind, TransformerRegistry};
pub use types::{
    Breakpoint, BreakpointDirection, BreakpointMap, CustomCss, Resolved, StyleDefinition,
    StyleVariant, TransformerContext, VariantMeta,
};
