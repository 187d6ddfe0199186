//! Core types shared across the style renderer, and their views.
use vstd::prelude::*;

use crate::assoc::{distinct_keys, find_index, keys_of, lemma_put_lookup, lookup, put, string_keys};
use crate::json::{entries_view, Json, JsonView};

verus! {

/// The view of an optional string.
pub open spec fn opt_view(o: Option<String>) -> Option<Seq<char>> {
    match o {
        Some(s) => Some(s@),
        None => None,
    }
}

/// The view of a list of CSS declarations (property, value).
pub open spec fn decls_view(d: Seq<(String, String)>) -> Seq<(Seq<char>, Seq<char>)> {
    d.map_values(|p: (String, String)| (p.0@, p.1@))
}

/// Stores the declaration `key: value` in `decls`, in place where `key` is present.
pub fn put_decl(decls: &mut Vec<(String, String)>, key: String, value: String)
    ensures
        decls_view(final(decls)@) == put(decls_view(old(decls)@), key@, value@),
{
    let ghost old_view = decls_view(decls@);
    proof {
        assert(string_keys(decls@) =~= keys_of(old_view));
    }
    match find_index(decls, key.as_str()) {
        Some(i) => {
            decls.set(i, (key, value));
            proof {
                assert(decls_view(decls@) =~= old_view.update(i as int, (key@, value@)));
            }
        },
        None => {
            decls.push((key, value));
            proof {
                assert(decls_view(decls@) =~= old_view.push((key@, value@)));
            }
        },
    }
}

/// A typed Elementor prop value: `{"$$type": "...", "value": ..., "disabled": ...}`.
pub struct PropValue {
    pub type_key: String,
    pub value: Json,
    pub disabled: bool,
}

/// Multi-props wrapper produced by some transformers.
pub struct MultiProps {
    pub values: Vec<(String, Option<String>)>,
}

/// What a transformer is told of the prop it transforms.
pub struct TransformerContext {
    pub key: Option<String>,
    pub disabled: bool,
}

/// What a transformer is told of the prop it transforms, as values.
pub struct ContextView {
    pub key: Option<Seq<char>>,
    pub disabled: bool,
}

/// The context of the prop named `key`.
pub open spec fn prop_context(key: Seq<char>) -> ContextView {
    ContextView { key: Some(key), disabled: false }
}

impl View for TransformerContext {
    type V = ContextView;

    open spec fn view(&self) -> ContextView {
        ContextView {
            key: match self.key {
                Some(k) => Some(k@),
                None => None,
            },
            disabled: self.disabled,
        }
    }
}

impl TransformerContext {
    /// The context of the prop named `key`.
    pub fn new(key: String) -> (c: Self)
        ensures
            c.key == Some(key),
            !c.disabled,
            c@ == prop_context(key@),
    {
        TransformerContext { key: Some(key), disabled: false }
    }
}

impl Default for TransformerContext {
    fn default() -> (c: Self)
        ensures
            c.key is None,
            !c.disabled,
    {
        TransformerContext { key: None, disabled: false }
    }
}

/// The result of resolving a single prop value through the transformer chain.
#[derive(Debug, PartialEq, Eq)]
pub enum Resolved {
    /// A CSS value string ready to use in `property: value;`.
    Single(String),
    /// Several CSS declarations emitted by one transformer.
    Multi(Vec<(String, String)>),
    /// The prop is omitted from the output.
    Nothing,
}

/// The view of a resolved prop.
pub enum ResolvedView {
    Single(Seq<char>),
    Multi(Seq<(Seq<char>, Seq<char>)>),
    Nothing,
}

impl View for Resolved {
    type V = ResolvedView;

    open spec fn view(&self) -> ResolvedView {
        match self {
            Resolved::Single(s) => ResolvedView::Single(s@),
            Resolved::Multi(m) => ResolvedView::Multi(decls_view(m@)),
            Resolved::Nothing => ResolvedView::Nothing,
        }
    }
}

/// A style variant: one set of props plus its breakpoint and state.
pub struct StyleVariant {
    pub props: Vec<(String, Json)>,
    pub meta: VariantMeta,
    pub custom_css: Option<CustomCss>,
}

/// The breakpoint and state that a variant applies to.
pub struct VariantMeta {
    pub breakpoint: Option<String>,
    pub state: Option<String>,
}

impl Default for VariantMeta {
    fn default() -> (m: Self)
        ensures
            m.breakpoint is None,
            m.state is None,
    {
        VariantMeta { breakpoint: None, state: None }
    }
}

/// Raw CSS attached to a variant.
pub struct CustomCss {
    pub raw: Option<String>,
}

/// A complete style definition (one element's styles).
pub struct StyleDefinition {
    pub id: String,
    pub style_type: String,
    pub css_name: Option<String>,
    pub variants: Vec<StyleVariant>,
}

pub struct VariantMetaView {
    pub breakpoint: Option<Seq<char>>,
    pub state: Option<Seq<char>>,
}

pub struct StyleVariantView {
    pub props: Seq<(Seq<char>, JsonView)>,
    pub meta: VariantMetaView,
    /// The raw custom CSS, where the variant has custom CSS.
    pub custom_css: Option<Option<Seq<char>>>,
}

pub struct StyleDefinitionView {
    pub id: Seq<char>,
    pub style_type: Seq<char>,
    pub css_name: Option<Seq<char>>,
    pub variants: Seq<StyleVariantView>,
}

impl View for VariantMeta {
    type V = VariantMetaView;

    open spec fn view(&self) -> VariantMetaView {
        VariantMetaView { breakpoint: opt_view(self.breakpoint), state: opt_view(self.state) }
    }
}

impl View for StyleVariant {
    type V = StyleVariantView;

    open spec fn view(&self) -> StyleVariantView {
        StyleVariantView {
            props: entries_view(self.props@),
            meta: self.meta@,
            custom_css: match self.custom_css {
                Some(c) => Some(opt_view(c.raw)),
                None => None,
            },
        }
    }
}

impl View for StyleDefinition {
    type V = StyleDefinitionView;

    open spec fn view(&self) -> StyleDefinitionView {
        StyleDefinitionView {
            id: self.id@,
            style_type: self.style_type@,
            css_name: opt_view(self.css_name),
            variants: self.variants@.map_values(|v: StyleVariant| v@),
        }
    }
}

/// A media-query breakpoint.
#[derive(Clone, Copy, Debug)]
pub struct Breakpoint {
    pub direction: BreakpointDirection,
    pub value: u32,
    pub is_enabled: bool,
}

/// Whether a breakpoint bounds the width from below or from above.
#[derive(Clone, Copy, Debug, PartialEq, Eq, Structural)]
pub enum BreakpointDirection {
    Min,
    Max,
}

/// Breakpoints by id.
pub struct BreakpointMap {
    entries: Vec<(String, Breakpoint)>,
}

impl View for BreakpointMap {
    type V = Seq<(Seq<char>, Breakpoint)>;

    closed spec fn view(&self) -> Seq<(Seq<char>, Breakpoint)> {
        self.entries@.map_values(|p: (String, Breakpoint)| (p.0@, p.1))
    }
}

impl BreakpointMap {
    /// No id occurs twice.
    #[verifier::type_invariant]
    spec fn ids_distinct(self) -> bool {
        distinct_keys(self@)
    }

    /// No breakpoints.
    pub fn new() -> (m: Self)
        ensures
            m@ == Seq::<(Seq<char>, Breakpoint)>::empty(),
            distinct_keys(m@),
    {
        let m = BreakpointMap { entries: Vec::new() };
        assert(m@ =~= Seq::<(Seq<char>, Breakpoint)>::empty());
        m
    }

    /// Stores `bp` under `id`, in place of any breakpoint stored there before.
    pub fn insert(&mut self, id: String, bp: Breakpoint)
        ensures
            final(self)@ == put(old(self)@, id@, bp),
            distinct_keys(final(self)@),
            forall|k: Seq<char>|
                #[trigger] lookup(final(self)@, k) == if k == id@ {
                    Some(bp)
                } else {
                    lookup(old(self)@, k)
                },
    {
        proof {
            use_type_invariant(&*self);
        }
        let ghost old_view = self@;
        let mut entries: Vec<(String, Breakpoint)> = Vec::new();
        std::mem::swap(&mut entries, &mut self.entries);
        proof {
            assert(self@ =~= Seq::<(Seq<char>, Breakpoint)>::empty());
            assert(entries@.map_values(|p: (String, Breakpoint)| (p.0@, p.1)) == old_view);
            assert(string_keys(entries@) =~= keys_of(old_view));
            lemma_put_lookup(old_view, id@, bp, id@);
            assert forall|k: Seq<char>|
                #[trigger] lookup(put(old_view, id@, bp), k) == if k == id@ {
                    Some(bp)
                } else {
                    lookup(old_view, k)
                } by {
                lemma_put_lookup(old_view, id@, bp, k);
            }
        }
        let ghost key_view = id@;
        match find_index(&entries, id.as_str()) {
            Some(i) => {
                entries.set(i, (id, bp));
                proof {
                    assert(entries@.map_values(|p: (String, Breakpoint)| (p.0@, p.1)) =~= old_view.update(
                        i as int,
                        (key_view, bp),
                    ));
                }
            },
            None => {
                entries.push((id, bp));
                proof {
                    assert(entries@.map_values(|p: (String, Breakpoint)| (p.0@, p.1)) =~= old_view.push(
                        (key_view, bp),
                    ));
                }
            },
        }
        self.entries = entries;
    }

    /// The breakpoint stored under `id`.
    pub fn get(&self, id: &str) -> (r: Option<Breakpoint>)
        ensures
            r == lookup(self@, id@),
            distinct_keys(self@),
    {
        proof {
            use_type_invariant(self);
            assert(string_keys(self.entries@) =~= keys_of(self@));
        }
        match find_index(&self.entries, id) {
            Some(i) => Some(self.entries[i].1),
            None => None,
        }
    }
}

} // verus!
