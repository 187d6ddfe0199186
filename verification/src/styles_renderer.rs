//! Renders style definitions to CSS text: one rule per non-empty variant,
//! with state selectors and breakpoint media queries.
use vstd::prelude::*;

use crate::assoc::{find_key, keys_of, lookup, put};
use crate::json::JsonView;
use crate::props_resolver::law_passthrough_value;
use crate::props_resolver::{resolve_props_spec, PropsResolver};
use crate::style_states::{selector_with_state, selector_with_state_spec};
use crate::text::{decimal_nat, join2, str_eq, u64_to_decimal};
use crate::transformer::{
    kind_transform_spec, registry_get, RegistryView, Transformer, TransformerKind,
    TransformerRegistry,
};
use crate::transformers::background::{
    background_color_overlay_spec, background_gradient_overlay_spec,
    background_image_overlay_size_scale_spec, background_image_overlay_spec,
    background_overlay_spec, background_spec,
};
use crate::transformers::filter::filter_spec;
use crate::transformers::flex::flex_spec;
use crate::transformers::misc::{
    color_stop_spec, font_family_spec, passthrough_spec, position_spec, span_spec, stroke_spec,
    transition_spec,
};
use crate::transformers::shadow::shadow_spec;
use crate::transformers::size::{grid_track_size_spec, size_spec};
use crate::transformers::transform::{
    transform_functions_spec, transform_move_spec, transform_origin_spec, transform_rotate_spec,
    transform_scale_spec, transform_skew_spec,
};
use crate::types::{
    decls_view, prop_context, Breakpoint, BreakpointDirection, BreakpointMap, ResolvedView, StyleDefinition,
    StyleDefinitionView, StyleVariant, StyleVariantView, VariantMetaView,
};

verus! {

pub const DEFAULT_SELECTOR_PREFIX: &'static str = ".elementor";

/// What a renderer renders with.
pub struct RendererView<T> {
    pub registry: RegistryView<T>,
    pub breakpoints: Seq<(Seq<char>, Breakpoint)>,
    pub prefix: Seq<char>,
}

/// The selector of a definition: only `class` definitions with an id have one.
pub open spec fn base_selector_spec(prefix: Seq<char>, def: StyleDefinitionView) -> Option<Seq<char>> {
    if def.style_type != "class"@ || def.id.len() == 0 {
        None
    } else {
        let name = match def.css_name {
            Some(n) => n,
            None => def.id,
        };
        if prefix.len() == 0 {
            Some(seq!['.'] + name)
        } else {
            Some(prefix + seq![' ', '.'] + name)
        }
    }
}

/// `property:value;` for every declaration whose value is not empty, in order.
pub open spec fn decls_css(d: Seq<(Seq<char>, Seq<char>)>) -> Seq<char>
    decreases d.len(),
{
    if d.len() == 0 {
        Seq::empty()
    } else {
        let last = d.last();
        decls_css(d.drop_last()) + if last.1.len() == 0 {
            Seq::empty()
        } else {
            last.0 + seq![':'] + last.1 + seq![';']
        }
    }
}

/// The bound that a breakpoint direction puts in a media query.
pub open spec fn bound_spec(d: BreakpointDirection) -> Seq<char> {
    match d {
        BreakpointDirection::Min => "min-width"@,
        BreakpointDirection::Max => "max-width"@,
    }
}

/// A rule inside the media query of breakpoint `id`; unchanged where `id` is
/// unknown, and nothing where the breakpoint is disabled.
pub open spec fn wrap_media_query_spec(
    breakpoints: Seq<(Seq<char>, Breakpoint)>,
    id: Seq<char>,
    css: Seq<char>,
) -> Seq<char> {
    match lookup(breakpoints, id) {
        None => css,
        Some(bp) => if !bp.is_enabled {
            Seq::empty()
        } else {
            "@media("@ + bound_spec(bp.direction) + seq![':'] + decimal_nat(bp.value as nat)
                + "px){"@ + css + seq!['}']
        },
    }
}

/// The custom CSS of a variant, empty where it has none.
pub open spec fn custom_css_spec(v: StyleVariantView) -> Seq<char> {
    match v.custom_css {
        Some(Some(raw)) => raw,
        _ => Seq::empty(),
    }
}

/// The rule of one variant under the selector `base`; nothing where it has
/// neither declarations nor custom CSS.
pub open spec fn render_variant_spec<T: Transformer>(r: RendererView<T>, base: Seq<char>, v: StyleVariantView) -> Option<Seq<char>> {
    let props_css = decls_css(resolve_props_spec(r.registry, v.props));
    let custom = custom_css_spec(v);
    if props_css.len() == 0 && custom.len() == 0 {
        None
    } else {
        let selector = match v.meta.state {
            Some(state) => selector_with_state_spec(base, state),
            None => base,
        };
        let rule = selector + seq!['{'] + props_css + custom + seq!['}'];
        match v.meta.breakpoint {
            Some(id) => Some(wrap_media_query_spec(r.breakpoints, id, rule)),
            None => Some(rule),
        }
    }
}

/// The rules of the variants one after the other.
pub open spec fn render_variants_spec<T: Transformer>(r: RendererView<T>, base: Seq<char>, vs: Seq<StyleVariantView>) -> Seq<char>
    decreases vs.len(),
{
    if vs.len() == 0 {
        Seq::empty()
    } else {
        render_variants_spec(r, base, vs.drop_last()) + match render_variant_spec(
            r,
            base,
            vs.last(),
        ) {
            Some(rule) => rule,
            None => Seq::empty(),
        }
    }
}

/// The CSS of one definition.
pub open spec fn render_definition_spec<T: Transformer>(r: RendererView<T>, def: StyleDefinitionView) -> Seq<char> {
    match base_selector_spec(r.prefix, def) {
        Some(base) => render_variants_spec(r, base, def.variants),
        None => Seq::empty(),
    }
}

/// The CSS of the definitions one after the other.
pub open spec fn render_spec<T: Transformer>(r: RendererView<T>, defs: Seq<StyleDefinitionView>) -> Seq<char>
    decreases defs.len(),
{
    if defs.len() == 0 {
        Seq::empty()
    } else {
        render_spec(r, defs.drop_last()) + render_definition_spec(r, defs.last())
    }
}

/// Rendering a list of definitions is rendering each and joining the texts:
/// the CSS of `a` followed by `b` is the CSS of `a` followed by the CSS of `b`.
pub proof fn law_render_concat<T: Transformer>(r: RendererView<T>, a: Seq<StyleDefinitionView>, b: Seq<StyleDefinitionView>)
    ensures
        render_spec(r, a + b) == render_spec(r, a) + render_spec(r, b),
    decreases b.len(),
{
    if b.len() == 0 {
        assert(a + b =~= a);
        assert(render_spec(r, a) + render_spec(r, b) =~= render_spec(r, a));
    } else {
        law_render_concat(r, a, b.drop_last());
        assert((a + b).drop_last() =~= a + b.drop_last());
        assert((a + b).last() == b.last());
        assert(render_spec(r, a) + render_spec(r, b.drop_last()) + render_definition_spec(r, b.last())
            =~= render_spec(r, a) + (render_spec(r, b.drop_last()) + render_definition_spec(r, b.last())));
    }
}

/// Only `class` definitions with a non-empty id produce CSS.
pub proof fn law_only_classes_render<T: Transformer>(r: RendererView<T>, def: StyleDefinitionView)
    requires
        def.style_type != "class"@ || def.id.len() == 0,
    ensures
        render_definition_spec(r, def) == Seq::<char>::empty(),
{
}

/// A variant under a disabled breakpoint adds nothing to the CSS of its definition.
pub proof fn law_disabled_breakpoint_silences<T: Transformer>(
    r: RendererView<T>,
    base: Seq<char>,
    vs: Seq<StyleVariantView>,
    v: StyleVariantView,
    id: Seq<char>,
    bp: Breakpoint,
)
    requires
        v.meta.breakpoint == Some(id),
        lookup(r.breakpoints, id) == Some(bp),
        !bp.is_enabled,
    ensures
        render_variants_spec(r, base, vs.push(v)) == render_variants_spec(r, base, vs),
{
    assert(vs.push(v).drop_last() =~= vs);
    assert(render_variants_spec(r, base, vs) + Seq::<char>::empty() =~= render_variants_spec(r, base, vs));
}

/// A variant with no non-empty declaration and no custom CSS adds nothing.
pub proof fn law_empty_variant_silent<T: Transformer>(
    r: RendererView<T>,
    base: Seq<char>,
    vs: Seq<StyleVariantView>,
    v: StyleVariantView,
)
    requires
        decls_css(resolve_props_spec(r.registry, v.props)).len() == 0,
        custom_css_spec(v).len() == 0,
    ensures
        render_variants_spec(r, base, vs.push(v)) == render_variants_spec(r, base, vs),
{
    assert(vs.push(v).drop_last() =~= vs);
    assert(render_variants_spec(r, base, vs) + Seq::<char>::empty() =~= render_variants_spec(r, base, vs));
}

/// A class whose one variant holds one plain typed value renders as one rule:
/// `<prefix> .<id>{<prop>:<value>;}`.
pub proof fn law_render_plain_declaration<T: Transformer>(
    r: RendererView<T>,
    id: Seq<char>,
    prop: Seq<char>,
    type_key: Seq<char>,
    value: Seq<char>,
    t: T,
)
    requires
        registry_get(r.registry, type_key) == Some(t),
        t.transform_spec(JsonView::Str(value), prop_context(prop)) == ResolvedView::Single(value),
        id.len() > 0,
        value.len() > 0,
        r.prefix.len() > 0,
    ensures
        render_definition_spec(
            r,
            StyleDefinitionView {
                id,
                style_type: "class"@,
                css_name: None,
                variants: seq![
                    StyleVariantView {
                        props: seq![
                            (
                                prop,
                                JsonView::Object(
                                    seq![("$$type"@, JsonView::Str(type_key)), ("value"@, JsonView::Str(value))],
                                ),
                            ),
                        ],
                        meta: VariantMetaView { breakpoint: None, state: None },
                        custom_css: None,
                    },
                ],
            },
        ) == r.prefix + seq![' ', '.'] + id + seq!['{'] + prop + seq![':'] + value + seq![';', '}'],
{
    let v = JsonView::Object(
        seq![("$$type"@, JsonView::Str(type_key)), ("value"@, JsonView::Str(value))],
    );
    law_passthrough_value(r.registry, type_key, value, prop, t);
    let props = seq![(prop, v)];
    assert(props.drop_last() =~= Seq::<(Seq<char>, JsonView)>::empty());
    let empty = Seq::<(Seq<char>, Seq<char>)>::empty();
    assert(keys_of(empty) =~= Seq::<Seq<char>>::empty());
    assert(find_key(keys_of(empty), prop) is None);
    assert(put(empty, prop, value) == empty.push((prop, value)));
    assert(resolve_props_spec(r.registry, props.drop_last()) == empty);
    assert(props.last() == (prop, v));
    let decls = resolve_props_spec(r.registry, props);
    assert(decls == empty.push((prop, value)));
    assert(decls.drop_last() =~= empty);
    assert(decls_css(decls.drop_last()) == Seq::<char>::empty());
    assert(decls.last() == (prop, value));
    let css = decls_css(decls);
    assert(css =~= prop + seq![':'] + value + seq![';']);
    let variant = StyleVariantView {
        props,
        meta: VariantMetaView { breakpoint: None, state: None },
        custom_css: None,
    };
    let base = r.prefix + seq![' ', '.'] + id;
    assert(render_variant_spec(r, base, variant) == Some(
        base + seq!['{'] + css + Seq::<char>::empty() + seq!['}'],
    ));
    let vs = seq![variant];
    assert(vs.drop_last() =~= Seq::<StyleVariantView>::empty());
    assert(render_variants_spec(r, base, vs.drop_last()) == Seq::<char>::empty());
    assert(vs.last() == variant);
    assert(render_variants_spec(r, base, vs) =~= base + seq!['{'] + prop + seq![':'] + value
        + seq![';', '}']);
}

/// A declaration is written `property:value;`; one with an empty value is
/// left out; the declarations of a list are written one after the other.
pub proof fn law_decls_css(a: Seq<(Seq<char>, Seq<char>)>, b: Seq<(Seq<char>, Seq<char>)>, p: Seq<char>, v: Seq<char>)
    ensures
        v.len() > 0 ==> decls_css(seq![(p, v)]) == p + ":"@ + v + ";"@,
        decls_css(seq![(p, Seq::<char>::empty())]) == Seq::<char>::empty(),
        decls_css(a + b) == decls_css(a) + decls_css(b),
    decreases b.len(),
{
    reveal_strlit(":");
    reveal_strlit(";");
    assert(seq![(p, v)].drop_last() =~= Seq::<(Seq<char>, Seq<char>)>::empty());
    assert(seq![(p, Seq::<char>::empty())].drop_last() =~= Seq::<(Seq<char>, Seq<char>)>::empty());
    assert(decls_css(Seq::<(Seq<char>, Seq<char>)>::empty()) == Seq::<char>::empty());
    if v.len() > 0 {
        assert(Seq::<char>::empty() + (p + seq![':'] + v + seq![';']) =~= p + ":"@ + v + ";"@);
    }
    assert(Seq::<char>::empty() + Seq::<char>::empty() =~= Seq::<char>::empty());
    if b.len() == 0 {
        assert(a + b =~= a);
        assert(decls_css(a) + decls_css(b) =~= decls_css(a));
    } else {
        law_decls_css(a, b.drop_last(), p, v);
        assert((a + b).drop_last() =~= a + b.drop_last());
        assert((a + b).last() == b.last());
        let tail = if b.last().1.len() == 0 {
            Seq::<char>::empty()
        } else {
            b.last().0 + seq![':'] + b.last().1 + seq![';']
        };
        assert(decls_css(a) + decls_css(b.drop_last()) + tail =~= decls_css(a) + (decls_css(
            b.drop_last(),
        ) + tail));
    }
}

/// A variant's rule is its selector, then in braces its declarations followed
/// by its custom CSS, so that the custom CSS overrides them; a state adds its
/// selectors; a variant with neither declarations nor custom CSS has no rule.
pub proof fn law_variant_rule<T: Transformer>(r: RendererView<T>, base: Seq<char>, v: StyleVariantView, c: Seq<char>)
    requires
        v.meta.breakpoint is None,
        v.custom_css == Some(Some(c)) || (v.custom_css is None && c.len() == 0),
    ensures
        ({
            let d = decls_css(resolve_props_spec(r.registry, v.props));
            let sel = match v.meta.state {
                Some(s) => selector_with_state_spec(base, s),
                None => base,
            };
            render_variant_spec(r, base, v) == if d.len() == 0 && c.len() == 0 {
                None
            } else {
                Some(sel + "{"@ + d + c + "}"@)
            }
        }),
{
    reveal_strlit("{");
    reveal_strlit("}");
    let d = decls_css(resolve_props_spec(r.registry, v.props));
    let sel = match v.meta.state {
        Some(s) => selector_with_state_spec(base, s),
        None => base,
    };
    assert(sel + seq!['{'] + d + c + seq!['}'] =~= sel + "{"@ + d + c + "}"@);
}

/// A variant under an enabled breakpoint has its rule inside the media query
/// `@media(min-width:Npx)` or `@media(max-width:Npx)` of that breakpoint.
pub proof fn law_variant_media_query<T: Transformer>(
    r: RendererView<T>,
    base: Seq<char>,
    v: StyleVariantView,
    c: Seq<char>,
    id: Seq<char>,
    bp: Breakpoint,
)
    requires
        v.meta.breakpoint == Some(id),
        v.meta.state is None,
        v.custom_css == Some(Some(c)),
        c.len() > 0,
        lookup(r.breakpoints, id) == Some(bp),
        bp.is_enabled,
    ensures
        ({
            let d = decls_css(resolve_props_spec(r.registry, v.props));
            let bound = match bp.direction {
                BreakpointDirection::Min => "min-width"@,
                BreakpointDirection::Max => "max-width"@,
            };
            render_variant_spec(r, base, v) == Some(
                "@media("@ + bound + ":"@ + decimal_nat(bp.value as nat) + "px){"@ + base + "{"@ + d + c
                    + "}"@ + "}"@,
            )
        }),
{
    reveal_strlit("{");
    reveal_strlit("}");
    reveal_strlit(":");
    let d = decls_css(resolve_props_spec(r.registry, v.props));
    let rule = base + seq!['{'] + d + c + seq!['}'];
    let bound = bound_spec(bp.direction);
    assert("@media("@ + bound + seq![':'] + decimal_nat(bp.value as nat) + "px){"@ + rule + seq!['}']
        =~= "@media("@ + bound + ":"@ + decimal_nat(bp.value as nat) + "px){"@ + base + "{"@ + d + c
        + "}"@ + "}"@);
}

/// A class is selected by `.name` under the prefix and a space, the name
/// being its CSS name where it has one and its id otherwise; without a prefix
/// by `.name` alone.
pub proof fn law_base_selector(prefix: Seq<char>, def: StyleDefinitionView, n: Seq<char>)
    requires
        def.style_type == "class"@,
        def.id.len() > 0,
        def.css_name == Some(n) || (def.css_name is None && n == def.id),
    ensures
        prefix.len() > 0 ==> base_selector_spec(prefix, def) == Some(prefix + " ."@ + n),
        prefix.len() == 0 ==> base_selector_spec(prefix, def) == Some("."@ + n),
{
    reveal_strlit(" .");
    reveal_strlit(".");
    assert(prefix + seq![' ', '.'] + n =~= prefix + " ."@ + n);
    assert(seq!['.'] + n =~= "."@ + n);
}

/// A variant whose breakpoint is not known keeps its rule outside any media query.
pub proof fn law_unknown_breakpoint_unwrapped<T: Transformer>(
    r: RendererView<T>,
    base: Seq<char>,
    v: StyleVariantView,
    c: Seq<char>,
    id: Seq<char>,
)
    requires
        v.meta.breakpoint == Some(id),
        v.meta.state is None,
        v.custom_css == Some(Some(c)),
        c.len() > 0,
        lookup(r.breakpoints, id) is None,
    ensures
        render_variant_spec(r, base, v) == Some(
            base + "{"@ + decls_css(resolve_props_spec(r.registry, v.props)) + c + "}"@,
        ),
{
    reveal_strlit("{");
    reveal_strlit("}");
    let d = decls_css(resolve_props_spec(r.registry, v.props));
    assert(base + seq!['{'] + d + c + seq!['}'] =~= base + "{"@ + d + c + "}"@);
}

/// The variants of a definition render one after the other, in order.
pub proof fn law_variants_in_order<T: Transformer>(
    r: RendererView<T>,
    base: Seq<char>,
    vs: Seq<StyleVariantView>,
    v: StyleVariantView,
    rule: Seq<char>,
)
    requires
        render_variant_spec(r, base, v) == Some(rule),
    ensures
        render_variants_spec(r, base, vs.push(v)) == render_variants_spec(r, base, vs) + rule,
{
    assert(vs.push(v).drop_last() =~= vs);
}

/// Renders style definitions with a transformer registry and breakpoints.
pub struct StylesRenderer<'a, T> {
    registry: &'a TransformerRegistry<T>,
    breakpoints: &'a BreakpointMap,
    selector_prefix: String,
}

impl<'a, T: Transformer> StylesRenderer<'a, T> {
    pub closed spec fn view_of(&self) -> RendererView<T> {
        RendererView {
            registry: self.registry@,
            breakpoints: self.breakpoints@,
            prefix: self.selector_prefix@,
        }
    }

    /// A renderer with the default selector prefix `.elementor`.
    pub fn new(registry: &'a TransformerRegistry<T>, breakpoints: &'a BreakpointMap) -> (r: Self)
        ensures
            r.view_of() == (RendererView {
                registry: registry@,
                breakpoints: breakpoints@,
                prefix: DEFAULT_SELECTOR_PREFIX@,
            }),
    {
        StylesRenderer {
            registry,
            breakpoints,
            selector_prefix: DEFAULT_SELECTOR_PREFIX.to_owned(),
        }
    }

    /// This renderer with `prefix` in place of its selector prefix.
    pub fn with_selector_prefix(self, prefix: String) -> (r: Self)
        ensures
            r.view_of() == (RendererView { prefix: prefix@, ..self.view_of() }),
    {
        let mut s = self;
        s.selector_prefix = prefix;
        s
    }

    /// Renders the definitions to one CSS text.
    pub fn render(&self, styles: &[StyleDefinition]) -> (css: String)
        ensures
            css@ == render_spec(self.view_of(), styles@.map_values(|d: StyleDefinition| d@)),
    {
        let ghost defs = styles@.map_values(|d: StyleDefinition| d@);
        let mut css = String::new();
        let mut i: usize = 0;
        while i < styles.len()
            invariant
                defs == styles@.map_values(|d: StyleDefinition| d@),
                i <= styles.len(),
                css@ == render_spec(self.view_of(), defs.subrange(0, i as int)),
            decreases styles.len() - i,
        {
            proof {
                let next = defs.subrange(0, i + 1);
                assert(next.drop_last() =~= defs.subrange(0, i as int));
                assert(next.last() == styles@[i as int]@);
            }
            let part = self.render_definition(&styles[i]);
            css.append(part.as_str());
            i = i + 1;
        }
        assert(defs.subrange(0, styles.len() as int) =~= defs);
        css
    }

    fn render_definition(&self, def: &StyleDefinition) -> (css: String)
        ensures
            css@ == render_definition_spec(self.view_of(), def@),
    {
        let base = match self.base_selector(def) {
            Some(b) => b,
            None => return String::new(),
        };
        let ghost vs = def@.variants;
        let mut css = String::new();
        let mut i: usize = 0;
        while i < def.variants.len()
            invariant
                vs == def.variants@.map_values(|v: StyleVariant| v@),
                i <= def.variants.len(),
                css@ == render_variants_spec(self.view_of(), base@, vs.subrange(0, i as int)),
            decreases def.variants.len() - i,
        {
            proof {
                let next = vs.subrange(0, i + 1);
                assert(next.drop_last() =~= vs.subrange(0, i as int));
                assert(next.last() == def.variants@[i as int]@);
            }
            match self.render_variant(base.as_str(), &def.variants[i]) {
                Some(rule) => {
                    css.append(rule.as_str());
                },
                None => {},
            }
            i = i + 1;
        }
        assert(vs.subrange(0, def.variants.len() as int) =~= vs);
        css
    }

    fn base_selector(&self, def: &StyleDefinition) -> (r: Option<String>)
        ensures
            match r {
                Some(s) => base_selector_spec(self.selector_prefix@, def@) == Some(s@),
                None => base_selector_spec(self.selector_prefix@, def@) is None,
            },
    {
        if !str_eq(def.style_type.as_str(), "class") || def.id.as_str().is_empty() {
            return None;
        }
        let name: &str = match &def.css_name {
            Some(n) => n.as_str(),
            None => def.id.as_str(),
        };
        proof {
            reveal_strlit(".");
            reveal_strlit(" .");
            assert("."@ =~= seq!['.']);
            assert(" ."@ =~= seq![' ', '.']);
        }
        if self.selector_prefix.as_str().is_empty() {
            Some(join2(".", name))
        } else {
            let mut s = self.selector_prefix.clone();
            s.append(" .");
            s.append(name);
            Some(s)
        }
    }

    fn render_variant(&self, base: &str, variant: &StyleVariant) -> (r: Option<String>)
        ensures
            match r {
                Some(s) => render_variant_spec(self.view_of(), base@, variant@) == Some(s@),
                None => render_variant_spec(self.view_of(), base@, variant@) is None,
            },
    {
        let resolver = PropsResolver::new(self.registry);
        let resolved = resolver.resolve(&variant.props);
        let ghost dv = decls_view(resolved@);
        proof {
            reveal_strlit(":");
            reveal_strlit(";");
            reveal_strlit("{");
            reveal_strlit("}");
            assert(":"@ =~= seq![':']);
            assert(";"@ =~= seq![';']);
            assert("{"@ =~= seq!['{']);
            assert("}"@ =~= seq!['}']);
        }
        let mut props_css = String::new();
        let mut i: usize = 0;
        while i < resolved.len()
            invariant
                dv == decls_view(resolved@),
                i <= resolved.len(),
                props_css@ == decls_css(dv.subrange(0, i as int)),
                ":"@ == seq![':'],
                ";"@ == seq![';'],
            decreases resolved.len() - i,
        {
            proof {
                let next = dv.subrange(0, i + 1);
                assert(next.drop_last() =~= dv.subrange(0, i as int));
                assert(next.last() == dv[i as int]);
            }
            if !resolved[i].1.as_str().is_empty() {
                props_css.append(resolved[i].0.as_str());
                props_css.append(":");
                props_css.append(resolved[i].1.as_str());
                props_css.append(";");
            } else {
                assert(props_css@ =~= props_css@ + Seq::<char>::empty());
            }
            i = i + 1;
        }
        assert(dv.subrange(0, resolved.len() as int) =~= dv);
        let custom_css = match &variant.custom_css {
            Some(c) => match &c.raw {
                Some(raw) => raw.clone(),
                None => String::new(),
            },
            None => String::new(),
        };
        if props_css.as_str().is_empty() && custom_css.as_str().is_empty() {
            return None;
        }
        let selector = match &variant.meta.state {
            Some(state) => selector_with_state(base, state.as_str()),
            None => base.to_owned(),
        };
        let mut rule = selector;
        rule.append("{");
        rule.append(props_css.as_str());
        rule.append(custom_css.as_str());
        rule.append("}");
        match &variant.meta.breakpoint {
            Some(id) => Some(self.wrap_media_query(id.as_str(), rule)),
            None => Some(rule),
        }
    }

    fn wrap_media_query(&self, bp_id: &str, css: String) -> (r: String)
        ensures
            r@ == wrap_media_query_spec(self.breakpoints@, bp_id@, css@),
    {
        let bp = match self.breakpoints.get(bp_id) {
            Some(b) => b,
            None => return css,
        };
        if !bp.is_enabled {
            return String::new();
        }
        let bound: &str = match bp.direction {
            BreakpointDirection::Min => "min-width",
            BreakpointDirection::Max => "max-width",
        };
        proof {
            reveal_strlit(":");
            reveal_strlit("}");
            assert(":"@ =~= seq![':']);
            assert("}"@ =~= seq!['}']);
        }
        let value = u64_to_decimal(bp.value as u64);
        let mut s = join2("@media(", bound);
        s.append(":");
        s.append(value.as_str());
        s.append("px){");
        s.append(css.as_str());
        s.append("}");
        s
    }
}

/// The transformer that the standard registry gives for a `$$type` key.
pub open spec fn standard_transformer(key: Seq<char>) -> Option<TransformerKind> {
    if key == "number"@ || key == "string"@ || key == "color"@ {
        Some(TransformerKind::Passthrough)
    } else if key == "transition"@ {
        Some(TransformerKind::Transition)
    } else if key == "stroke"@ {
        Some(TransformerKind::Stroke)
    } else if key == "color-stop"@ {
        Some(TransformerKind::ColorStop)
    } else if key == "perspective-origin"@ {
        Some(TransformerKind::PerspectiveOrigin)
    } else if key == "position"@ {
        Some(TransformerKind::Position)
    } else if key == "font-family"@ {
        Some(TransformerKind::FontFamily)
    } else if key == "span"@ {
        Some(TransformerKind::Span)
    } else if key == "background-image-overlay-size-scale"@ {
        Some(TransformerKind::BackgroundImageOverlaySizeScale)
    } else if key == "background-image-overlay"@ {
        Some(TransformerKind::BackgroundImageOverlay)
    } else if key == "background-gradient-overlay"@ {
        Some(TransformerKind::BackgroundGradientOverlay)
    } else if key == "background-color-overlay"@ {
        Some(TransformerKind::BackgroundColorOverlay)
    } else if key == "background-overlay"@ {
        Some(TransformerKind::BackgroundOverlay)
    } else if key == "background"@ {
        Some(TransformerKind::Background)
    } else if key == "transform-origin"@ {
        Some(TransformerKind::TransformOrigin)
    } else if key == "transform-skew"@ {
        Some(TransformerKind::TransformSkew)
    } else if key == "transform-scale"@ {
        Some(TransformerKind::TransformScale)
    } else if key == "transform-rotate"@ {
        Some(TransformerKind::TransformRotate)
    } else if key == "transform-move"@ {
        Some(TransformerKind::TransformMove)
    } else if key == "transform-functions"@ {
        Some(TransformerKind::TransformFunctions)
    } else if key == "backdrop-filter"@ || key == "filter"@ {
        Some(TransformerKind::Filter)
    } else if key == "shadow"@ {
        Some(TransformerKind::Shadow)
    } else if key == "flex"@ {
        Some(TransformerKind::Flex)
    } else if key == "grid-track-size"@ {
        Some(TransformerKind::GridTrackSize)
    } else if key == "size"@ {
        Some(TransformerKind::Size)
    } else {
        None
    }
}

/// Whether the standard registry gives, for `key`, a transformer that turns
/// `v` into `r`.
pub open spec fn transforms_as(key: Seq<char>, v: JsonView, r: ResolvedView) -> bool {
    match standard_transformer(key) {
        Some(kind) => kind_transform_spec(kind, v) == r,
        None => false,
    }
}

/// Every `$$type` of the standard registry goes to the transformer of that
/// name: `transform-rotate` to the rotation, `filter` and `backdrop-filter` to
/// the filter list, `number`, `string` and `color` through unchanged, and so on.
pub proof fn law_standard_types(v: JsonView)
    ensures
        transforms_as("number"@, v, passthrough_spec(v)),
        transforms_as("string"@, v, passthrough_spec(v)),
        transforms_as("color"@, v, passthrough_spec(v)),
        transforms_as("transition"@, v, transition_spec(v)),
        transforms_as("stroke"@, v, stroke_spec(v)),
        transforms_as("color-stop"@, v, color_stop_spec(v)),
        transforms_as("perspective-origin"@, v, position_spec(v)),
        transforms_as("position"@, v, position_spec(v)),
        transforms_as("font-family"@, v, font_family_spec(v)),
        transforms_as("span"@, v, span_spec(v)),
        transforms_as("background-image-overlay-size-scale"@, v, background_image_overlay_size_scale_spec(v)),
        transforms_as("background-image-overlay"@, v, background_image_overlay_spec(v)),
        transforms_as("background-gradient-overlay"@, v, background_gradient_overlay_spec(v)),
        transforms_as("background-color-overlay"@, v, background_color_overlay_spec(v)),
        transforms_as("background-overlay"@, v, background_overlay_spec(v)),
        transforms_as("background"@, v, background_spec(v)),
        transforms_as("transform-origin"@, v, transform_origin_spec(v)),
        transforms_as("transform-skew"@, v, transform_skew_spec(v)),
        transforms_as("transform-scale"@, v, transform_scale_spec(v)),
        transforms_as("transform-rotate"@, v, transform_rotate_spec(v)),
        transforms_as("transform-move"@, v, transform_move_spec(v)),
        transforms_as("transform-functions"@, v, transform_functions_spec(v)),
        transforms_as("backdrop-filter"@, v, filter_spec(v)),
        transforms_as("filter"@, v, filter_spec(v)),
        transforms_as("shadow"@, v, shadow_spec(v)),
        transforms_as("flex"@, v, flex_spec(v)),
        transforms_as("grid-track-size"@, v, grid_track_size_spec(v)),
        transforms_as("size"@, v, size_spec(v)),
{
    reveal_strlit("number");
    reveal_strlit("string");
    reveal_strlit("color");
    reveal_strlit("transition");
    reveal_strlit("stroke");
    reveal_strlit("color-stop");
    reveal_strlit("perspective-origin");
    reveal_strlit("position");
    reveal_strlit("font-family");
    reveal_strlit("span");
    reveal_strlit("background-image-overlay-size-scale");
    reveal_strlit("background-image-overlay");
    reveal_strlit("background-gradient-overlay");
    reveal_strlit("background-color-overlay");
    reveal_strlit("background-overlay");
    reveal_strlit("background");
    reveal_strlit("transform-origin");
    reveal_strlit("transform-skew");
    reveal_strlit("transform-scale");
    reveal_strlit("transform-rotate");
    reveal_strlit("transform-move");
    reveal_strlit("transform-functions");
    reveal_strlit("backdrop-filter");
    reveal_strlit("filter");
    reveal_strlit("shadow");
    reveal_strlit("flex");
    reveal_strlit("grid-track-size");
    reveal_strlit("size");
    assert("number"@.len() == 6);
    assert("string"@.len() == 6);
    assert("color"@.len() == 5);
    assert("transition"@.len() == 10);
    assert("stroke"@.len() == 6);
    assert("color-stop"@.len() == 10);
    assert("perspective-origin"@.len() == 18);
    assert("position"@.len() == 8);
    assert("font-family"@.len() == 11);
    assert("span"@.len() == 4);
    assert("background-image-overlay-size-scale"@.len() == 35);
    assert("background-image-overlay"@.len() == 24);
    assert("background-gradient-overlay"@.len() == 27);
    assert("background-color-overlay"@.len() == 24);
    assert("background-overlay"@.len() == 18);
    assert("background"@.len() == 10);
    assert("transform-origin"@.len() == 16);
    assert("transform-skew"@.len() == 14);
    assert("transform-scale"@.len() == 15);
    assert("transform-rotate"@.len() == 16);
    assert("transform-move"@.len() == 14);
    assert("transform-functions"@.len() == 19);
    assert("backdrop-filter"@.len() == 15);
    assert("filter"@.len() == 6);
    assert("shadow"@.len() == 6);
    assert("flex"@.len() == 4);
    assert("grid-track-size"@.len() == 15);
    assert("size"@.len() == 4);
    assert("number"@[0] != "string"@[0]);
    assert("number"@[0] != "stroke"@[0]);
    assert("number"@[0] != "filter"@[0]);
    assert("number"@[0] != "shadow"@[0]);
    assert("string"@[3] != "stroke"@[3]);
    assert("string"@[0] != "filter"@[0]);
    assert("string"@[1] != "shadow"@[1]);
    assert("transition"@[0] != "color-stop"@[0]);
    assert("transition"@[0] != "background"@[0]);
    assert("stroke"@[0] != "filter"@[0]);
    assert("stroke"@[1] != "shadow"@[1]);
    assert("color-stop"@[0] != "background"@[0]);
    assert("perspective-origin"@[0] != "background-overlay"@[0]);
    assert("span"@[0] != "flex"@[0]);
    assert("span"@[1] != "size"@[1]);
    assert("background-image-overlay"@[11] != "background-color-overlay"@[11]);
    assert("transform-origin"@[10] != "transform-rotate"@[10]);
    assert("transform-skew"@[10] != "transform-move"@[10]);
    assert("transform-scale"@[0] != "backdrop-filter"@[0]);
    assert("transform-scale"@[0] != "grid-track-size"@[0]);
    assert("backdrop-filter"@[0] != "grid-track-size"@[0]);
    assert("filter"@[0] != "shadow"@[0]);
    assert("flex"@[0] != "size"@[0]);
}

/// The standard registry with every built-in transformer registered.
pub fn build_registry() -> (r: TransformerRegistry<TransformerKind>)
    ensures
        forall|key: Seq<char>| #[trigger] registry_get(r@, key) == standard_transformer(key),
{
    let mut r = TransformerRegistry::default();
    r.register("size".to_owned(), TransformerKind::Size);
    r.register("grid-track-size".to_owned(), TransformerKind::GridTrackSize);
    r.register("flex".to_owned(), TransformerKind::Flex);
    r.register("shadow".to_owned(), TransformerKind::Shadow);
    r.register("filter".to_owned(), TransformerKind::Filter);
    r.register("backdrop-filter".to_owned(), TransformerKind::Filter);
    r.register("transform-functions".to_owned(), TransformerKind::TransformFunctions);
    r.register("transform-move".to_owned(), TransformerKind::TransformMove);
    r.register("transform-rotate".to_owned(), TransformerKind::TransformRotate);
    r.register("transform-scale".to_owned(), TransformerKind::TransformScale);
    r.register("transform-skew".to_owned(), TransformerKind::TransformSkew);
    r.register("transform-origin".to_owned(), TransformerKind::TransformOrigin);
    r.register("background".to_owned(), TransformerKind::Background);
    r.register("background-overlay".to_owned(), TransformerKind::BackgroundOverlay);
    r.register("background-color-overlay".to_owned(), TransformerKind::BackgroundColorOverlay);
    r.register(
        "background-gradient-overlay".to_owned(),
        TransformerKind::BackgroundGradientOverlay,
    );
    r.register("background-image-overlay".to_owned(), TransformerKind::BackgroundImageOverlay);
    r.register(
        "background-image-overlay-size-scale".to_owned(),
        TransformerKind::BackgroundImageOverlaySizeScale,
    );
    r.register("span".to_owned(), TransformerKind::Span);
    r.register("font-family".to_owned(), TransformerKind::FontFamily);
    r.register("position".to_owned(), TransformerKind::Position);
    r.register("perspective-origin".to_owned(), TransformerKind::PerspectiveOrigin);
    r.register("color-stop".to_owned(), TransformerKind::ColorStop);
    r.register("stroke".to_owned(), TransformerKind::Stroke);
    r.register("transition".to_owned(), TransformerKind::Transition);
    r.register("color".to_owned(), TransformerKind::Passthrough);
    r.register("string".to_owned(), TransformerKind::Passthrough);
    r.register("number".to_owned(), TransformerKind::Passthrough);
    r
}

} // verus!
