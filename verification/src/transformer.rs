//! The `Transformer` trait, the built-in transformer kinds, and the registry
//! that maps `$$type` keys to them.
use vstd::prelude::*;

use crate::assoc::{
    distinct_keys, find_index, keys_of, lemma_put_avoids, lemma_put_lookup, lookup, put,
    string_keys,
};
use crate::json::{Json, JsonNumber, JsonView};
use crate::transformers::background::{
    background_color_overlay_spec, background_gradient_overlay_spec,
    background_image_overlay_size_scale_spec, background_image_overlay_spec,
    background_overlay_spec, background_spec, lemma_overlay_decls_well_formed, overlay_decls, push_opt, put_opt,
    BackgroundColorOverlayTransformer,
    BackgroundGradientOverlayTransformer, BackgroundImageOverlaySizeScaleTransformer,
    BackgroundImageOverlayTransformer, BackgroundOverlayTransformer, BackgroundTransformer,
};
use crate::transformers::filter::{filter_spec, FilterTransformer};
use crate::transformers::flex::{flex_spec, FlexTransformer};
use crate::transformers::misc::{
    color_stop_spec, font_family_spec, passthrough_spec, position_spec, span_spec, stroke_spec,
    transition_spec, ColorStopTransformer, FontFamilyTransformer, PassthroughTransformer,
    PerspectiveOriginTransformer, PositionTransformer, SpanTransformer, StrokeTransformer,
    TransitionTransformer,
};
use crate::transformers::shadow::{shadow_spec, ShadowTransformer};
use crate::transformers::size::{
    grid_track_size_spec, size_spec, GridTrackSizeTransformer, SizeTransformer,
};
use crate::transformers::transform::{
    transform_functions_spec, transform_move_spec, transform_origin_spec, transform_rotate_spec,
    transform_scale_spec, transform_skew_spec, TransformFunctionsTransformer,
    TransformMoveTransformer, TransformOriginTransformer, TransformRotateTransformer,
    TransformScaleTransformer, TransformSkewTransformer,
};
use crate::types::{ContextView, Resolved, ResolvedView, TransformerContext};

verus! {

/// Converts a resolved prop value into a CSS value, several declarations, or nothing.
pub trait Transformer {
    /// What `transform` gives for a value in a context.
    spec fn transform_spec(&self, value: JsonView, ctx: ContextView) -> ResolvedView;

    /// Transforms a value whose object and array members are already resolved.
    fn transform(&self, value: &Json, ctx: &TransformerContext) -> (r: Resolved)
        ensures
            r@ == self.transform_spec(value@, ctx@),
    ;
}

/// `o`, or `d` where `o` holds nothing.
pub open spec fn str_or(o: Option<Seq<char>>, d: Seq<char>) -> Seq<char> {
    match o {
        Some(s) => s,
        None => d,
    }
}

/// `o` where it holds a non-empty string.
pub open spec fn nonempty_spec(o: Option<Seq<char>>) -> Option<Seq<char>> {
    match o {
        Some(s) => if s.len() > 0 {
            Some(s)
        } else {
            None
        },
        None => None,
    }
}

/// The results of `f` that are present, in order.
pub open spec fn filter_map_seq<A, B>(s: Seq<A>, f: spec_fn(A) -> Option<B>) -> Seq<B>
    decreases s.len(),
{
    if s.len() == 0 {
        Seq::empty()
    } else {
        let rest = filter_map_seq(s.drop_last(), f);
        match f(s.last()) {
            Some(b) => rest.push(b),
            None => rest,
        }
    }
}

/// One step of `filter_map_seq` over a growing prefix.
pub proof fn lemma_filter_map_step<A, B>(s: Seq<A>, f: spec_fn(A) -> Option<B>, i: int)
    requires
        0 <= i < s.len(),
    ensures
        filter_map_seq(s.subrange(0, i + 1), f) == (match f(s[i]) {
            Some(b) => filter_map_seq(s.subrange(0, i), f).push(b),
            None => filter_map_seq(s.subrange(0, i), f),
        }),
{
    assert(s.subrange(0, i + 1).drop_last() =~= s.subrange(0, i));
    assert(s.subrange(0, i + 1).last() == s[i]);
}

/// The string member `key` of `value`, or `default`.
pub fn str_field_or<'a>(value: &'a Json, key: &str, default: &'a str) -> (r: &'a str)
    ensures
        r@ == str_or(value@.str_field(key@), default@),
{
    match value.str_field(key) {
        Some(s) => s,
        None => default,
    }
}

/// The string member `key` of `obj`.
pub fn str_field<'a>(obj: &'a Json, key: &str) -> (r: Option<&'a str>)
    ensures
        match r {
            Some(s) => obj@.str_field(key@) == Some(s@),
            None => obj@.str_field(key@) is None,
        },
{
    obj.str_field(key)
}

/// The string member `key` of `obj`, as an owned string.
pub fn str_field_owned(obj: &Json, key: &str) -> (r: Option<String>)
    ensures
        match r {
            Some(s) => obj@.str_field(key@) == Some(s@),
            None => obj@.str_field(key@) is None,
        },
{
    match obj.str_field(key) {
        Some(s) => Some(s.to_owned()),
        None => None,
    }
}

/// The number member `key` of `obj`.
pub fn number_field<'a>(obj: &'a Json, key: &str) -> (r: Option<&'a JsonNumber>)
    ensures
        match r {
            Some(n) => obj@.number_field(key@) == Some(n@),
            None => obj@.number_field(key@) is None,
        },
{
    obj.number_field(key)
}

/// The built-in transformers.
#[derive(Clone, Copy, Debug, PartialEq, Eq, Structural)]
pub enum TransformerKind {
    Size,
    GridTrackSize,
    Flex,
    Shadow,
    Filter,
    TransformFunctions,
    TransformMove,
    TransformRotate,
    TransformScale,
    TransformSkew,
    TransformOrigin,
    Background,
    BackgroundOverlay,
    BackgroundColorOverlay,
    BackgroundGradientOverlay,
    BackgroundImageOverlay,
    BackgroundImageOverlaySizeScale,
    Span,
    FontFamily,
    Position,
    PerspectiveOrigin,
    ColorStop,
    Stroke,
    Transition,
    Passthrough,
}

/// What the transformer of a kind gives for a value.
pub open spec fn kind_transform_spec(kind: TransformerKind, v: JsonView) -> ResolvedView {
    match kind {
        TransformerKind::Size => size_spec(v),
        TransformerKind::GridTrackSize => grid_track_size_spec(v),
        TransformerKind::Flex => flex_spec(v),
        TransformerKind::Shadow => shadow_spec(v),
        TransformerKind::Filter => filter_spec(v),
        TransformerKind::TransformFunctions => transform_functions_spec(v),
        TransformerKind::TransformMove => transform_move_spec(v),
        TransformerKind::TransformRotate => transform_rotate_spec(v),
        TransformerKind::TransformScale => transform_scale_spec(v),
        TransformerKind::TransformSkew => transform_skew_spec(v),
        TransformerKind::TransformOrigin => transform_origin_spec(v),
        TransformerKind::Background => background_spec(v),
        TransformerKind::BackgroundOverlay => background_overlay_spec(v),
        TransformerKind::BackgroundColorOverlay => background_color_overlay_spec(v),
        TransformerKind::BackgroundGradientOverlay => background_gradient_overlay_spec(v),
        TransformerKind::BackgroundImageOverlay => background_image_overlay_spec(v),
        TransformerKind::BackgroundImageOverlaySizeScale => background_image_overlay_size_scale_spec(
            v,
        ),
        TransformerKind::Span => span_spec(v),
        TransformerKind::FontFamily => font_family_spec(v),
        TransformerKind::Position => position_spec(v),
        TransformerKind::PerspectiveOrigin => position_spec(v),
        TransformerKind::ColorStop => color_stop_spec(v),
        TransformerKind::Stroke => stroke_spec(v),
        TransformerKind::Transition => transition_spec(v),
        TransformerKind::Passthrough => passthrough_spec(v),
    }
}

/// Declarations that can stand as CSS: no property twice, and none named `$$type`.
pub open spec fn well_formed_decls(m: Seq<(Seq<char>, Seq<char>)>) -> bool {
    &&& distinct_keys(m)
    &&& forall|i: int| 0 <= i < m.len() ==> #[trigger] m[i].0 != "$$type"@
}

/// `put_opt` keeps declarations well formed when the key is not `$$type`.
proof fn lemma_put_opt_well_formed(
    d: Seq<(Seq<char>, Seq<char>)>,
    key: Seq<char>,
    value: Option<Seq<char>>,
)
    requires
        well_formed_decls(d),
        key != "$$type"@,
    ensures
        well_formed_decls(put_opt(d, key, value)),
{
    if let Some(s) = value {
        lemma_put_lookup(d, key, s, key);
        lemma_put_avoids(d, key, s, "$$type"@);
    }
}

/// `push_opt` keeps declarations well formed when the key is new and not `$$type`;
/// `keys` holds every key so far.
proof fn lemma_push_opt_well_formed(
    d: Seq<(Seq<char>, Seq<char>)>,
    keys: Set<Seq<char>>,
    key: Seq<char>,
    value: Option<Seq<char>>,
)
    requires
        well_formed_decls(d),
        forall|i: int| 0 <= i < d.len() ==> keys.contains(#[trigger] d[i].0),
        !keys.contains(key),
        key != "$$type"@,
    ensures
        well_formed_decls(push_opt(d, key, value)),
        forall|i: int|
            0 <= i < push_opt(d, key, value).len() ==> keys.insert(key).contains(
                #[trigger] push_opt(d, key, value)[i].0,
            ),
{
}

/// Every built-in transformer that gives several declarations names each CSS
/// property once, and none of them `$$type`.
pub proof fn law_multi_declarations_well_formed(kind: TransformerKind, v: JsonView)
    ensures
        match kind_transform_spec(kind, v) {
            ResolvedView::Multi(m) => well_formed_decls(m),
            _ => true,
        },
{
    reveal_strlit("$$type");
    match kind {
        TransformerKind::Background => {
            let overlay = match v.get("background-overlay"@) {
                Some(o) => match o.as_object() {
                    Some(e) => {
                        lemma_overlay_decls_well_formed(e);
                        overlay_decls(e)
                    },
                    None => Seq::empty(),
                },
                None => Seq::empty(),
            };
            reveal_strlit("background-color");
            reveal_strlit("background-clip");
            assert("background-color"@.len() == 16);
            assert("$$type"@.len() == 6);
            assert("background-clip"@.len() == 15);
            lemma_put_opt_well_formed(overlay, "background-color"@, v.str_field("color"@));
            lemma_put_opt_well_formed(
                put_opt(overlay, "background-color"@, v.str_field("color"@)),
                "background-clip"@,
                v.str_field("clip"@),
            );
        },
        TransformerKind::BackgroundOverlay => {
            reveal_strlit("background-image");
            reveal_strlit("background-repeat");
            reveal_strlit("background-attachment");
            reveal_strlit("background-size");
            reveal_strlit("background-position");
            if let ResolvedView::Multi(m) = background_overlay_spec(v) {
                assert(m[0].0.len() == 16);
                assert(m[1].0.len() == 17);
                assert(m[2].0.len() == 21);
                assert(m[3].0.len() == 15);
                assert(m[4].0.len() == 19);
                assert(well_formed_decls(m));
            }
        },
        TransformerKind::BackgroundImageOverlay => {
            if let Some(img) = v.get("image"@) {
                if let Some(s) = img.str_field("src"@) {
                    reveal_strlit("src");
                    reveal_strlit("repeat");
                    reveal_strlit("attachment");
                    reveal_strlit("size");
                    reveal_strlit("position");
                    assert("repeat"@[0] != "$$type"@[0]);
                    assert("src"@.len() == 3 && "repeat"@.len() == 6 && "attachment"@.len() == 10);
                    assert("size"@.len() == 4 && "position"@.len() == 8);
                    let d0 = seq![("src"@, "url(\""@ + s + "\")"@)];
                    let k0 = set!["src"@];
                    assert(well_formed_decls(d0));
                    let d1 = push_opt(d0, "repeat"@, v.str_field("repeat"@));
                    lemma_push_opt_well_formed(d0, k0, "repeat"@, v.str_field("repeat"@));
                    let k1 = k0.insert("repeat"@);
                    let d2 = push_opt(d1, "attachment"@, v.str_field("attachment"@));
                    lemma_push_opt_well_formed(d1, k1, "attachment"@, v.str_field("attachment"@));
                    let k2 = k1.insert("attachment"@);
                    let d3 = push_opt(d2, "size"@, v.str_field("size"@));
                    lemma_push_opt_well_formed(d2, k2, "size"@, v.str_field("size"@));
                    let k3 = k2.insert("size"@);
                    lemma_push_opt_well_formed(d3, k3, "position"@, v.str_field("position"@));
                }
            }
        },
        TransformerKind::Stroke => {
            reveal_strlit("-webkit-text-stroke");
            reveal_strlit("stroke");
            reveal_strlit("stroke-width");
            assert("stroke"@[0] != "$$type"@[0]);
            if let ResolvedView::Multi(m) = stroke_spec(v) {
                assert(m[0].0.len() == 19);
                assert(m[1].0.len() == 6);
                assert(m[2].0.len() == 12);
                assert(well_formed_decls(m));
            }
        },
        _ => {},
    }
}

impl Transformer for TransformerKind {
    open spec fn transform_spec(&self, value: JsonView, ctx: ContextView) -> ResolvedView {
        kind_transform_spec(*self, value)
    }

    fn transform(&self, value: &Json, ctx: &TransformerContext) -> (r: Resolved) {
        match self {
            TransformerKind::Size => SizeTransformer.transform(value, ctx),
            TransformerKind::GridTrackSize => GridTrackSizeTransformer.transform(value, ctx),
            TransformerKind::Flex => FlexTransformer.transform(value, ctx),
            TransformerKind::Shadow => ShadowTransformer.transform(value, ctx),
            TransformerKind::Filter => FilterTransformer.transform(value, ctx),
            TransformerKind::TransformFunctions => TransformFunctionsTransformer.transform(
                value,
                ctx,
            ),
            TransformerKind::TransformMove => TransformMoveTransformer.transform(value, ctx),
            TransformerKind::TransformRotate => TransformRotateTransformer.transform(value, ctx),
            TransformerKind::TransformScale => TransformScaleTransformer.transform(value, ctx),
            TransformerKind::TransformSkew => TransformSkewTransformer.transform(value, ctx),
            TransformerKind::TransformOrigin => TransformOriginTransformer.transform(value, ctx),
            TransformerKind::Background => BackgroundTransformer.transform(value, ctx),
            TransformerKind::BackgroundOverlay => BackgroundOverlayTransformer.transform(
                value,
                ctx,
            ),
            TransformerKind::BackgroundColorOverlay => BackgroundColorOverlayTransformer.transform(
                value,
                ctx,
            ),
            TransformerKind::BackgroundGradientOverlay => {
                BackgroundGradientOverlayTransformer.transform(value, ctx)
            },
            TransformerKind::BackgroundImageOverlay => BackgroundImageOverlayTransformer.transform(
                value,
                ctx,
            ),
            TransformerKind::BackgroundImageOverlaySizeScale => {
                BackgroundImageOverlaySizeScaleTransformer.transform(value, ctx)
            },
            TransformerKind::Span => SpanTransformer.transform(value, ctx),
            TransformerKind::FontFamily => FontFamilyTransformer.transform(value, ctx),
            TransformerKind::Position => PositionTransformer.transform(value, ctx),
            TransformerKind::PerspectiveOrigin => PerspectiveOriginTransformer.transform(
                value,
                ctx,
            ),
            TransformerKind::ColorStop => ColorStopTransformer.transform(value, ctx),
            TransformerKind::Stroke => StrokeTransformer.transform(value, ctx),
            TransformerKind::Transition => TransitionTransformer.transform(value, ctx),
            TransformerKind::Passthrough => PassthroughTransformer.transform(value, ctx),
        }
    }
}

/// Maps `$$type` keys to transformers of type `T`, with an optional fallback for
/// keys that have none of their own.
pub struct TransformerRegistry<T> {
    transformers: Vec<(String, T)>,
    fallback: Option<T>,
}

/// The view of a registry: its keys in registration order, and its fallback.
pub struct RegistryView<T> {
    pub transformers: Seq<(Seq<char>, T)>,
    pub fallback: Option<T>,
}

/// The transformer that a registry gives for a key.
pub open spec fn registry_get<T>(r: RegistryView<T>, key: Seq<char>) -> Option<T> {
    match lookup(r.transformers, key) {
        Some(t) => Some(t),
        None => r.fallback,
    }
}

impl<T> View for TransformerRegistry<T> {
    type V = RegistryView<T>;

    closed spec fn view(&self) -> RegistryView<T> {
        RegistryView {
            transformers: self.transformers@.map_values(|p: (String, T)| (p.0@, p.1)),
            fallback: self.fallback,
        }
    }
}

impl<T> Default for TransformerRegistry<T> {
    /// A registry with no transformers and no fallback.
    fn default() -> (r: Self)
        ensures
            r@.transformers == Seq::<(Seq<char>, T)>::empty(),
            r@.fallback is None,
            distinct_keys(r@.transformers),
    {
        let r = TransformerRegistry { transformers: Vec::new(), fallback: None };
        assert(r@.transformers =~= Seq::<(Seq<char>, T)>::empty());
        r
    }
}

impl<T> TransformerRegistry<T> {
    /// No key occurs twice.
    #[verifier::type_invariant]
    spec fn keys_distinct(self) -> bool {
        distinct_keys(self@.transformers)
    }

    /// Registers `t` under `key`, in place of any transformer registered there before.
    pub fn register(&mut self, key: String, t: T)
        ensures
            final(self)@ == (RegistryView {
                transformers: put(old(self)@.transformers, key@, t),
                fallback: old(self)@.fallback,
            }),
            distinct_keys(final(self)@.transformers),
            forall|k: Seq<char>|
                #[trigger] registry_get(final(self)@, k) == if k == key@ {
                    Some(t)
                } else {
                    registry_get(old(self)@, k)
                },
    {
        proof {
            use_type_invariant(&*self);
        }
        let ghost old_view = self@.transformers;
        let ghost key_view = key@;
        let ghost tv = t;
        let mut entries: Vec<(String, T)> = Vec::new();
        std::mem::swap(&mut entries, &mut self.transformers);
        proof {
            assert(self@.transformers =~= Seq::<(Seq<char>, T)>::empty());
            assert(entries@.map_values(|p: (String, T)| (p.0@, p.1)) == old_view);
            assert(string_keys(entries@) =~= keys_of(old_view));
            lemma_put_lookup(old_view, key_view, tv, key_view);
            assert forall|k: Seq<char>|
                #[trigger] lookup(put(old_view, key_view, tv), k) == if k == key_view {
                    Some(tv)
                } else {
                    lookup(old_view, k)
                } by {
                lemma_put_lookup(old_view, key_view, tv, k);
            }
        }
        match find_index(&entries, key.as_str()) {
            Some(i) => {
                entries.set(i, (key, t));
                proof {
                    assert(entries@.map_values(|p: (String, T)| (p.0@, p.1)) =~= old_view.update(
                        i as int,
                        (key_view, tv),
                    ));
                }
            },
            None => {
                entries.push((key, t));
                proof {
                    assert(entries@.map_values(|p: (String, T)| (p.0@, p.1)) =~= old_view.push(
                        (key_view, tv),
                    ));
                }
            },
        }
        self.transformers = entries;
    }

    /// Makes `t` the transformer of every key that has none of its own.
    pub fn register_fallback(&mut self, t: T)
        ensures
            final(self)@ == (RegistryView {
                transformers: old(self)@.transformers,
                fallback: Some(t),
            }),
            forall|k: Seq<char>|
                #[trigger] registry_get(final(self)@, k) == match lookup(old(self)@.transformers, k) {
                    Some(own) => Some(own),
                    None => Some(t),
                },
            distinct_keys(final(self)@.transformers),
    {
        proof {
            use_type_invariant(&*self);
        }
        self.fallback = Some(t);
    }

    /// The transformer registered under `key`, else the fallback.
    pub fn get(&self, key: &str) -> (r: Option<&T>)
        ensures
            match r {
                Some(t) => registry_get(self@, key@) == Some(*t),
                None => registry_get(self@, key@) is None,
            },
            distinct_keys(self@.transformers),
    {
        proof {
            use_type_invariant(self);
            assert(string_keys(self.transformers@) =~= keys_of(self@.transformers));
        }
        match find_index(&self.transformers, key) {
            Some(i) => Some(&self.transformers[i].1),
            None => match &self.fallback {
                Some(t) => Some(t),
                None => None,
            },
        }
    }
}

/// One call that changes a registry.
pub enum RegistryOp<T> {
    /// `register(key, t)`.
    Register(Seq<char>, T),
    /// `register_fallback(t)`.
    Fallback(T),
}

/// What one call makes of a registry.
pub open spec fn apply_op<T>(r: RegistryView<T>, op: RegistryOp<T>) -> RegistryView<T> {
    match op {
        RegistryOp::Register(k, t) => RegistryView {
            transformers: put(r.transformers, k, t),
            fallback: r.fallback,
        },
        RegistryOp::Fallback(t) => RegistryView { transformers: r.transformers, fallback: Some(t) },
    }
}

/// The registry that a sequence of calls makes of the empty registry.
pub open spec fn apply_ops<T>(ops: Seq<RegistryOp<T>>) -> RegistryView<T>
    decreases ops.len(),
{
    if ops.len() == 0 {
        RegistryView { transformers: Seq::empty(), fallback: None }
    } else {
        apply_op(apply_ops(ops.drop_last()), ops.last())
    }
}

/// The transformer of the last `register` call with key `k`.
pub open spec fn last_registered<T>(ops: Seq<RegistryOp<T>>, k: Seq<char>) -> Option<T>
    decreases ops.len(),
{
    if ops.len() == 0 {
        None
    } else {
        match ops.last() {
            RegistryOp::Register(k2, t) => if k2 == k {
                Some(t)
            } else {
                last_registered(ops.drop_last(), k)
            },
            RegistryOp::Fallback(_) => last_registered(ops.drop_last(), k),
        }
    }
}

/// The transformer of the last `register_fallback` call.
pub open spec fn last_fallback<T>(ops: Seq<RegistryOp<T>>) -> Option<T>
    decreases ops.len(),
{
    if ops.len() == 0 {
        None
    } else {
        match ops.last() {
            RegistryOp::Fallback(t) => Some(t),
            RegistryOp::Register(_, _) => last_fallback(ops.drop_last()),
        }
    }
}

/// After any sequence of calls on a fresh registry, a key gives the transformer of
/// the last `register` call with that key; where there is none, the transformer of
/// the last `register_fallback` call; where there is none either, nothing.
/// Registering a key again replaces its transformer, and the fallback never
/// shadows a key of its own.
pub proof fn law_registry_reads_last_write<T>(ops: Seq<RegistryOp<T>>, k: Seq<char>)
    ensures
        lookup(apply_ops(ops).transformers, k) == last_registered(ops, k),
        apply_ops(ops).fallback == last_fallback(ops),
        registry_get(apply_ops(ops), k) == match last_registered(ops, k) {
            Some(t) => Some(t),
            None => last_fallback(ops),
        },
    decreases ops.len(),
{
    if ops.len() > 0 {
        let rest = ops.drop_last();
        law_registry_reads_last_write(rest, k);
        let prev = apply_ops(rest);
        match ops.last() {
            RegistryOp::Register(k2, t) => {
                lemma_put_lookup(prev.transformers, k2, t, k);
            },
            RegistryOp::Fallback(_) => {},
        }
    } else {
        assert(keys_of(Seq::<(Seq<char>, T)>::empty()) =~= Seq::<Seq<char>>::empty());
    }
}

} // verus!
