//! Background transformers.
use vstd::prelude::*;

use crate::assoc::{distinct_keys, lemma_put_avoids, lemma_put_len, lemma_put_lookup, lookup, put};
use crate::json::{
    entries_view, items_view, lemma_entries_view, lemma_items_view, Json, JsonView, NumberView,
};
use crate::text::{decimal_int, i64_to_decimal, join3, join_all, join_with, str_eq, strings_view};
use crate::transformer::{
    filter_map_seq, lemma_filter_map_step, nonempty_spec, str_field_or, str_or, Transformer,
};
use crate::types::{decls_view, put_decl, ContextView, Resolved, ResolvedView, TransformerContext};

verus! {

pub const DEFAULT_IMAGE: &'static str = "none";

pub const DEFAULT_REPEAT: &'static str = "repeat";

pub const DEFAULT_ATTACHMENT: &'static str = "scroll";

pub const DEFAULT_SIZE: &'static str = "auto auto";

pub const DEFAULT_POSITION: &'static str = "0% 0%";

/// Top-level background: overlay declarations, then color and clip.
pub struct BackgroundTransformer;

/// Array of layer objects to the `background-*` declarations of every layer.
pub struct BackgroundOverlayTransformer;

/// `{color}` to a one-color `linear-gradient`.
pub struct BackgroundColorOverlayTransformer;

/// `{type, angle, positions, stops}` to a linear or radial gradient.
pub struct BackgroundGradientOverlayTransformer;

/// `{image: {src}, repeat, attachment, size, position}` to the fields of one image layer.
pub struct BackgroundImageOverlayTransformer;

/// `{width, height}` to `width height`.
pub struct BackgroundImageOverlaySizeScaleTransformer;

/// The key that tags a prop value with its type; it names no CSS property.
pub open spec fn is_type_tag(key: Seq<char>) -> bool {
    key == "$$type"@
}

/// The string members of a resolved overlay object, as declarations; the type
/// tag is no declaration.
pub open spec fn overlay_decls(entries: Seq<(Seq<char>, JsonView)>) -> Seq<(Seq<char>, Seq<char>)>
    decreases entries.len(),
{
    if entries.len() == 0 {
        Seq::empty()
    } else {
        let rest = overlay_decls(entries.drop_last());
        match entries.last().1.as_str() {
            Some(s) => if is_type_tag(entries.last().0) {
                rest
            } else {
                put(rest, entries.last().0, s)
            },
            None => rest,
        }
    }
}

/// Overlay declarations name each property once, and never the type tag.
pub proof fn lemma_overlay_decls_well_formed(entries: Seq<(Seq<char>, JsonView)>)
    ensures
        distinct_keys(overlay_decls(entries)),
        forall|i: int|
            0 <= i < overlay_decls(entries).len() ==> !is_type_tag(
                #[trigger] overlay_decls(entries)[i].0,
            ),
    decreases entries.len(),
{
    if entries.len() > 0 {
        let rest = entries.drop_last();
        lemma_overlay_decls_well_formed(rest);
        let k = entries.last().0;
        match entries.last().1.as_str() {
            Some(s) => if !is_type_tag(k) {
                lemma_put_lookup(overlay_decls(rest), k, s, k);
                lemma_put_avoids(overlay_decls(rest), k, s, "$$type"@);
            },
            None => {},
        }
    }
}

/// `d` with `value` stored under `key` where `value` is present.
pub open spec fn put_opt(
    d: Seq<(Seq<char>, Seq<char>)>,
    key: Seq<char>,
    value: Option<Seq<char>>,
) -> Seq<(Seq<char>, Seq<char>)> {
    match value {
        Some(s) => put(d, key, s),
        None => d,
    }
}

pub open spec fn background_spec(v: JsonView) -> ResolvedView {
    let overlay = match v.get("background-overlay"@) {
        Some(o) => match o.as_object() {
            Some(e) => overlay_decls(e),
            None => Seq::empty(),
        },
        None => Seq::empty(),
    };
    let props = put_opt(
        put_opt(overlay, "background-color"@, v.str_field("color"@)),
        "background-clip"@,
        v.str_field("clip"@),
    );
    if props.len() == 0 {
        ResolvedView::Nothing
    } else {
        ResolvedView::Multi(props)
    }
}

/// The layers that have a string `src`.
pub open spec fn layer_with_src() -> spec_fn(JsonView) -> Option<JsonView> {
    |l: JsonView|
        if l.str_field("src"@) is Some {
            Some(l)
        } else {
            None
        }
}

/// The value of `prop` in one layer: its non-empty string, else `default`.
pub open spec fn layer_value(l: JsonView, prop: Seq<char>, default: Seq<char>) -> Seq<char> {
    match nonempty_spec(l.str_field(prop)) {
        Some(s) => s,
        None => default,
    }
}

/// Whether every value equals the first one.
pub open spec fn all_same(values: Seq<Seq<char>>) -> bool {
    values.len() > 0 && forall|i: int| 0 <= i < values.len() ==> #[trigger] values[i] == values[0]
}

/// The values of `prop` in every layer, joined by commas; a single value
/// where all are equal and unification is allowed.
pub open spec fn layer_values_spec(
    layers: Seq<JsonView>,
    prop: Seq<char>,
    default: Seq<char>,
    prevent_unification: bool,
) -> Seq<char> {
    let values = layers.map_values(|l: JsonView| layer_value(l, prop, default));
    if !prevent_unification && all_same(values) {
        values[0]
    } else {
        join_with(values, ","@)
    }
}

pub open spec fn background_overlay_spec(v: JsonView) -> ResolvedView {
    match v.as_array() {
        None => ResolvedView::Nothing,
        Some(a) => {
            let layers = filter_map_seq(a, layer_with_src());
            if layers.len() == 0 {
                ResolvedView::Nothing
            } else {
                ResolvedView::Multi(
                    seq![
                        ("background-image"@, layer_values_spec(layers, "src"@, DEFAULT_IMAGE@, true)),
                        ("background-repeat"@, layer_values_spec(layers, "repeat"@, DEFAULT_REPEAT@, false)),
                        ("background-attachment"@, layer_values_spec(layers, "attachment"@, DEFAULT_ATTACHMENT@, false)),
                        ("background-size"@, layer_values_spec(layers, "size"@, DEFAULT_SIZE@, false)),
                        ("background-position"@, layer_values_spec(layers, "position"@, DEFAULT_POSITION@, false)),
                    ],
                )
            }
        },
    }
}

pub open spec fn background_color_overlay_spec(v: JsonView) -> ResolvedView {
    match nonempty_spec(v.str_field("color"@)) {
        Some(c) => ResolvedView::Single("linear-gradient("@ + c + ", "@ + c + ")"@),
        None => ResolvedView::Nothing,
    }
}

/// The angle is read from a number, as its whole part, or from a text: the
/// resolver resolves the members of a value before its transformer sees it, so a
/// member tagged `number` arrives as the text of that number, and it stands for
/// the same angle.
pub open spec fn background_gradient_overlay_spec(v: JsonView) -> ResolvedView {
    let kind = str_or(v.str_field("type"@), "linear"@);
    let angle = match v.get("angle"@) {
        Some(JsonView::Number(n)) => decimal_int(n.truncated),
        Some(JsonView::Str(t)) => t,
        _ => "180"@,
    };
    let positions = str_or(v.str_field("positions"@), "center"@);
    let stops = str_or(v.str_field("stops"@), Seq::empty());
    if kind == "radial"@ {
        ResolvedView::Single("radial-gradient(circle at "@ + positions + ", "@ + stops + ")"@)
    } else {
        ResolvedView::Single("linear-gradient("@ + angle + "deg, "@ + stops + ")"@)
    }
}

/// `d` with `(key, value)` added where `value` is present.
pub open spec fn push_opt(
    d: Seq<(Seq<char>, Seq<char>)>,
    key: Seq<char>,
    value: Option<Seq<char>>,
) -> Seq<(Seq<char>, Seq<char>)> {
    match value {
        Some(s) => d.push((key, s)),
        None => d,
    }
}

pub open spec fn background_image_overlay_spec(v: JsonView) -> ResolvedView {
    let src = match v.get("image"@) {
        Some(img) => img.str_field("src"@),
        None => None,
    };
    match src {
        None => ResolvedView::Single(Seq::empty()),
        Some(s) => ResolvedView::Multi(
            push_opt(
                push_opt(
                    push_opt(
                        push_opt(
                            seq![("src"@, "url(\""@ + s + "\")"@)],
                            "repeat"@,
                            v.str_field("repeat"@),
                        ),
                        "attachment"@,
                        v.str_field("attachment"@),
                    ),
                    "size"@,
                    v.str_field("size"@),
                ),
                "position"@,
                v.str_field("position"@),
            ),
        ),
    }
}

pub open spec fn background_image_overlay_size_scale_spec(v: JsonView) -> ResolvedView {
    ResolvedView::Single(
        str_or(v.str_field("width"@), "auto"@) + " "@ + str_or(v.str_field("height"@), "auto"@),
    )
}

/// Background: the `color` member becomes `background-color` and the `clip`
/// member `background-clip`.
pub proof fn law_background_color_and_clip(v: JsonView, c: Seq<char>, k: Seq<char>)
    requires
        v.str_field("color"@) == Some(c),
        v.str_field("clip"@) == Some(k),
    ensures
        background_spec(v) is Multi,
        lookup(background_spec(v)->Multi_0, "background-color"@) == Some(c),
        lookup(background_spec(v)->Multi_0, "background-clip"@) == Some(k),
{
    let overlay = match v.get("background-overlay"@) {
        Some(o) => match o.as_object() {
            Some(e) => overlay_decls(e),
            None => Seq::empty(),
        },
        None => Seq::empty(),
    };
    let with_color = put(overlay, "background-color"@, c);
    reveal_strlit("background-color");
    reveal_strlit("background-clip");
    assert("background-color"@.len() != "background-clip"@.len());
    lemma_put_lookup(overlay, "background-color"@, c, "background-color"@);
    lemma_put_lookup(with_color, "background-clip"@, k, "background-clip"@);
    lemma_put_lookup(with_color, "background-clip"@, k, "background-color"@);
    lemma_put_len(with_color, "background-clip"@, k);
}

/// Background: a string member of the resolved overlay object is a declaration
/// of its own, unless color or clip name the same property.
pub proof fn law_background_overlay_member(v: JsonView, e: Seq<(Seq<char>, JsonView)>, k: Seq<char>, s: Seq<char>)
    requires
        v.get("background-overlay"@) == Some(JsonView::Object(e)),
        e.len() > 0,
        e.last() == (k, JsonView::Str(s)),
        !is_type_tag(k),
        v.str_field("color"@) is None,
        v.str_field("clip"@) is None,
    ensures
        background_spec(v) is Multi,
        lookup(background_spec(v)->Multi_0, k) == Some(s),
{
    lemma_put_lookup(overlay_decls(e.drop_last()), k, s, k);
    lemma_put_len(overlay_decls(e.drop_last()), k, s);
}

/// Background: without overlay, color or clip there are no declarations.
pub proof fn law_background_empty(v: JsonView)
    requires
        v.get("background-overlay"@) is None,
        v.str_field("color"@) is None,
        v.str_field("clip"@) is None,
    ensures
        background_spec(v) == ResolvedView::Nothing,
{
}

/// Layer values: one value per layer, joined by commas; where every layer has
/// the same value and unification is allowed, that one value.
pub proof fn law_layer_values_two(
    l1: JsonView,
    l2: JsonView,
    prop: Seq<char>,
    default: Seq<char>,
    prevent_unification: bool,
    a: Seq<char>,
    b: Seq<char>,
)
    requires
        l1.str_field(prop) == Some(a),
        l2.str_field(prop) == Some(b),
        a.len() > 0,
        b.len() > 0,
    ensures
        layer_values_spec(seq![l1, l2], prop, default, prevent_unification) == if !prevent_unification
            && a == b {
            a
        } else {
            a + ","@ + b
        },
{
    let values = seq![l1, l2].map_values(|l: JsonView| layer_value(l, prop, default));
    assert(values =~= seq![a, b]);
    assert(values.drop_last() =~= seq![a]);
    assert(join_with(values, ","@) == join_with(values.drop_last(), ","@) + ","@ + values.last());
    assert(join_with(values.drop_last(), ","@) == a);
    if a != b {
        assert(values[1] != values[0]);
        assert(!all_same(values));
    } else {
        assert(all_same(values));
    }
}

/// Layer values: a layer whose value is missing or empty takes the default.
pub proof fn law_layer_value_default(l: JsonView, prop: Seq<char>, default: Seq<char>, prevent_unification: bool)
    requires
        l.str_field(prop) is None || l.str_field(prop) == Some(Seq::<char>::empty()),
    ensures
        layer_values_spec(seq![l], prop, default, prevent_unification) == default,
{
    let values = seq![l].map_values(|x: JsonView| layer_value(x, prop, default));
    assert(values =~= seq![default]);
}

/// Overlay: a single image layer gives its `src` as `background-image` and
/// its own values, or the defaults, for the other four properties.
pub proof fn law_background_overlay_one_layer(l: JsonView, src: Seq<char>, size: Seq<char>)
    requires
        l.str_field("src"@) == Some(src),
        src.len() > 0,
        l.str_field("size"@) == Some(size),
        size.len() > 0,
        l.str_field("repeat"@) is None,
        l.str_field("attachment"@) is None,
        l.str_field("position"@) is None,
    ensures
        background_overlay_spec(JsonView::Array(seq![l])) == ResolvedView::Multi(
            seq![
                ("background-image"@, src),
                ("background-repeat"@, DEFAULT_REPEAT@),
                ("background-attachment"@, DEFAULT_ATTACHMENT@),
                ("background-size"@, size),
                ("background-position"@, DEFAULT_POSITION@),
            ],
        ),
{
    assert(seq![l].drop_last() =~= Seq::<JsonView>::empty());
    assert(seq![l].last() == l);
    assert((layer_with_src())(l) == Some(l));
    assert(filter_map_seq(Seq::<JsonView>::empty(), layer_with_src()) =~= Seq::<JsonView>::empty());
    assert(filter_map_seq(seq![l], layer_with_src()) =~= Seq::<JsonView>::empty().push(l));
    assert(Seq::<JsonView>::empty().push(l) =~= seq![l]);
    law_layer_value_default(l, "repeat"@, DEFAULT_REPEAT@, false);
    law_layer_value_default(l, "attachment"@, DEFAULT_ATTACHMENT@, false);
    law_layer_value_default(l, "position"@, DEFAULT_POSITION@, false);
    let srcs = seq![l].map_values(|x: JsonView| layer_value(x, "src"@, DEFAULT_IMAGE@));
    assert(srcs =~= seq![src]);
    let sizes = seq![l].map_values(|x: JsonView| layer_value(x, "size"@, DEFAULT_SIZE@));
    assert(sizes =~= seq![size]);
}

/// Overlay: with two image layers, the images are always listed one per layer,
/// while another property of equal values in both layers is given once.
pub proof fn law_background_overlay_two_layers(l1: JsonView, l2: JsonView, a: Seq<char>, b: Seq<char>, r: Seq<char>)
    requires
        l1.str_field("src"@) == Some(a),
        l2.str_field("src"@) == Some(b),
        a.len() > 0,
        b.len() > 0,
        l1.str_field("repeat"@) == Some(r),
        l2.str_field("repeat"@) == Some(r),
        r.len() > 0,
    ensures
        background_overlay_spec(JsonView::Array(seq![l1, l2])) is Multi,
        background_overlay_spec(JsonView::Array(seq![l1, l2]))->Multi_0[0] == ("background-image"@, a
            + ","@ + b),
        background_overlay_spec(JsonView::Array(seq![l1, l2]))->Multi_0[1] == ("background-repeat"@, r),
{
    let layers = seq![l1, l2];
    assert(layers.drop_last() =~= seq![l1]);
    assert(seq![l1].drop_last() =~= Seq::<JsonView>::empty());
    assert((layer_with_src())(l1) == Some(l1));
    assert((layer_with_src())(l2) == Some(l2));
    assert(filter_map_seq(Seq::<JsonView>::empty(), layer_with_src()) =~= Seq::<JsonView>::empty());
    assert(filter_map_seq(seq![l1], layer_with_src()) =~= seq![l1]);
    assert(filter_map_seq(layers, layer_with_src()) =~= layers);
    law_layer_values_two(l1, l2, "src"@, DEFAULT_IMAGE@, true, a, b);
    law_layer_values_two(l1, l2, "repeat"@, DEFAULT_REPEAT@, false, r, r);
}

/// Overlay: layers without a string `src` are left out; with none left there
/// are no declarations.
pub proof fn law_background_overlay_needs_src(l: JsonView)
    requires
        l.str_field("src"@) is None,
    ensures
        background_overlay_spec(JsonView::Array(seq![l])) == ResolvedView::Nothing,
        background_overlay_spec(JsonView::Array(Seq::empty())) == ResolvedView::Nothing,
{
    assert(seq![l].drop_last() =~= Seq::<JsonView>::empty());
}

/// Color overlay: a non-empty color `c` gives `linear-gradient(c, c)`.
pub proof fn law_color_overlay(v: JsonView, c: Seq<char>)
    requires
        v.str_field("color"@) == Some(c),
    ensures
        background_color_overlay_spec(v) == if c.len() == 0 {
            ResolvedView::Nothing
        } else {
            ResolvedView::Single("linear-gradient("@ + c + ", "@ + c + ")"@)
        },
{
}

/// Radial gradient: circle at the `positions` member, then the stops.
pub proof fn law_radial_gradient(v: JsonView, p: Seq<char>, stops: Seq<char>)
    requires
        v.str_field("type"@) == Some("radial"@),
        v.str_field("positions"@) == Some(p),
        v.str_field("stops"@) == Some(stops),
    ensures
        background_gradient_overlay_spec(v) == ResolvedView::Single(
            "radial-gradient(circle at "@ + p + ", "@ + stops + ")"@,
        ),
{
}

/// Radial gradient: without `positions` the circle is at the center.
pub proof fn law_radial_gradient_center(v: JsonView, stops: Seq<char>)
    requires
        v.str_field("type"@) == Some("radial"@),
        v.str_field("positions"@) is None,
        v.str_field("stops"@) == Some(stops),
    ensures
        background_gradient_overlay_spec(v) == ResolvedView::Single(
            "radial-gradient(circle at center, "@ + stops + ")"@,
        ),
{
    reveal_strlit("radial-gradient(circle at center, ");
    reveal_strlit("radial-gradient(circle at ");
    reveal_strlit("center");
    reveal_strlit(", ");
    assert("radial-gradient(circle at "@ + "center"@ + ", "@ =~= "radial-gradient(circle at center, "@);
    assert("radial-gradient(circle at "@ + "center"@ + ", "@ + stops + ")"@
        =~= "radial-gradient(circle at center, "@ + stops + ")"@);
}

/// Linear gradient: the angle in degrees, a number taken by its whole part
/// and a resolved text as it is, then the stops; without `type` the gradient
/// is linear, and without an angle it is `180deg`.
pub proof fn law_linear_gradient(v: JsonView, n: NumberView, t: Seq<char>, stops: Seq<char>)
    requires
        v.str_field("type"@) is None,
        v.str_field("stops"@) == Some(stops),
    ensures
        v.get("angle"@) == Some(JsonView::Number(n)) ==> background_gradient_overlay_spec(v)
            == ResolvedView::Single("linear-gradient("@ + decimal_int(n.truncated) + "deg, "@ + stops + ")"@),
        v.get("angle"@) == Some(JsonView::Str(t)) ==> background_gradient_overlay_spec(v)
            == ResolvedView::Single("linear-gradient("@ + t + "deg, "@ + stops + ")"@),
        v.get("angle"@) is None ==> background_gradient_overlay_spec(v) == ResolvedView::Single(
            "linear-gradient(180deg, "@ + stops + ")"@,
        ),
{
    reveal_strlit("radial");
    reveal_strlit("linear");
    assert("linear"@[0] != "radial"@[0]);
    reveal_strlit("linear-gradient(180deg, ");
    reveal_strlit("linear-gradient(");
    reveal_strlit("180");
    reveal_strlit("deg, ");
    assert("linear-gradient("@ + "180"@ + "deg, "@ =~= "linear-gradient(180deg, "@);
    assert("linear-gradient("@ + "180"@ + "deg, "@ + stops + ")"@
        =~= "linear-gradient(180deg, "@ + stops + ")"@);
}

/// Image overlay: the image's `src` as `url("src")`, then the string members
/// among repeat, attachment, size and position, in that order.
pub proof fn law_image_overlay(v: JsonView, img: JsonView, s: Seq<char>, r: Seq<char>, p: Seq<char>)
    requires
        v.get("image"@) == Some(img),
        img.str_field("src"@) == Some(s),
        v.str_field("repeat"@) == Some(r),
        v.str_field("attachment"@) is None,
        v.str_field("size"@) is None,
        v.str_field("position"@) == Some(p),
    ensures
        background_image_overlay_spec(v) == ResolvedView::Multi(
            seq![("src"@, "url(\""@ + s + "\")"@), ("repeat"@, r), ("position"@, p)],
        ),
{
    assert(seq![("src"@, "url(\""@ + s + "\")"@)].push(("repeat"@, r)).push(("position"@, p))
        =~= seq![("src"@, "url(\""@ + s + "\")"@), ("repeat"@, r), ("position"@, p)]);
}

/// Image overlay: without an image `src` the result is the empty text.
pub proof fn law_image_overlay_without_src(v: JsonView)
    requires
        v.get("image"@) is None,
    ensures
        background_image_overlay_spec(v) == ResolvedView::Single(Seq::empty()),
{
}

/// Size scale: `width height`, each `auto` where missing.
pub proof fn law_size_scale(v: JsonView, w: Seq<char>, h: Seq<char>)
    requires
        v.str_field("width"@) == Some(w),
        v.str_field("height"@) == Some(h),
    ensures
        background_image_overlay_size_scale_spec(v) == ResolvedView::Single(w + " "@ + h),
        background_image_overlay_size_scale_spec(JsonView::Null) == ResolvedView::Single(
            "auto auto"@,
        ),
{
    reveal_strlit("auto auto");
    reveal_strlit("auto");
    reveal_strlit(" ");
    assert("auto"@ + " "@ + "auto"@ =~= "auto auto"@);
}

impl Transformer for BackgroundTransformer {
    open spec fn transform_spec(&self, value: JsonView, ctx: ContextView) -> ResolvedView {
        background_spec(value)
    }

    fn transform(&self, value: &Json, ctx: &TransformerContext) -> (r: Resolved) {
        let mut props: Vec<(String, String)> = Vec::new();
        assert(decls_view(props@) =~= Seq::<(Seq<char>, Seq<char>)>::empty());
        match value.get("background-overlay") {
            Some(o) => match o.as_object() {
                Some(entries) => {
                    let ghost ev = entries_view(entries@);
                    proof {
                        lemma_entries_view(entries@);
                    }
                    let mut i: usize = 0;
                    while i < entries.len()
                        invariant
                            ev == entries_view(entries@),
                            ev.len() == entries.len(),
                            forall|k: int|
                                0 <= k < entries.len() ==> #[trigger] ev[k] == (
                                    entries@[k].0@,
                                    entries@[k].1@,
                                ),
                            i <= entries.len(),
                            decls_view(props@) == overlay_decls(ev.subrange(0, i as int)),
                        decreases entries.len() - i,
                    {
                        proof {
                            let next = ev.subrange(0, i + 1);
                            assert(next.drop_last() =~= ev.subrange(0, i as int));
                            assert(next.last() == ev[i as int]);
                        }
                        match entries[i].1.as_str() {
                            Some(s) => {
                                if !str_eq(entries[i].0.as_str(), "$$type") {
                                    put_decl(&mut props, entries[i].0.clone(), s.to_owned());
                                }
                            },
                            None => {},
                        }
                        i = i + 1;
                    }
                    assert(ev.subrange(0, entries.len() as int) =~= ev);
                },
                None => {},
            },
            None => {},
        }
        match value.str_field("color") {
            Some(c) => {
                put_decl(&mut props, "background-color".to_owned(), c.to_owned());
            },
            None => {},
        }
        match value.str_field("clip") {
            Some(c) => {
                put_decl(&mut props, "background-clip".to_owned(), c.to_owned());
            },
            None => {},
        }
        if props.len() == 0 {
            Resolved::Nothing
        } else {
            Resolved::Multi(props)
        }
    }
}

fn layer_values(
    layers: &Vec<&Json>,
    prop: &str,
    default: &str,
    prevent_unification: bool,
) -> (s: String)
    ensures
        s@ == layer_values_spec(
            layers@.map_values(|l: &Json| l@),
            prop@,
            default@,
            prevent_unification,
        ),
{
    let ghost lv = layers@.map_values(|l: &Json| l@);
    let ghost expected = lv.map_values(|l: JsonView| layer_value(l, prop@, default@));
    let mut values: Vec<String> = Vec::new();
    let mut i: usize = 0;
    while i < layers.len()
        invariant
            lv == layers@.map_values(|l: &Json| l@),
            expected == lv.map_values(|l: JsonView| layer_value(l, prop@, default@)),
            i <= layers.len(),
            values.len() == i,
            forall|k: int| 0 <= k < i ==> #[trigger] values@[k]@ == expected[k],
        decreases layers.len() - i,
    {
        let v: &str = match layers[i].str_field(prop) {
            Some(s) => if s.is_empty() {
                default
            } else {
                s
            },
            None => default,
        };
        values.push(v.to_owned());
        i = i + 1;
    }
    assert(strings_view(values@) =~= expected);
    if !prevent_unification && values.len() > 0 {
        let mut same = true;
        let mut j: usize = 0;
        while j < values.len()
            invariant
                values.len() > 0,
                j <= values.len(),
                same == forall|k: int| 0 <= k < j ==> #[trigger] values@[k]@ == values@[0]@,
            decreases values.len() - j,
        {
            same = same && values[j] == values[0];
            j = j + 1;
        }
        if same {
            return values[0].clone();
        }
    }
    proof {
        reveal_strlit(",");
    }
    join_all(&values, ",")
}

impl Transformer for BackgroundOverlayTransformer {
    open spec fn transform_spec(&self, value: JsonView, ctx: ContextView) -> ResolvedView {
        background_overlay_spec(value)
    }

    fn transform(&self, value: &Json, ctx: &TransformerContext) -> (r: Resolved) {
        let arr = match value.as_array() {
            Some(a) => a,
            None => return Resolved::Nothing,
        };
        let ghost items = items_view(arr@);
        proof {
            lemma_items_view(arr@);
        }
        let mut layers: Vec<&Json> = Vec::new();
        let mut i: usize = 0;
        while i < arr.len()
            invariant
                items == items_view(arr@),
                items.len() == arr.len(),
                forall|k: int| 0 <= k < arr.len() ==> #[trigger] items[k] == arr@[k]@,
                i <= arr.len(),
                layers@.map_values(|l: &Json| l@) == filter_map_seq(
                    items.subrange(0, i as int),
                    layer_with_src(),
                ),
            decreases arr.len() - i,
        {
            proof {
                lemma_filter_map_step(items, layer_with_src(), i as int);
            }
            let ghost before = layers@.map_values(|l: &Json| l@);
            if arr[i].str_field("src").is_some() {
                layers.push(&arr[i]);
                assert(layers@.map_values(|l: &Json| l@) =~= before.push(arr@[i as int]@));
            }
            i = i + 1;
        }
        assert(items.subrange(0, arr.len() as int) =~= items);
        if layers.len() == 0 {
            return Resolved::Nothing;
        }
        let image = layer_values(&layers, "src", DEFAULT_IMAGE, true);
        let repeat = layer_values(&layers, "repeat", DEFAULT_REPEAT, false);
        let attachment = layer_values(&layers, "attachment", DEFAULT_ATTACHMENT, false);
        let size = layer_values(&layers, "size", DEFAULT_SIZE, false);
        let position = layer_values(&layers, "position", DEFAULT_POSITION, false);
        let mut props: Vec<(String, String)> = Vec::new();
        props.push(("background-image".to_owned(), image));
        props.push(("background-repeat".to_owned(), repeat));
        props.push(("background-attachment".to_owned(), attachment));
        props.push(("background-size".to_owned(), size));
        props.push(("background-position".to_owned(), position));
        let r = Resolved::Multi(props);
        assert(r@ == background_overlay_spec(value@)) by {
            assert(decls_view(props@) =~= seq![
                ("background-image"@, image@),
                ("background-repeat"@, repeat@),
                ("background-attachment"@, attachment@),
                ("background-size"@, size@),
                ("background-position"@, position@),
            ]);
        }
        r
    }
}

impl Transformer for BackgroundColorOverlayTransformer {
    open spec fn transform_spec(&self, value: JsonView, ctx: ContextView) -> ResolvedView {
        background_color_overlay_spec(value)
    }

    fn transform(&self, value: &Json, ctx: &TransformerContext) -> (r: Resolved) {
        match value.str_field("color") {
            Some(c) => {
                if c.is_empty() {
                    Resolved::Nothing
                } else {
                    let mut s = join3("linear-gradient(", c, ", ");
                    s.append(c);
                    s.append(")");
                    Resolved::Single(s)
                }
            },
            None => Resolved::Nothing,
        }
    }
}

impl Transformer for BackgroundGradientOverlayTransformer {
    open spec fn transform_spec(&self, value: JsonView, ctx: ContextView) -> ResolvedView {
        background_gradient_overlay_spec(value)
    }

    fn transform(&self, value: &Json, ctx: &TransformerContext) -> (r: Resolved) {
        let kind = str_field_or(value, "type", "linear");
        let angle: String = match value.get("angle") {
            Some(Json::Number(n)) => i64_to_decimal(n.truncated),
            Some(Json::Str(t)) => t.clone(),
            _ => "180".to_owned(),
        };
        let positions = str_field_or(value, "positions", "center");
        let stops: &str = match value.str_field("stops") {
            Some(s) => s,
            None => "",
        };
        proof {
            reveal_strlit("");
            assert(""@ =~= Seq::<char>::empty());
        }
        if str_eq(kind, "radial") {
            let mut s = join3("radial-gradient(circle at ", positions, ", ");
            s.append(stops);
            s.append(")");
            Resolved::Single(s)
        } else {
            let mut s = join3("linear-gradient(", angle.as_str(), "deg, ");
            s.append(stops);
            s.append(")");
            Resolved::Single(s)
        }
    }
}

fn push_field(props: &mut Vec<(String, String)>, key: &str, value: Option<&str>)
    ensures
        decls_view(final(props)@) == push_opt(
            decls_view(old(props)@),
            key@,
            match value {
                Some(s) => Some(s@),
                None => None,
            },
        ),
{
    let ghost before = decls_view(props@);
    match value {
        Some(s) => {
            props.push((key.to_owned(), s.to_owned()));
            assert(decls_view(props@) =~= before.push((key@, s@)));
        },
        None => {},
    }
}

impl Transformer for BackgroundImageOverlayTransformer {
    open spec fn transform_spec(&self, value: JsonView, ctx: ContextView) -> ResolvedView {
        background_image_overlay_spec(value)
    }

    fn transform(&self, value: &Json, ctx: &TransformerContext) -> (r: Resolved) {
        let image_src = match value.get("image") {
            Some(img) => img.str_field("src"),
            None => None,
        };
        let image_src = match image_src {
            Some(s) => s,
            None => return Resolved::Single(String::new()),
        };
        let mut props: Vec<(String, String)> = Vec::new();
        props.push(("src".to_owned(), join3("url(\"", image_src, "\")")));
        assert(decls_view(props@) =~= seq![("src"@, "url(\""@ + image_src@ + "\")"@)]);
        push_field(&mut props, "repeat", value.str_field("repeat"));
        push_field(&mut props, "attachment", value.str_field("attachment"));
        push_field(&mut props, "size", value.str_field("size"));
        push_field(&mut props, "position", value.str_field("position"));
        Resolved::Multi(props)
    }
}

impl Transformer for BackgroundImageOverlaySizeScaleTransformer {
    open spec fn transform_spec(&self, value: JsonView, ctx: ContextView) -> ResolvedView {
        background_image_overlay_size_scale_spec(value)
    }

    fn transform(&self, value: &Json, ctx: &TransformerContext) -> (r: Resolved) {
        let width = str_field_or(value, "width", "auto");
        let height = str_field_or(value, "height", "auto");
        Resolved::Single(join3(width, " ", height))
    }
}

} // verus!
