//! CSS `transform` transformers.
use vstd::prelude::*;

use crate::json::{css_number, items_view, lemma_items_view, Json, JsonView, NumberView};
use crate::text::{decimal_int, join2, join_all, join_with, str_eq, strings_view};
use crate::transformer::{
    filter_map_seq, lemma_filter_map_step, str_field_or, str_or, Transformer,
};
use crate::types::{ContextView, Resolved, ResolvedView, TransformerContext};

verus! {

/// Array of resolved transform function strings, joined by spaces.
pub struct TransformFunctionsTransformer;

/// `{x, y, z}` to `translate3d(x, y, z)`.
pub struct TransformMoveTransformer;

/// `{x, y, z}` to `rotateX(x) rotateY(y) rotateZ(z)`.
pub struct TransformRotateTransformer;

/// `{x, y, z}` to `scale3d(x, y, z)`.
pub struct TransformScaleTransformer;

/// `{x, y}` to `skew(x, y)`.
pub struct TransformSkewTransformer;

/// `{x, y, z}` to `x y z`, or nothing where it is the default origin `50% 50% 0px`.
pub struct TransformOriginTransformer;

pub open spec fn string_item() -> spec_fn(JsonView) -> Option<Seq<char>> {
    |v: JsonView| v.as_str()
}

pub open spec fn transform_functions_spec(v: JsonView) -> ResolvedView {
    match v.as_array() {
        None => ResolvedView::Nothing,
        Some(a) => {
            let parts = filter_map_seq(a, string_item());
            if parts.len() == 0 {
                ResolvedView::Nothing
            } else {
                ResolvedView::Single(join_with(parts, " "@))
            }
        },
    }
}

pub open spec fn transform_move_spec(v: JsonView) -> ResolvedView {
    ResolvedView::Single(
        "translate3d("@ + str_or(v.str_field("x"@), "0px"@) + ", "@ + str_or(
            v.str_field("y"@),
            "0px"@,
        ) + ", "@ + str_or(v.str_field("z"@), "0px"@) + ")"@,
    )
}

pub open spec fn transform_rotate_spec(v: JsonView) -> ResolvedView {
    ResolvedView::Single(
        "rotateX("@ + str_or(v.str_field("x"@), "0deg"@) + ") rotateY("@ + str_or(
            v.str_field("y"@),
            "0deg"@,
        ) + ") rotateZ("@ + str_or(v.str_field("z"@), "0deg"@) + ")"@,
    )
}

/// A scale factor: a number's CSS text, a resolved text as it is, `1` otherwise.
pub open spec fn scale_factor(m: Option<JsonView>) -> Seq<char> {
    match m {
        Some(JsonView::Number(n)) => css_number(n),
        Some(JsonView::Str(t)) => t,
        _ => "1"@,
    }
}

pub open spec fn transform_scale_spec(v: JsonView) -> ResolvedView {
    ResolvedView::Single(
        "scale3d("@ + scale_factor(v.get("x"@)) + ", "@ + scale_factor(v.get("y"@)) + ", "@
            + scale_factor(v.get("z"@)) + ")"@,
    )
}

pub open spec fn transform_skew_spec(v: JsonView) -> ResolvedView {
    ResolvedView::Single(
        "skew("@ + str_or(v.str_field("x"@), "0deg"@) + ", "@ + str_or(
            v.str_field("y"@),
            "0deg"@,
        ) + ")"@,
    )
}

pub open spec fn transform_origin_spec(v: JsonView) -> ResolvedView {
    let x = str_or(v.str_field("x"@), "0px"@);
    let y = str_or(v.str_field("y"@), "0px"@);
    let z = str_or(v.str_field("z"@), "0px"@);
    if x == "50%"@ && y == "50%"@ && z == "0px"@ {
        ResolvedView::Nothing
    } else {
        ResolvedView::Single(x + " "@ + y + " "@ + z)
    }
}

/// The string items of an array, joined by spaces, form the transform; items
/// that are not strings are left out.
pub proof fn law_transform_functions_joins_strings(f: Seq<char>, g: Seq<char>)
    ensures
        transform_functions_spec(JsonView::Array(seq![JsonView::Str(f), JsonView::Null, JsonView::Str(g)]))
            == ResolvedView::Single(f + " "@ + g),
        transform_functions_spec(JsonView::Array(seq![JsonView::Str(f)])) == ResolvedView::Single(f),
        transform_functions_spec(JsonView::Array(Seq::empty())) == ResolvedView::Nothing,
{
    let s1 = seq![JsonView::Str(f)];
    let s2 = seq![JsonView::Str(f), JsonView::Null];
    let s3 = seq![JsonView::Str(f), JsonView::Null, JsonView::Str(g)];
    assert(s1.drop_last() =~= Seq::<JsonView>::empty());
    assert(s2.drop_last() =~= s1);
    assert(s3.drop_last() =~= s2);
    assert(filter_map_seq(s1, string_item()) =~= seq![f]);
    assert(filter_map_seq(s2, string_item()) =~= seq![f]);
    assert(filter_map_seq(s3, string_item()) =~= seq![f, g]);
    assert(seq![f, g].drop_last() =~= seq![f]);
}

/// Move: each of `translate3d`'s three lengths is the member of its own axis.
pub proof fn law_move_axes(v: JsonView, x: Seq<char>, y: Seq<char>, z: Seq<char>)
    requires
        v.str_field("x"@) == Some(x),
        v.str_field("y"@) == Some(y),
        v.str_field("z"@) == Some(z),
    ensures
        transform_move_spec(v) == ResolvedView::Single("translate3d("@ + x + ", "@ + y + ", "@ + z + ")"@),
{
}

/// Move: an axis without a string member moves by `0px`.
pub proof fn law_move_defaults(v: JsonView)
    requires
        v.str_field("x"@) is None,
        v.str_field("y"@) is None,
        v.str_field("z"@) is None,
    ensures
        transform_move_spec(v) == ResolvedView::Single("translate3d(0px, 0px, 0px)"@),
{
    reveal_strlit("translate3d(0px, 0px, 0px)");
    reveal_strlit("translate3d(");
    reveal_strlit("0px");
    reveal_strlit(", ");
    reveal_strlit(")");
    assert("translate3d("@ + "0px"@ + ", "@ + "0px"@ + ", "@ + "0px"@ + ")"@ =~= "translate3d(0px, 0px, 0px)"@);
}

/// Rotate: each axis function takes the member of its own axis.
pub proof fn law_rotate_axes(v: JsonView, x: Seq<char>, y: Seq<char>, z: Seq<char>)
    requires
        v.str_field("x"@) == Some(x),
        v.str_field("y"@) == Some(y),
        v.str_field("z"@) == Some(z),
    ensures
        transform_rotate_spec(v) == ResolvedView::Single(
            "rotateX("@ + x + ") rotateY("@ + y + ") rotateZ("@ + z + ")"@,
        ),
{
}

/// Rotate: an axis without a string member turns by `0deg`.
pub proof fn law_rotate_defaults(v: JsonView)
    requires
        v.str_field("x"@) is None,
        v.str_field("y"@) is None,
        v.str_field("z"@) is None,
    ensures
        transform_rotate_spec(v) == ResolvedView::Single("rotateX(0deg) rotateY(0deg) rotateZ(0deg)"@),
{
    reveal_strlit("rotateX(0deg) rotateY(0deg) rotateZ(0deg)");
    reveal_strlit("rotateX(");
    reveal_strlit(") rotateY(");
    reveal_strlit(") rotateZ(");
    reveal_strlit("0deg");
    reveal_strlit(")");
    assert("rotateX("@ + "0deg"@ + ") rotateY("@ + "0deg"@ + ") rotateZ("@ + "0deg"@ + ")"@
        =~= "rotateX(0deg) rotateY(0deg) rotateZ(0deg)"@);
}

/// Scale: each factor is the text of its own axis, whether it came as text or
/// as a number (a whole number as an integer).
pub proof fn law_scale_axes(v: JsonView, x: Seq<char>, y: Seq<char>, n: NumberView)
    requires
        v.get("x"@) == Some(JsonView::Str(x)),
        v.get("y"@) == Some(JsonView::Str(y)),
        v.get("z"@) == Some(JsonView::Number(n)),
        n.whole,
    ensures
        transform_scale_spec(v) == ResolvedView::Single(
            "scale3d("@ + x + ", "@ + y + ", "@ + decimal_int(n.truncated) + ")"@,
        ),
{
}

/// Scale: an axis with neither a number nor a text scales by `1`.
pub proof fn law_scale_defaults(v: JsonView)
    requires
        v.get("x"@) is None,
        v.get("y"@) is None,
        v.get("z"@) is None,
    ensures
        transform_scale_spec(v) == ResolvedView::Single("scale3d(1, 1, 1)"@),
{
    reveal_strlit("scale3d(1, 1, 1)");
    reveal_strlit("scale3d(");
    reveal_strlit("1");
    reveal_strlit(", ");
    reveal_strlit(")");
    assert("scale3d("@ + "1"@ + ", "@ + "1"@ + ", "@ + "1"@ + ")"@ =~= "scale3d(1, 1, 1)"@);
}

/// Skew: the two angles are the `x` and `y` members, in that order.
pub proof fn law_skew_axes(v: JsonView, x: Seq<char>, y: Seq<char>)
    requires
        v.str_field("x"@) == Some(x),
        v.str_field("y"@) == Some(y),
    ensures
        transform_skew_spec(v) == ResolvedView::Single("skew("@ + x + ", "@ + y + ")"@),
{
}

/// Origin: the three members in axis order, except the default origin
/// `50% 50% 0px`, which gives nothing.
pub proof fn law_origin_axes(v: JsonView, x: Seq<char>, y: Seq<char>, z: Seq<char>)
    requires
        v.str_field("x"@) == Some(x),
        v.str_field("y"@) == Some(y),
        v.str_field("z"@) == Some(z),
    ensures
        transform_origin_spec(v) == if x == "50%"@ && y == "50%"@ && z == "0px"@ {
            ResolvedView::Nothing
        } else {
            ResolvedView::Single(x + " "@ + y + " "@ + z)
        },
{
}

impl Transformer for TransformFunctionsTransformer {
    open spec fn transform_spec(&self, value: JsonView, ctx: ContextView) -> ResolvedView {
        transform_functions_spec(value)
    }

    fn transform(&self, value: &Json, ctx: &TransformerContext) -> (r: Resolved) {
        let arr = match value.as_array() {
            Some(a) => a,
            None => return Resolved::Nothing,
        };
        let ghost items = items_view(arr@);
        proof {
            lemma_items_view(arr@);
        }
        let mut parts: Vec<String> = Vec::new();
        let mut i: usize = 0;
        while i < arr.len()
            invariant
                items == items_view(arr@),
                items.len() == arr.len(),
                forall|k: int| 0 <= k < arr.len() ==> #[trigger] items[k] == arr@[k]@,
                i <= arr.len(),
                strings_view(parts@) == filter_map_seq(items.subrange(0, i as int), string_item()),
            decreases arr.len() - i,
        {
            proof {
                lemma_filter_map_step(items, string_item(), i as int);
            }
            let ghost before = strings_view(parts@);
            match arr[i].as_str() {
                Some(s) => {
                    parts.push(s.to_owned());
                    assert(strings_view(parts@) =~= before.push(s@));
                },
                None => {},
            }
            i = i + 1;
        }
        assert(items.subrange(0, arr.len() as int) =~= items);
        if parts.len() == 0 {
            Resolved::Nothing
        } else {
            Resolved::Single(join_all(&parts, " "))
        }
    }
}

impl Transformer for TransformMoveTransformer {
    open spec fn transform_spec(&self, value: JsonView, ctx: ContextView) -> ResolvedView {
        transform_move_spec(value)
    }

    fn transform(&self, value: &Json, ctx: &TransformerContext) -> (r: Resolved) {
        let mut s = join2("translate3d(", str_field_or(value, "x", "0px"));
        s.append(", ");
        s.append(str_field_or(value, "y", "0px"));
        s.append(", ");
        s.append(str_field_or(value, "z", "0px"));
        s.append(")");
        Resolved::Single(s)
    }
}

impl Transformer for TransformRotateTransformer {
    open spec fn transform_spec(&self, value: JsonView, ctx: ContextView) -> ResolvedView {
        transform_rotate_spec(value)
    }

    fn transform(&self, value: &Json, ctx: &TransformerContext) -> (r: Resolved) {
        let mut s = join2("rotateX(", str_field_or(value, "x", "0deg"));
        s.append(") rotateY(");
        s.append(str_field_or(value, "y", "0deg"));
        s.append(") rotateZ(");
        s.append(str_field_or(value, "z", "0deg"));
        s.append(")");
        Resolved::Single(s)
    }
}

fn scale_factor_text(value: &Json, key: &str) -> (s: String)
    ensures
        s@ == scale_factor(value@.get(key@)),
{
    match value.get(key) {
        Some(Json::Number(n)) => n.css_text(),
        Some(Json::Str(t)) => t.clone(),
        _ => "1".to_owned(),
    }
}

impl Transformer for TransformScaleTransformer {
    open spec fn transform_spec(&self, value: JsonView, ctx: ContextView) -> ResolvedView {
        transform_scale_spec(value)
    }

    fn transform(&self, value: &Json, ctx: &TransformerContext) -> (r: Resolved) {
        let x = scale_factor_text(value, "x");
        let y = scale_factor_text(value, "y");
        let z = scale_factor_text(value, "z");
        let mut s = join2("scale3d(", x.as_str());
        s.append(", ");
        s.append(y.as_str());
        s.append(", ");
        s.append(z.as_str());
        s.append(")");
        Resolved::Single(s)
    }
}

impl Transformer for TransformSkewTransformer {
    open spec fn transform_spec(&self, value: JsonView, ctx: ContextView) -> ResolvedView {
        transform_skew_spec(value)
    }

    fn transform(&self, value: &Json, ctx: &TransformerContext) -> (r: Resolved) {
        let mut s = join2("skew(", str_field_or(value, "x", "0deg"));
        s.append(", ");
        s.append(str_field_or(value, "y", "0deg"));
        s.append(")");
        Resolved::Single(s)
    }
}

impl Transformer for TransformOriginTransformer {
    open spec fn transform_spec(&self, value: JsonView, ctx: ContextView) -> ResolvedView {
        transform_origin_spec(value)
    }

    fn transform(&self, value: &Json, ctx: &TransformerContext) -> (r: Resolved) {
        let x = str_field_or(value, "x", "0px");
        let y = str_field_or(value, "y", "0px");
        let z = str_field_or(value, "z", "0px");
        if str_eq(x, "50%") && str_eq(y, "50%") && str_eq(z, "0px") {
            return Resolved::Nothing;
        }
        let mut s = join2(x, " ");
        s.append(y);
        s.append(" ");
        s.append(z);
        Resolved::Single(s)
    }
}

} // verus!
