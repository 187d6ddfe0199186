//! Size and grid-track-size transformers.
use vstd::prelude::*;

use crate::json::{css_number, Json, JsonView, NumberView};
use crate::text::{decimal_int, digit_char, i64_to_decimal, join2, join3, str_eq};
use crate::transformer::{str_or, Transformer};
use crate::types::{ContextView, Resolved, ResolvedView, TransformerContext};

verus! {

/// `{"size": N, "unit": "px"}` to `16px`, `auto`, or the raw custom string.
pub struct SizeTransformer;

/// Grid track variant of the size: `fr` units give `repeat(N, 1fr)`.
pub struct GridTrackSizeTransformer;

/// The CSS text of a size value.
pub open spec fn size_spec(v: JsonView) -> ResolvedView {
    let unit = str_or(v.str_field("unit"@), "px"@);
    if unit == "custom"@ {
        match v.str_field("size"@) {
            Some(s) => ResolvedView::Single(s),
            None => ResolvedView::Nothing,
        }
    } else if unit == "auto"@ {
        ResolvedView::Single("auto"@)
    } else {
        match v.number_field("size"@) {
            Some(n) => ResolvedView::Single(css_number(n) + unit),
            None => ResolvedView::Nothing,
        }
    }
}

/// The CSS text of a grid track size value.
pub open spec fn grid_track_size_spec(v: JsonView) -> ResolvedView {
    let unit = str_or(v.str_field("unit"@), "px"@);
    if unit == "custom"@ {
        match v.str_field("size"@) {
            Some(s) => ResolvedView::Single(s),
            None => ResolvedView::Nothing,
        }
    } else if unit == "fr"@ {
        let count = match v.number_field("size"@) {
            Some(n) => n.truncated,
            None => 1,
        };
        if count < 1 {
            ResolvedView::Nothing
        } else {
            ResolvedView::Single("repeat("@ + decimal_int(count) + ", 1fr)"@)
        }
    } else {
        size_spec(v)
    }
}

/// Size: the number then the unit, a whole number as an integer; `px` where
/// the unit is missing; `auto` as it is; a `custom` unit gives the size text
/// itself; no number gives nothing.
pub proof fn law_size(v: JsonView, n: NumberView, u: Seq<char>, t: Seq<char>)
    ensures
        v.str_field("unit"@) == Some(u) && u != "custom"@ && u != "auto"@ && v.number_field("size"@)
            == Some(n) ==> size_spec(v) == ResolvedView::Single(
            if n.whole {
                decimal_int(n.truncated)
            } else {
                n.display
            } + u,
        ),
        v.str_field("unit"@) is None && v.number_field("size"@) == Some(n) && n.whole ==> size_spec(v)
            == ResolvedView::Single(decimal_int(n.truncated) + "px"@),
        v.str_field("unit"@) == Some("auto"@) ==> size_spec(v) == ResolvedView::Single("auto"@),
        v.str_field("unit"@) == Some("custom"@) && v.str_field("size"@) == Some(t) ==> size_spec(v)
            == ResolvedView::Single(t),
        v.str_field("unit"@) == Some(u) && u != "custom"@ && u != "auto"@ && v.number_field("size"@)
            is None ==> size_spec(v) == ResolvedView::Nothing,
{
    reveal_strlit("px");
    reveal_strlit("custom");
    reveal_strlit("auto");
    assert("px"@.len() != "custom"@.len() && "px"@.len() != "auto"@.len());
}

/// Grid track size: `fr` repeats the track as many times as the whole part of
/// the size (once without a size), nothing below one; other units as a size.
pub proof fn law_grid_track_size(v: JsonView, n: NumberView, u: Seq<char>)
    ensures
        v.str_field("unit"@) == Some("fr"@) && v.number_field("size"@) == Some(n) ==> grid_track_size_spec(v)
            == if n.truncated < 1 {
            ResolvedView::Nothing
        } else {
            ResolvedView::Single("repeat("@ + decimal_int(n.truncated) + ", 1fr)"@)
        },
        v.str_field("unit"@) == Some("fr"@) && v.number_field("size"@) is None ==> grid_track_size_spec(v)
            == ResolvedView::Single("repeat(1, 1fr)"@),
        v.str_field("unit"@) == Some(u) && u != "fr"@ && u != "custom"@ ==> grid_track_size_spec(v)
            == size_spec(v),
{
    reveal_strlit("fr");
    reveal_strlit("custom");
    reveal_strlit("repeat(1, 1fr)");
    reveal_strlit("repeat(");
    reveal_strlit(", 1fr)");
    assert("fr"@.len() != "custom"@.len());
    assert(decimal_int(1) =~= seq![digit_char(1)]);
    assert("repeat("@ + seq!['1'] + ", 1fr)"@ =~= "repeat(1, 1fr)"@);
}

impl Transformer for SizeTransformer {
    open spec fn transform_spec(&self, value: JsonView, ctx: ContextView) -> ResolvedView {
        size_spec(value)
    }

    fn transform(&self, value: &Json, ctx: &TransformerContext) -> (r: Resolved) {
        let unit = match value.str_field("unit") {
            Some(u) => u,
            None => "px",
        };
        if str_eq(unit, "custom") {
            return match value.str_field("size") {
                Some(s) => Resolved::Single(s.to_owned()),
                None => Resolved::Nothing,
            };
        }
        if str_eq(unit, "auto") {
            return Resolved::Single("auto".to_owned());
        }
        match value.number_field("size") {
            Some(n) => {
                let text = n.css_text();
                Resolved::Single(join2(text.as_str(), unit))
            },
            None => Resolved::Nothing,
        }
    }
}

impl Transformer for GridTrackSizeTransformer {
    open spec fn transform_spec(&self, value: JsonView, ctx: ContextView) -> ResolvedView {
        grid_track_size_spec(value)
    }

    fn transform(&self, value: &Json, ctx: &TransformerContext) -> (r: Resolved) {
        let unit = match value.str_field("unit") {
            Some(u) => u,
            None => "px",
        };
        if str_eq(unit, "custom") {
            return match value.str_field("size") {
                Some(s) => Resolved::Single(s.to_owned()),
                None => Resolved::Nothing,
            };
        }
        if str_eq(unit, "fr") {
            let count: i64 = match value.number_field("size") {
                Some(n) => n.truncated,
                None => 1,
            };
            if count < 1 {
                return Resolved::Nothing;
            }
            let digits = i64_to_decimal(count);
            return Resolved::Single(join3("repeat(", digits.as_str(), ", 1fr)"));
        }
        SizeTransformer.transform(value, ctx)
    }
}

} // verus!
