//! Span, font family, position, color stop, stroke, transition and passthrough transformers.
use vstd::prelude::*;

use crate::json::{items_view, lemma_items_view, Json, JsonView, NumberView};
use crate::text::{
    is_ws, join3, join_all, join_with, law_trim_idempotent, law_trim_keeps_unpadded,
    law_trim_removes_padding, str_eq, strings_view, trim, trim_end, trim_start, trim_str,
};
use crate::transformer::{
    filter_map_seq, lemma_filter_map_step, nonempty_spec, str_field_or, str_or, Transformer,
};
use crate::types::{decls_view, ContextView, Resolved, ResolvedView, TransformerContext};

verus! {

/// Trims the span string value.
pub struct SpanTransformer;

/// Quotes a font family that is not quoted yet.
pub struct FontFamilyTransformer;

/// `{x, y}` to `x y` (for `background-position` and `object-position`).
pub struct PositionTransformer;

/// `{x, y}` to `x y` (for `perspective-origin`).
pub struct PerspectiveOriginTransformer;

/// `{color, offset}` to `#fff 25%` (a gradient color stop).
pub struct ColorStopTransformer;

/// Stroke to three declarations.
pub struct StrokeTransformer;

/// Array of `{selection: {value: "all"}, size: "0.3s"}` objects to `all 0.3s, ...`.
pub struct TransitionTransformer;

/// Plain values: a string or number value is itself the CSS value.
pub struct PassthroughTransformer;

/// The transition properties that may be animated.
pub open spec fn is_allowed_transition_property(p: Seq<char>) -> bool {
    p == "all"@
}

pub open spec fn span_spec(v: JsonView) -> ResolvedView {
    match v.as_str() {
        Some(s) => {
            let t = trim(s);
            if t.len() == 0 {
                ResolvedView::Nothing
            } else {
                ResolvedView::Single(t)
            }
        },
        None => ResolvedView::Nothing,
    }
}

/// Whether `s` starts and ends with the same quote character.
pub open spec fn is_quoted(s: Seq<char>) -> bool {
    s.len() > 0 && ((s[0] == '"' && s.last() == '"') || (s[0] == '\'' && s.last() == '\''))
}

pub open spec fn font_family_spec(v: JsonView) -> ResolvedView {
    match v.as_str() {
        Some(raw) => {
            let s = trim(raw);
            if s.len() == 0 {
                ResolvedView::Nothing
            } else if is_quoted(s) {
                ResolvedView::Single(s)
            } else {
                ResolvedView::Single(seq!['"'] + s + seq!['"'])
            }
        },
        None => ResolvedView::Nothing,
    }
}

pub open spec fn position_spec(v: JsonView) -> ResolvedView {
    ResolvedView::Single(
        str_or(v.str_field("x"@), "0px"@) + " "@ + str_or(v.str_field("y"@), "0px"@),
    )
}

/// The offset is read from a number or from a text: the resolver resolves the
/// members of a value before its transformer sees it, so a member tagged
/// `number` arrives as the text of that number, and it stands for the same
/// offset.
pub open spec fn color_stop_spec(v: JsonView) -> ResolvedView {
    match v.str_field("color"@) {
        None => ResolvedView::Nothing,
        Some(color) => {
            let offset = match v.get("offset"@) {
                Some(JsonView::Number(n)) => n.display,
                Some(JsonView::Str(t)) => t,
                _ => "0"@,
            };
            ResolvedView::Single(color + " "@ + offset + "%"@)
        },
    }
}

pub open spec fn stroke_spec(v: JsonView) -> ResolvedView {
    let width = str_or(v.str_field("width"@), Seq::empty());
    let color = str_or(v.str_field("color"@), Seq::empty());
    if width.len() == 0 && color.len() == 0 {
        ResolvedView::Nothing
    } else {
        ResolvedView::Multi(
            seq![
                ("-webkit-text-stroke"@, width + " "@ + color),
                ("stroke"@, color),
                ("stroke-width"@, width),
            ],
        )
    }
}

/// The CSS text of one transition object.
pub open spec fn transition_to_str_spec(t: JsonView) -> Option<Seq<char>> {
    match t.get("selection"@) {
        None => None,
        Some(selection) => match nonempty_spec(t.str_field("size"@)) {
            None => None,
            Some(size) => match nonempty_spec(selection.str_field("value"@)) {
                None => None,
                Some(property) => if is_allowed_transition_property(property) {
                    Some(trim(property + " "@ + size))
                } else {
                    None
                },
            },
        },
    }
}

pub open spec fn transition_part() -> spec_fn(JsonView) -> Option<Seq<char>> {
    |t: JsonView| transition_to_str_spec(t)
}

/// The valid transitions of an array, joined by `, `; empty text otherwise.
pub open spec fn transition_spec(v: JsonView) -> ResolvedView {
    match v.as_array() {
        None => ResolvedView::Single(Seq::empty()),
        Some(a) => ResolvedView::Single(join_with(filter_map_seq(a, transition_part()), ", "@)),
    }
}

pub open spec fn passthrough_spec(v: JsonView) -> ResolvedView {
    match v {
        JsonView::Str(s) => ResolvedView::Single(s),
        JsonView::Number(n) => ResolvedView::Single(n.text),
        _ => ResolvedView::Nothing,
    }
}

/// A rendered span is non-empty and has no white space at either end.
pub proof fn law_span_trimmed(v: JsonView)
    ensures
        span_spec(v) matches ResolvedView::Single(s) ==> s.len() > 0 && trim(s) == s,
{
    if let Some(raw) = v.as_str() {
        law_trim_idempotent(raw);
    }
}

/// A rendered font family is always quoted.
pub proof fn law_font_family_quoted(v: JsonView)
    ensures
        font_family_spec(v) matches ResolvedView::Single(s) ==> is_quoted(s),
{
    if let Some(raw) = v.as_str() {
        let t = trim(raw);
        if t.len() > 0 && !is_quoted(t) {
            let q = seq!['"'] + t + seq!['"'];
            assert(q[0] == '"');
            assert(q.last() == '"');
        }
    }
}

/// Span: the text without the white space around it; white space alone, or a
/// value that is no text, gives nothing.
pub proof fn law_span_strips(s: Seq<char>, other: JsonView)
    requires
        s.len() > 0,
        !is_ws(s[0]),
        !is_ws(s.last()),
        other.as_str() is None,
    ensures
        span_spec(JsonView::Str(seq![' '] + s + seq![' '])) == ResolvedView::Single(s),
        span_spec(JsonView::Str(s)) == ResolvedView::Single(s),
        span_spec(JsonView::Str(seq![' '])) == ResolvedView::Nothing,
        span_spec(other) == ResolvedView::Nothing,
{
    law_trim_removes_padding(s);
    law_trim_keeps_unpadded(s);
    assert(is_ws(' '));
    assert(seq![' '].drop_first() =~= Seq::<char>::empty());
    assert(trim_start(seq![' ']) == trim_start(Seq::<char>::empty()));
    assert(trim_end(Seq::<char>::empty()) == Seq::<char>::empty());
}

/// Font family: an unquoted family is put in double quotes, a quoted one is
/// kept, both without the white space around them.
pub proof fn law_font_family_quotes(s: Seq<char>)
    requires
        s.len() > 0,
        !is_ws(s[0]),
        !is_ws(s.last()),
    ensures
        font_family_spec(JsonView::Str(seq![' '] + s + seq![' '])) == if is_quoted(s) {
            ResolvedView::Single(s)
        } else {
            ResolvedView::Single(seq!['"'] + s + seq!['"'])
        },
        font_family_spec(JsonView::Str(seq!['"'] + s + seq!['"'])) == ResolvedView::Single(
            seq!['"'] + s + seq!['"'],
        ),
{
    law_trim_removes_padding(s);
    let q = seq!['"'] + s + seq!['"'];
    assert(q[0] == '"');
    assert(q.last() == '"');
    assert(!is_ws('"'));
    law_trim_keeps_unpadded(q);
}

/// Position: `x y` from the `x` and `y` members, `0px` for a missing one.
pub proof fn law_position_axes(v: JsonView, x: Seq<char>, y: Seq<char>)
    requires
        v.str_field("x"@) == Some(x),
        v.str_field("y"@) == Some(y),
    ensures
        position_spec(v) == ResolvedView::Single(x + " "@ + y),
        position_spec(JsonView::Null) == ResolvedView::Single("0px 0px"@),
{
    reveal_strlit("0px 0px");
    reveal_strlit("0px");
    reveal_strlit(" ");
    assert("0px"@ + " "@ + "0px"@ =~= "0px 0px"@);
}

/// Color stop: `color offset%`, the offset taken from a number's text or a
/// resolved text, `0` where it has neither; no color gives nothing.
pub proof fn law_color_stop(v: JsonView, c: Seq<char>, t: Seq<char>, n: NumberView)
    ensures
        v.str_field("color"@) is None ==> color_stop_spec(v) == ResolvedView::Nothing,
        v.str_field("color"@) == Some(c) && v.get("offset"@) == Some(JsonView::Str(t))
            ==> color_stop_spec(v) == ResolvedView::Single(c + " "@ + t + "%"@),
        v.str_field("color"@) == Some(c) && v.get("offset"@) == Some(JsonView::Number(n))
            ==> color_stop_spec(v) == ResolvedView::Single(c + " "@ + n.display + "%"@),
        v.str_field("color"@) == Some(c) && v.get("offset"@) is None ==> color_stop_spec(v)
            == ResolvedView::Single(c + " 0%"@),
{
    reveal_strlit(" 0%");
    reveal_strlit(" ");
    reveal_strlit("0");
    reveal_strlit("%");
    assert(c + " "@ + "0"@ + "%"@ =~= c + " 0%"@);
}

/// Stroke: `-webkit-text-stroke` is `width color`, `stroke` the color and
/// `stroke-width` the width; with neither there are no declarations.
pub proof fn law_stroke(v: JsonView, w: Seq<char>, c: Seq<char>)
    requires
        v.str_field("width"@) == Some(w),
        v.str_field("color"@) == Some(c),
    ensures
        stroke_spec(v) == if w.len() == 0 && c.len() == 0 {
            ResolvedView::Nothing
        } else {
            ResolvedView::Multi(
                seq![("-webkit-text-stroke"@, w + " "@ + c), ("stroke"@, c), ("stroke-width"@, w)],
            )
        },
        stroke_spec(JsonView::Null) == ResolvedView::Nothing,
{
}

/// Transition: `all size` for a selection of `all` with a size; any other
/// property, or a missing size, gives no transition.
pub proof fn law_transition_item(t: JsonView, selection: JsonView, p: Seq<char>, size: Seq<char>)
    requires
        t.get("selection"@) == Some(selection),
        selection.str_field("value"@) == Some(p),
        t.str_field("size"@) == Some(size),
        size.len() > 0,
        !is_ws(size.last()),
    ensures
        p == "all"@ ==> transition_to_str_spec(t) == Some("all "@ + size),
        p != "all"@ ==> transition_to_str_spec(t) is None,
{
    if p == "all"@ {
        reveal_strlit("all ");
        reveal_strlit("all");
        reveal_strlit(" ");
        assert("all"@ + " "@ + size =~= "all "@ + size);
        let q = "all "@ + size;
        assert(q[0] == 'a');
        assert(q.last() == size.last());
        law_trim_keeps_unpadded(q);
    }
}

/// Transition: the valid items joined by `, `, invalid ones left out; a value
/// that is no array gives the empty text.
pub proof fn law_transition_joins(f: JsonView, g: JsonView, bad: JsonView, a: Seq<char>, b: Seq<char>)
    requires
        transition_to_str_spec(f) == Some(a),
        transition_to_str_spec(g) == Some(b),
        transition_to_str_spec(bad) is None,
    ensures
        transition_spec(JsonView::Array(seq![f, bad, g])) == ResolvedView::Single(a + ", "@ + b),
        transition_spec(JsonView::Null) == ResolvedView::Single(Seq::empty()),
{
    let s1 = seq![f];
    let s2 = seq![f, bad];
    let s3 = seq![f, bad, g];
    assert((transition_part())(f) == Some(a));
    assert((transition_part())(g) == Some(b));
    assert((transition_part())(bad) is None);
    assert(s1.drop_last() =~= Seq::<JsonView>::empty());
    assert(s2.drop_last() =~= s1);
    assert(s3.drop_last() =~= s2);
    assert(filter_map_seq(Seq::<JsonView>::empty(), transition_part()) =~= Seq::<Seq<char>>::empty());
    assert(filter_map_seq(s1, transition_part()) =~= seq![a]);
    assert(filter_map_seq(s2, transition_part()) =~= seq![a]);
    assert(filter_map_seq(s3, transition_part()) =~= seq![a, b]);
    assert(seq![a, b].drop_last() =~= seq![a]);
    assert(join_with(seq![a, b], ", "@) == join_with(seq![a], ", "@) + ", "@ + b);
}

/// Passthrough: a text is its own CSS value, a number its JSON text; any
/// other value gives nothing.
pub proof fn law_passthrough(s: Seq<char>, n: NumberView)
    ensures
        passthrough_spec(JsonView::Str(s)) == ResolvedView::Single(s),
        passthrough_spec(JsonView::Number(n)) == ResolvedView::Single(n.text),
        passthrough_spec(JsonView::Null) == ResolvedView::Nothing,
        passthrough_spec(JsonView::Bool(true)) == ResolvedView::Nothing,
{
}

impl Transformer for SpanTransformer {
    open spec fn transform_spec(&self, value: JsonView, ctx: ContextView) -> ResolvedView {
        span_spec(value)
    }

    fn transform(&self, value: &Json, ctx: &TransformerContext) -> (r: Resolved) {
        match value.as_str() {
            Some(s) => {
                let t = trim_str(s);
                if t.as_str().is_empty() {
                    Resolved::Nothing
                } else {
                    Resolved::Single(t)
                }
            },
            None => Resolved::Nothing,
        }
    }
}

impl Transformer for FontFamilyTransformer {
    open spec fn transform_spec(&self, value: JsonView, ctx: ContextView) -> ResolvedView {
        font_family_spec(value)
    }

    fn transform(&self, value: &Json, ctx: &TransformerContext) -> (r: Resolved) {
        let s = match value.as_str() {
            Some(raw) => trim_str(raw),
            None => return Resolved::Nothing,
        };
        let n = s.as_str().unicode_len();
        if n == 0 {
            return Resolved::Nothing;
        }
        let first = s.as_str().get_char(0);
        let last = s.as_str().get_char(n - 1);
        let is_quoted = (first == '"' && last == '"') || (first == '\'' && last == '\'');
        if is_quoted {
            Resolved::Single(s)
        } else {
            proof {
                reveal_strlit("\"");
                assert("\""@ =~= seq!['"']);
            }
            Resolved::Single(join3("\"", s.as_str(), "\""))
        }
    }
}

impl Transformer for PositionTransformer {
    open spec fn transform_spec(&self, value: JsonView, ctx: ContextView) -> ResolvedView {
        position_spec(value)
    }

    fn transform(&self, value: &Json, ctx: &TransformerContext) -> (r: Resolved) {
        let x = str_field_or(value, "x", "0px");
        let y = str_field_or(value, "y", "0px");
        Resolved::Single(join3(x, " ", y))
    }
}

impl Transformer for PerspectiveOriginTransformer {
    open spec fn transform_spec(&self, value: JsonView, ctx: ContextView) -> ResolvedView {
        position_spec(value)
    }

    fn transform(&self, value: &Json, ctx: &TransformerContext) -> (r: Resolved) {
        let x = str_field_or(value, "x", "0px");
        let y = str_field_or(value, "y", "0px");
        Resolved::Single(join3(x, " ", y))
    }
}

impl Transformer for ColorStopTransformer {
    open spec fn transform_spec(&self, value: JsonView, ctx: ContextView) -> ResolvedView {
        color_stop_spec(value)
    }

    fn transform(&self, value: &Json, ctx: &TransformerContext) -> (r: Resolved) {
        let color = match value.str_field("color") {
            Some(c) => c,
            None => return Resolved::Nothing,
        };
        let offset: &str = match value.get("offset") {
            Some(Json::Number(n)) => n.display.as_str(),
            Some(Json::Str(t)) => t.as_str(),
            _ => "0",
        };
        let mut s = join3(color, " ", offset);
        s.append("%");
        Resolved::Single(s)
    }
}

impl Transformer for StrokeTransformer {
    open spec fn transform_spec(&self, value: JsonView, ctx: ContextView) -> ResolvedView {
        stroke_spec(value)
    }

    fn transform(&self, value: &Json, ctx: &TransformerContext) -> (r: Resolved) {
        let width: &str = match value.str_field("width") {
            Some(w) => w,
            None => "",
        };
        let color: &str = match value.str_field("color") {
            Some(c) => c,
            None => "",
        };
        proof {
            reveal_strlit("");
            assert(""@ =~= Seq::<char>::empty());
        }
        if width.is_empty() && color.is_empty() {
            return Resolved::Nothing;
        }
        let mut props: Vec<(String, String)> = Vec::new();
        props.push(("-webkit-text-stroke".to_owned(), join3(width, " ", color)));
        props.push(("stroke".to_owned(), color.to_owned()));
        props.push(("stroke-width".to_owned(), width.to_owned()));
        let r = Resolved::Multi(props);
        assert(r@ == stroke_spec(value@)) by {
            assert(decls_view(props@) =~= seq![
                ("-webkit-text-stroke"@, width@ + " "@ + color@),
                ("stroke"@, color@),
                ("stroke-width"@, width@),
            ]);
        }
        r
    }
}

fn transition_to_str(t: &Json) -> (r: Option<String>)
    ensures
        match r {
            Some(s) => transition_to_str_spec(t@) == Some(s@),
            None => transition_to_str_spec(t@) is None,
        },
{
    let selection = match t.get("selection") {
        Some(s) => s,
        None => return None,
    };
    let size = match t.str_field("size") {
        Some(s) => if s.is_empty() {
            return None;
        } else {
            s
        },
        None => return None,
    };
    let property = match selection.str_field("value") {
        Some(p) => if p.is_empty() {
            return None;
        } else {
            p
        },
        None => return None,
    };
    if !str_eq(property, "all") {
        return None;
    }
    let joined = join3(property, " ", size);
    Some(trim_str(joined.as_str()))
}

impl Transformer for TransitionTransformer {
    open spec fn transform_spec(&self, value: JsonView, ctx: ContextView) -> ResolvedView {
        transition_spec(value)
    }

    fn transform(&self, value: &Json, ctx: &TransformerContext) -> (r: Resolved) {
        let arr = match value.as_array() {
            Some(a) => a,
            None => return Resolved::Single(String::new()),
        };
        let ghost items = items_view(arr@);
        proof {
            lemma_items_view(arr@);
        }
        let mut parts: Vec<String> = Vec::new();
        let mut i: usize = 0;
        while i < arr.len()
            invariant
                items == items_view(arr@),
                items.len() == arr.len(),
                forall|k: int| 0 <= k < arr.len() ==> #[trigger] items[k] == arr@[k]@,
                i <= arr.len(),
                strings_view(parts@) == filter_map_seq(
                    items.subrange(0, i as int),
                    transition_part(),
                ),
            decreases arr.len() - i,
        {
            proof {
                lemma_filter_map_step(items, transition_part(), i as int);
            }
            let ghost before = strings_view(parts@);
            match transition_to_str(&arr[i]) {
                Some(s) => {
                    parts.push(s);
                    assert(strings_view(parts@) =~= before.push(parts@[parts.len() - 1]@));
                },
                None => {},
            }
            i = i + 1;
        }
        assert(items.subrange(0, arr.len() as int) =~= items);
        if parts.len() == 0 {
            Resolved::Single(String::new())
        } else {
            Resolved::Single(join_all(&parts, ", "))
        }
    }
}

impl Transformer for PassthroughTransformer {
    open spec fn transform_spec(&self, value: JsonView, ctx: ContextView) -> ResolvedView {
        passthrough_spec(value)
    }

    fn transform(&self, value: &Json, ctx: &TransformerContext) -> (r: Resolved) {
        match value {
            Json::Str(s) => Resolved::Single(s.clone()),
            Json::Number(n) => Resolved::Single(n.text.clone()),
            _ => Resolved::Nothing,
        }
    }
}

} // verus!
