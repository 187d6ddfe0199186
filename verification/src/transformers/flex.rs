//! Flex shorthand transformer.
use vstd::prelude::*;

use crate::json::{css_number, Json, JsonView, NumberView};
use crate::text::{decimal_int, join2, join3};
use crate::transformer::{nonempty_spec, str_or, Transformer};
use crate::types::{ContextView, Resolved, ResolvedView, TransformerContext};

verus! {

/// `{flexGrow, flexShrink, flexBasis}` to the `flex` shorthand.
pub struct FlexTransformer;

/// The text of a flex basis: an object `{size, unit}`, a string, or a number.
pub open spec fn basis_spec(v: JsonView) -> Option<Seq<char>> {
    match v {
        JsonView::Object(_) => {
            let size = match v.number_field("size"@) {
                Some(n) => css_number(n),
                None => Seq::empty(),
            };
            Some(size + str_or(v.str_field("unit"@), Seq::empty()))
        },
        JsonView::Str(s) => Some(s),
        JsonView::Number(n) => Some(css_number(n)),
        _ => None,
    }
}

/// The `flex` shorthand of grow, shrink and basis, each where present and non-empty.
pub open spec fn flex_spec(v: JsonView) -> ResolvedView {
    let grow = nonempty_spec(v.str_field("flexGrow"@));
    let shrink = nonempty_spec(v.str_field("flexShrink"@));
    let basis = match v.get("flexBasis"@) {
        Some(b) => nonempty_spec(basis_spec(b)),
        None => None,
    };
    match (grow, shrink, basis) {
        (None, None, None) => ResolvedView::Nothing,
        (Some(g), Some(s), Some(b)) => ResolvedView::Single(g + " "@ + s + " "@ + b),
        (Some(g), Some(s), None) => ResolvedView::Single(g + " "@ + s),
        (Some(g), None, Some(b)) => ResolvedView::Single(g + " 1 "@ + b),
        (None, Some(s), Some(b)) => ResolvedView::Single("0 "@ + s + " "@ + b),
        (Some(g), None, None) => ResolvedView::Single(g),
        (None, Some(s), None) => ResolvedView::Single("0 "@ + s),
        (None, None, Some(b)) => ResolvedView::Single("0 1 "@ + b),
    }
}

fn nonempty(s: Option<&str>) -> (r: Option<&str>)
    ensures
        match r {
            Some(t) => nonempty_spec(match s {
                Some(x) => Some(x@),
                None => None,
            }) == Some(t@),
            None => nonempty_spec(match s {
                Some(x) => Some(x@),
                None => None,
            }) is None,
        },
{
    match s {
        Some(t) => if t.is_empty() {
            None
        } else {
            Some(t)
        },
        None => None,
    }
}

/// A string value's text; numbers and every other value give nothing.
fn to_str(v: &Json) -> (r: Option<&str>)
    ensures
        match r {
            Some(s) => v@.as_str() == Some(s@),
            None => v@.as_str() is None,
        },
{
    match v {
        Json::Str(s) => Some(s.as_str()),
        _ => None,
    }
}

/// The string member `key` of `value`.
fn string_member<'a>(value: &'a Json, key: &str) -> (r: Option<&'a str>)
    ensures
        match r {
            Some(s) => value@.str_field(key@) == Some(s@),
            None => value@.str_field(key@) is None,
        },
{
    match value.get(key) {
        Some(v) => to_str(v),
        None => None,
    }
}

fn basis_to_str(v: &Json) -> (r: Option<String>)
    ensures
        match r {
            Some(s) => basis_spec(v@) == Some(s@),
            None => basis_spec(v@) is None,
        },
{
    match v {
        Json::Object(_) => {
            let size = match v.number_field("size") {
                Some(n) => n.css_text(),
                None => String::new(),
            };
            let unit = match v.str_field("unit") {
                Some(u) => u,
                None => "",
            };
            proof {
                reveal_strlit("");
            assert(""@ =~= Seq::<char>::empty());
            }
            Some(join2(size.as_str(), unit))
        },
        Json::Str(s) => Some(s.clone()),
        Json::Number(n) => Some(n.css_text()),
        _ => None,
    }
}

/// Flex: grow, shrink and basis in that order; a missing shrink is `1` where
/// a basis follows, a missing grow is `0` where anything follows; nothing
/// where all three are missing.
pub proof fn law_flex_shorthand(v: JsonView, g: Seq<char>, s: Seq<char>, b: Seq<char>)
    requires
        g.len() > 0,
        s.len() > 0,
        b.len() > 0,
    ensures
        v.str_field("flexGrow"@) == Some(g) && v.str_field("flexShrink"@) == Some(s) && v.get(
            "flexBasis"@,
        ) == Some(JsonView::Str(b)) ==> flex_spec(v) == ResolvedView::Single(g + " "@ + s + " "@ + b),
        v.str_field("flexGrow"@) == Some(g) && v.str_field("flexShrink"@) == Some(s) && v.get(
            "flexBasis"@,
        ) is None ==> flex_spec(v) == ResolvedView::Single(g + " "@ + s),
        v.str_field("flexGrow"@) == Some(g) && v.str_field("flexShrink"@) is None && v.get(
            "flexBasis"@,
        ) == Some(JsonView::Str(b)) ==> flex_spec(v) == ResolvedView::Single(g + " 1 "@ + b),
        v.str_field("flexGrow"@) is None && v.str_field("flexShrink"@) == Some(s) && v.get(
            "flexBasis"@,
        ) == Some(JsonView::Str(b)) ==> flex_spec(v) == ResolvedView::Single("0 "@ + s + " "@ + b),
        v.str_field("flexGrow"@) == Some(g) && v.str_field("flexShrink"@) is None && v.get(
            "flexBasis"@,
        ) is None ==> flex_spec(v) == ResolvedView::Single(g),
        v.str_field("flexGrow"@) is None && v.str_field("flexShrink"@) == Some(s) && v.get(
            "flexBasis"@,
        ) is None ==> flex_spec(v) == ResolvedView::Single("0 "@ + s),
        v.str_field("flexGrow"@) is None && v.str_field("flexShrink"@) is None && v.get(
            "flexBasis"@,
        ) == Some(JsonView::Str(b)) ==> flex_spec(v) == ResolvedView::Single("0 1 "@ + b),
        v.str_field("flexGrow"@) is None && v.str_field("flexShrink"@) is None && v.get(
            "flexBasis"@,
        ) is None ==> flex_spec(v) == ResolvedView::Nothing,
{
}

/// Flex basis: an object is its size then its unit, a whole number as an
/// integer; a number is its text.
pub proof fn law_flex_basis(v: JsonView, n: NumberView, u: Seq<char>)
    requires
        v is Object,
        v.number_field("size"@) == Some(n),
        v.str_field("unit"@) == Some(u),
    ensures
        n.whole ==> basis_spec(v) == Some(decimal_int(n.truncated) + u),
        !n.whole ==> basis_spec(v) == Some(n.display + u),
        basis_spec(JsonView::Number(n)) == Some(if n.whole {
            decimal_int(n.truncated)
        } else {
            n.display
        }),
{
}

impl Transformer for FlexTransformer {
    open spec fn transform_spec(&self, value: JsonView, ctx: ContextView) -> ResolvedView {
        flex_spec(value)
    }

    fn transform(&self, value: &Json, ctx: &TransformerContext) -> (r: Resolved) {
        let grow = nonempty(string_member(value, "flexGrow"));
        let shrink = nonempty(string_member(value, "flexShrink"));
        let basis_text: Option<String> = match value.get("flexBasis") {
            Some(b) => basis_to_str(b),
            None => None,
        };
        let basis = match &basis_text {
            Some(b) => nonempty(Some(b.as_str())),
            None => None,
        };
        match (grow, shrink, basis) {
            (None, None, None) => Resolved::Nothing,
            (Some(g), Some(s), Some(b)) => {
                let mut out = join3(g, " ", s);
                out.append(" ");
                out.append(b);
                Resolved::Single(out)
            },
            (Some(g), Some(s), None) => Resolved::Single(join3(g, " ", s)),
            (Some(g), None, Some(b)) => Resolved::Single(join3(g, " 1 ", b)),
            (None, Some(s), Some(b)) => Resolved::Single(join3("0 ", s, " ").concat(b)),
            (Some(g), None, None) => Resolved::Single(g.to_owned()),
            (None, Some(s), None) => Resolved::Single(join2("0 ", s)),
            (None, None, Some(b)) => Resolved::Single(join2("0 1 ", b)),
        }
    }
}

} // verus!
