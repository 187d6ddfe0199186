//! Filter and backdrop-filter transformer.
use vstd::prelude::*;

use crate::json::{items_view, lemma_items_view, Json, JsonView};
use crate::text::{join2, join_all, join_with, str_eq, strings_view};
use crate::transformer::{
    filter_map_seq, lemma_filter_map_step, str_field_or, str_or, Transformer,
};
use crate::types::{ContextView, Resolved, ResolvedView, TransformerContext};

verus! {

/// Array of filter function objects to `blur(5px) brightness(1.2)`.
pub struct FilterTransformer;

/// The CSS text of one filter function object.
pub open spec fn filter_to_str_spec(f: JsonView) -> Option<Seq<char>> {
    match f.str_field("func"@) {
        None => None,
        Some(func) => match f.get("args"@) {
            None => None,
            Some(args) => if func == "drop-shadow"@ {
                Some(
                    "drop-shadow("@ + str_or(args.str_field("xAxis"@), "0px"@) + " "@ + str_or(
                        args.str_field("yAxis"@),
                        "0px"@,
                    ) + " "@ + str_or(args.str_field("blur"@), "10px"@) + " "@ + str_or(
                        args.str_field("color"@),
                        "transparent"@,
                    ) + ")"@,
                )
            } else {
                match args.str_field("size"@) {
                    Some(size) => Some(func + "("@ + size + ")"@),
                    None => None,
                }
            },
        },
    }
}

pub open spec fn filter_part() -> spec_fn(JsonView) -> Option<Seq<char>> {
    |f: JsonView| filter_to_str_spec(f)
}

/// The filter functions of an array, joined by spaces; nothing where none is valid.
pub open spec fn filter_spec(v: JsonView) -> ResolvedView {
    match v.as_array() {
        None => ResolvedView::Nothing,
        Some(a) => {
            let parts = filter_map_seq(a, filter_part());
            if parts.len() == 0 {
                ResolvedView::Nothing
            } else {
                ResolvedView::Single(join_with(parts, " "@))
            }
        },
    }
}

/// Drop shadow: `drop-shadow(x y blur color)` from the `xAxis`, `yAxis`, `blur`
/// and `color` members of its args, in that order.
pub proof fn law_drop_shadow(f: JsonView, args: JsonView, x: Seq<char>, y: Seq<char>, b: Seq<char>, c: Seq<char>)
    requires
        f.str_field("func"@) == Some("drop-shadow"@),
        f.get("args"@) == Some(args),
        args.str_field("xAxis"@) == Some(x),
        args.str_field("yAxis"@) == Some(y),
        args.str_field("blur"@) == Some(b),
        args.str_field("color"@) == Some(c),
    ensures
        filter_to_str_spec(f) == Some("drop-shadow("@ + x + " "@ + y + " "@ + b + " "@ + c + ")"@),
{
}

/// Drop shadow: missing members default to `0px 0px 10px transparent`.
pub proof fn law_drop_shadow_defaults(f: JsonView, args: JsonView)
    requires
        f.str_field("func"@) == Some("drop-shadow"@),
        f.get("args"@) == Some(args),
        args.str_field("xAxis"@) is None,
        args.str_field("yAxis"@) is None,
        args.str_field("blur"@) is None,
        args.str_field("color"@) is None,
    ensures
        filter_to_str_spec(f) == Some("drop-shadow(0px 0px 10px transparent)"@),
{
    reveal_strlit("drop-shadow(0px 0px 10px transparent)");
    reveal_strlit("drop-shadow(");
    reveal_strlit("0px");
    reveal_strlit("10px");
    reveal_strlit("transparent");
    reveal_strlit(" ");
    reveal_strlit(")");
    assert("drop-shadow("@ + "0px"@ + " "@ + "0px"@ + " "@ + "10px"@ + " "@ + "transparent"@ + ")"@
        =~= "drop-shadow(0px 0px 10px transparent)"@);
}

/// Any other function: `func(size)` from the `size` member of its args, and
/// nothing without one.
pub proof fn law_filter_function(f: JsonView, args: JsonView, func: Seq<char>, size: Seq<char>)
    requires
        f.str_field("func"@) == Some(func),
        func != "drop-shadow"@,
        f.get("args"@) == Some(args),
    ensures
        args.str_field("size"@) == Some(size) ==> filter_to_str_spec(f) == Some(func + "("@ + size + ")"@),
        args.str_field("size"@) is None ==> filter_to_str_spec(f) is None,
{
}

/// A filter object without `func` or without `args` is no filter function.
pub proof fn law_filter_needs_func_and_args(f: JsonView)
    requires
        f.str_field("func"@) is None || f.get("args"@) is None,
    ensures
        filter_to_str_spec(f) is None,
{
}

/// The filter is its valid functions joined by spaces, invalid ones left out;
/// nothing where none is valid.
pub proof fn law_filter_joins(f: JsonView, g: JsonView, bad: JsonView, a: Seq<char>, b: Seq<char>)
    requires
        filter_to_str_spec(f) == Some(a),
        filter_to_str_spec(g) == Some(b),
        filter_to_str_spec(bad) is None,
    ensures
        filter_spec(JsonView::Array(seq![f, bad, g])) == ResolvedView::Single(a + " "@ + b),
        filter_spec(JsonView::Array(seq![bad])) == ResolvedView::Nothing,
        filter_spec(JsonView::Str(a)) == ResolvedView::Nothing,
{
    let s1 = seq![f];
    let s2 = seq![f, bad];
    let s3 = seq![f, bad, g];
    assert((filter_part())(f) == Some(a));
    assert((filter_part())(g) == Some(b));
    assert((filter_part())(bad) is None);
    assert(s1.drop_last() =~= Seq::<JsonView>::empty());
    assert(s2.drop_last() =~= s1);
    assert(s3.drop_last() =~= s2);
    assert(seq![bad].drop_last() =~= Seq::<JsonView>::empty());
    assert(filter_map_seq(Seq::<JsonView>::empty(), filter_part()) =~= Seq::<Seq<char>>::empty());
    assert(filter_map_seq(seq![bad], filter_part()) =~= Seq::<Seq<char>>::empty());
    assert(filter_map_seq(s1, filter_part()) =~= seq![a]);
    assert(filter_map_seq(s2, filter_part()) =~= seq![a]);
    assert(filter_map_seq(s3, filter_part()) =~= seq![a, b]);
    assert(seq![a, b].drop_last() =~= seq![a]);
    assert(join_with(seq![a, b], " "@) == join_with(seq![a], " "@) + " "@ + b);
}

fn filter_to_str(filter: &Json) -> (r: Option<String>)
    ensures
        match r {
            Some(s) => filter_to_str_spec(filter@) == Some(s@),
            None => filter_to_str_spec(filter@) is None,
        },
{
    let func = match filter.str_field("func") {
        Some(f) => f,
        None => return None,
    };
    let args = match filter.get("args") {
        Some(a) => a,
        None => return None,
    };
    if str_eq(func, "drop-shadow") {
        let x = str_field_or(args, "xAxis", "0px");
        let y = str_field_or(args, "yAxis", "0px");
        let blur = str_field_or(args, "blur", "10px");
        let color = str_field_or(args, "color", "transparent");
        let mut s = join2("drop-shadow(", x);
        s.append(" ");
        s.append(y);
        s.append(" ");
        s.append(blur);
        s.append(" ");
        s.append(color);
        s.append(")");
        return Some(s);
    }
    match args.str_field("size") {
        Some(size) => {
            let mut s = join2(func, "(");
            s.append(size);
            s.append(")");
            Some(s)
        },
        None => None,
    }
}

impl Transformer for FilterTransformer {
    open spec fn transform_spec(&self, value: JsonView, ctx: ContextView) -> ResolvedView {
        filter_spec(value)
    }

    fn transform(&self, value: &Json, ctx: &TransformerContext) -> (r: Resolved) {
        let arr = match value.as_array() {
            Some(a) => a,
            None => return Resolved::Nothing,
        };
        let ghost items = items_view(arr@);
        proof {
            lemma_items_view(arr@);
        }
        let mut parts: Vec<String> = Vec::new();
        let mut i: usize = 0;
        while i < arr.len()
            invariant
                items == items_view(arr@),
                items.len() == arr.len(),
                forall|k: int| 0 <= k < arr.len() ==> #[trigger] items[k] == arr@[k]@,
                i <= arr.len(),
                strings_view(parts@) == filter_map_seq(items.subrange(0, i as int), filter_part()),
            decreases arr.len() - i,
        {
            proof {
                lemma_filter_map_step(items, filter_part(), i as int);
            }
            let ghost before = strings_view(parts@);
            match filter_to_str(&arr[i]) {
                Some(s) => {
                    parts.push(s);
                    assert(strings_view(parts@) =~= before.push(parts@[parts.len() - 1]@));
                },
                None => {},
            }
            i = i + 1;
        }
        assert(items.subrange(0, arr.len() as int) =~= items);
        if parts.len() == 0 {
            Resolved::Nothing
        } else {
            Resolved::Single(join_all(&parts, " "))
        }
    }
}

} // verus!
