//! Box shadow transformer.
use vstd::prelude::*;

use crate::json::{Json, JsonView};
use crate::text::{join_all, join_with, strings_view};
use crate::transformer::Transformer;
use crate::types::{ContextView, Resolved, ResolvedView, TransformerContext};

verus! {

/// `{hOffset, vOffset, blur, spread, color, position?}` to `2px 4px 8px 0px #000 inset`.
pub struct ShadowTransformer;

/// `parts` with `o` added where it holds a non-empty string.
pub open spec fn keep_nonempty(parts: Seq<Seq<char>>, o: Option<Seq<char>>) -> Seq<Seq<char>> {
    match o {
        Some(s) => if s.len() > 0 {
            parts.push(s)
        } else {
            parts
        },
        None => parts,
    }
}

/// The present, non-empty shadow fields, in order.
pub open spec fn shadow_parts(v: JsonView) -> Seq<Seq<char>> {
    keep_nonempty(
        keep_nonempty(
            keep_nonempty(
                keep_nonempty(
                    keep_nonempty(
                        keep_nonempty(Seq::empty(), v.str_field("hOffset"@)),
                        v.str_field("vOffset"@),
                    ),
                    v.str_field("blur"@),
                ),
                v.str_field("spread"@),
            ),
            v.str_field("color"@),
        ),
        v.str_field("position"@),
    )
}

/// The shadow fields joined by spaces; nothing where no field is present.
pub open spec fn shadow_spec(v: JsonView) -> ResolvedView {
    let parts = shadow_parts(v);
    if parts.len() == 0 {
        ResolvedView::Nothing
    } else {
        ResolvedView::Single(join_with(parts, " "@))
    }
}

/// Shadow: offsets, blur, spread, color and position, in that order and
/// separated by spaces; an empty or missing field is left out.
pub proof fn law_shadow_fields(
    v: JsonView,
    h: Seq<char>,
    y: Seq<char>,
    b: Seq<char>,
    s: Seq<char>,
    c: Seq<char>,
    p: Seq<char>,
)
    requires
        v.str_field("hOffset"@) == Some(h),
        v.str_field("vOffset"@) == Some(y),
        v.str_field("blur"@) == Some(b),
        v.str_field("spread"@) == Some(s),
        v.str_field("color"@) == Some(c),
        h.len() > 0,
        y.len() > 0,
        s.len() > 0,
        c.len() > 0,
        p.len() > 0,
    ensures
        b.len() > 0 && v.str_field("position"@) == Some(p) ==> shadow_spec(v)
            == ResolvedView::Single(h + " "@ + y + " "@ + b + " "@ + s + " "@ + c + " "@ + p),
        b.len() == 0 && v.str_field("position"@) is None ==> shadow_spec(v) == ResolvedView::Single(
            h + " "@ + y + " "@ + s + " "@ + c,
        ),
{
    let sp = " "@;
    let e = Seq::<Seq<char>>::empty();
    let p1 = keep_nonempty(e, v.str_field("hOffset"@));
    assert(p1 =~= seq![h]);
    let p2 = keep_nonempty(p1, v.str_field("vOffset"@));
    assert(p2 =~= seq![h, y]);
    let p3 = keep_nonempty(p2, v.str_field("blur"@));
    let p4 = keep_nonempty(p3, v.str_field("spread"@));
    let p5 = keep_nonempty(p4, v.str_field("color"@));
    let p6 = keep_nonempty(p5, v.str_field("position"@));
    assert(shadow_parts(v) == p6);
    if b.len() > 0 && v.str_field("position"@) == Some(p) {
        let parts = seq![h, y, b, s, c, p];
        assert(p3 =~= seq![h, y, b]);
        assert(p4 =~= seq![h, y, b, s]);
        assert(p5 =~= seq![h, y, b, s, c]);
        assert(p6 =~= parts);
        assert(parts.drop_last() =~= seq![h, y, b, s, c]);
        assert(seq![h, y, b, s, c].drop_last() =~= seq![h, y, b, s]);
        assert(seq![h, y, b, s].drop_last() =~= seq![h, y, b]);
        assert(seq![h, y, b].drop_last() =~= seq![h, y]);
        assert(seq![h, y].drop_last() =~= seq![h]);
        assert(join_with(seq![h], sp) == h);
        assert(seq![h, y].last() == y);
        assert(join_with(seq![h, y], sp) == h + sp + y);
        assert(seq![h, y, b].last() == b);
        assert(join_with(seq![h, y, b], sp) == h + sp + y + sp + b);
        assert(seq![h, y, b, s].last() == s);
        assert(join_with(seq![h, y, b, s], sp) == h + sp + y + sp + b + sp + s);
        assert(seq![h, y, b, s, c].last() == c);
        assert(join_with(seq![h, y, b, s, c], sp) == h + sp + y + sp + b + sp + s + sp + c);
        assert(parts.last() == p);
    }
    if b.len() == 0 && v.str_field("position"@) is None {
        let parts = seq![h, y, s, c];
        assert(p3 =~= seq![h, y]);
        assert(p4 =~= seq![h, y, s]);
        assert(p5 =~= parts);
        assert(p6 =~= parts);
        assert(parts.drop_last() =~= seq![h, y, s]);
        assert(seq![h, y, s].drop_last() =~= seq![h, y]);
        assert(seq![h, y].drop_last() =~= seq![h]);
        assert(join_with(seq![h], sp) == h);
        assert(seq![h, y].last() == y);
        assert(join_with(seq![h, y], sp) == h + sp + y);
        assert(seq![h, y, s].last() == s);
        assert(join_with(seq![h, y, s], sp) == h + sp + y + sp + s);
        assert(parts.last() == c);
    }
}

/// Shadow: without any non-empty field there is no shadow.
pub proof fn law_shadow_empty()
    ensures
        shadow_spec(JsonView::Null) == ResolvedView::Nothing,
{
}

fn push_nonempty(parts: &mut Vec<String>, o: Option<&str>)
    ensures
        strings_view(final(parts)@) == keep_nonempty(
            strings_view(old(parts)@),
            match o {
                Some(s) => Some(s@),
                None => None,
            },
        ),
{
    let ghost before = strings_view(parts@);
    match o {
        Some(s) => {
            if !s.is_empty() {
                parts.push(s.to_owned());
                assert(strings_view(parts@) =~= before.push(s@));
            }
        },
        None => {},
    }
}

impl Transformer for ShadowTransformer {
    open spec fn transform_spec(&self, value: JsonView, ctx: ContextView) -> ResolvedView {
        shadow_spec(value)
    }

    fn transform(&self, value: &Json, ctx: &TransformerContext) -> (r: Resolved) {
        let mut parts: Vec<String> = Vec::new();
        assert(strings_view(parts@) =~= Seq::<Seq<char>>::empty());
        push_nonempty(&mut parts, value.str_field("hOffset"));
        push_nonempty(&mut parts, value.str_field("vOffset"));
        push_nonempty(&mut parts, value.str_field("blur"));
        push_nonempty(&mut parts, value.str_field("spread"));
        push_nonempty(&mut parts, value.str_field("color"));
        push_nonempty(&mut parts, value.str_field("position"));
        if parts.len() == 0 {
            Resolved::Nothing
        } else {
            Resolved::Single(join_all(&parts, " "))
        }
    }
}

} // verus!
