//! Resolves prop values to CSS declarations through the registered transformers.
//!
//! Per prop: a value tagged with `$$type` and `value` has the object or array
//! members of its `value` resolved first, then goes to the transformer of its
//! `$$type`; an untagged string passes through; anything else is dropped.
use vstd::prelude::*;

use crate::assoc::{distinct_keys, lemma_put_lookup, lookup, put};
use crate::json::{
    entries_view, items_view, json_view, member, lemma_entries_view, lemma_get_decreases,
    lemma_items_view, Json, JsonView,
};
use crate::transformer::{registry_get, RegistryView, Transformer, TransformerRegistry};
use crate::types::{decls_view, prop_context, put_decl, Resolved, ResolvedView, TransformerContext};

verus! {

/// Depth from which tagged values are no longer transformed.
pub const DEPTH_LIMIT: u32 = 3;

/// Whether a value is a tagged prop value: a string `$$type` and a `value`.
pub open spec fn is_transformable(v: JsonView) -> bool {
    v.str_field("$$type"@) is Some && v.get("value"@) is Some
}

/// Whether a value carries `"disabled": true`.
pub open spec fn is_disabled(v: JsonView) -> bool {
    match v.get("disabled"@) {
        Some(d) => d.as_bool() == Some(true),
        None => false,
    }
}

/// What one value resolves to under the prop name `key`.
pub open spec fn resolve_item_spec<T: Transformer>(reg: RegistryView<T>, v: JsonView, key: Seq<char>, depth: nat) -> ResolvedView
    decreases v,
{
    if v is Null {
        ResolvedView::Nothing
    } else if !is_transformable(v) {
        match v.as_str() {
            Some(s) => ResolvedView::Single(s),
            None => ResolvedView::Nothing,
        }
    } else if depth >= DEPTH_LIMIT {
        ResolvedView::Nothing
    } else if is_disabled(v) {
        ResolvedView::Nothing
    } else {
        let type_key = v.str_field("$$type"@).unwrap();
        let inner = v.get("value"@).unwrap();
        proof {
            lemma_get_decreases(v, "value"@);
        }
        let resolved_inner = resolve_inner_spec(reg, inner, key);
        match registry_get(reg, type_key) {
            Some(t) => t.transform_spec(resolved_inner, prop_context(key)),
            None => ResolvedView::Nothing,
        }
    }
}

/// The inner value of a tagged value with its object and array members resolved.
pub open spec fn resolve_inner_spec<T: Transformer>(reg: RegistryView<T>, inner: JsonView, key: Seq<char>) -> JsonView
    decreases inner,
{
    match inner {
        JsonView::Object(entries) => JsonView::Object(resolve_entries_spec(reg, entries)),
        JsonView::Array(items) => JsonView::Array(resolve_items_spec(reg, items, key)),
        _ => inner,
    }
}

/// Declarations as the members of an object, each value a string.
pub open spec fn decls_as_members(m: Seq<(Seq<char>, Seq<char>)>) -> Seq<(Seq<char>, JsonView)> {
    m.map_values(|p: (Seq<char>, Seq<char>)| (p.0, JsonView::Str(p.1)))
}

/// What an object member becomes once resolved: its text where it resolves to
/// one value, an object of its declarations where it resolves to several, and
/// itself, as it came, where it resolves to nothing.
pub open spec fn resolved_member(v: JsonView, r: ResolvedView) -> JsonView {
    match r {
        ResolvedView::Single(s) => JsonView::Str(s),
        ResolvedView::Multi(m) => JsonView::Object(decls_as_members(m)),
        ResolvedView::Nothing => v,
    }
}

/// Object members, each replaced by what it resolves to.
pub open spec fn resolve_entries_spec<T: Transformer>(reg: RegistryView<T>, e: Seq<(Seq<char>, JsonView)>) -> Seq<(Seq<char>, JsonView)>
    decreases e,
{
    if e.len() == 0 {
        Seq::empty()
    } else {
        let rest = resolve_entries_spec(reg, e.subrange(0, e.len() - 1));
        let k = e[e.len() - 1].0;
        let v = e[e.len() - 1].1;
        rest.push((k, resolved_member(v, resolve_item_spec(reg, v, k, 0))))
    }
}

/// Array items: a tagged item is kept as its resolved text, or as an object of
/// its declarations where it resolves to several, and dropped where it resolves
/// to nothing; an untagged item is kept as it is.
pub open spec fn resolve_items_spec<T: Transformer>(reg: RegistryView<T>, s: Seq<JsonView>, key: Seq<char>) -> Seq<JsonView>
    decreases s,
{
    if s.len() == 0 {
        Seq::empty()
    } else {
        let rest = resolve_items_spec(reg, s.subrange(0, s.len() - 1), key);
        let x = s[s.len() - 1];
        if is_transformable(x) {
            match resolve_item_spec(reg, x, key, 0) {
                ResolvedView::Single(t) => rest.push(JsonView::Str(t)),
                ResolvedView::Multi(m) => rest.push(JsonView::Object(decls_as_members(m))),
                ResolvedView::Nothing => rest,
            }
        } else {
            rest.push(x)
        }
    }
}

/// `out` with every declaration of `m` stored in order.
pub open spec fn put_all(out: Seq<(Seq<char>, Seq<char>)>, m: Seq<(Seq<char>, Seq<char>)>) -> Seq<(Seq<char>, Seq<char>)>
    decreases m.len(),
{
    if m.len() == 0 {
        out
    } else {
        let prev = put_all(out, m.drop_last());
        put(prev, m.last().0, m.last().1)
    }
}

/// The declarations of a prop list: each prop in order stores what it resolves to.
pub open spec fn resolve_props_spec<T: Transformer>(reg: RegistryView<T>, props: Seq<(Seq<char>, JsonView)>) -> Seq<(Seq<char>, Seq<char>)>
    decreases props.len(),
{
    if props.len() == 0 {
        Seq::empty()
    } else {
        let out = resolve_props_spec(reg, props.drop_last());
        let key = props.last().0;
        match resolve_item_spec(reg, props.last().1, key, 0) {
            ResolvedView::Single(s) => put(out, key, s),
            ResolvedView::Multi(m) => put_all(out, m),
            ResolvedView::Nothing => out,
        }
    }
}

/// Storing declarations keeps the keys distinct.
pub proof fn lemma_put_all_distinct(out: Seq<(Seq<char>, Seq<char>)>, m: Seq<(Seq<char>, Seq<char>)>)
    requires
        distinct_keys(out),
    ensures
        distinct_keys(put_all(out, m)),
    decreases m.len(),
{
    if m.len() > 0 {
        lemma_put_all_distinct(out, m.drop_last());
        lemma_put_lookup(put_all(out, m.drop_last()), m.last().0, m.last().1, m.last().0);
    }
}

/// After storing declarations, each of their properties reads its own value,
/// and a property that none of them names reads what it read before.
pub proof fn lemma_put_all_lookup(out: Seq<(Seq<char>, Seq<char>)>, m: Seq<(Seq<char>, Seq<char>)>, k: Seq<char>)
    ensures
        (forall|i: int| 0 <= i < m.len() ==> #[trigger] m[i].0 != k) ==> lookup(put_all(out, m), k)
            == lookup(out, k),
        distinct_keys(m) ==> forall|i: int|
            0 <= i < m.len() ==> lookup(put_all(out, m), #[trigger] m[i].0) == Some(m[i].1),
    decreases m.len(),
{
    if m.len() > 0 {
        let rest = m.drop_last();
        lemma_put_all_lookup(out, rest, k);
        lemma_put_lookup(put_all(out, rest), m.last().0, m.last().1, k);
        if distinct_keys(m) {
            assert forall|i: int| 0 <= i < m.len() implies lookup(put_all(out, m), #[trigger] m[i].0)
                == Some(m[i].1) by {
                lemma_put_lookup(put_all(out, rest), m.last().0, m.last().1, m[i].0);
                if i < m.len() - 1 {
                    assert(rest[i] == m[i]);
                    assert(distinct_keys(rest));
                    lemma_put_all_lookup(out, rest, m[i].0);
                }
            }
        }
    }
}

/// What a prop adds to the declarations: the value it resolves to under its
/// own name, or the declarations it resolves to; nothing where it resolves to
/// nothing. Every other property keeps its value.
pub proof fn law_prop_declarations<T: Transformer>(
    reg: RegistryView<T>,
    props: Seq<(Seq<char>, JsonView)>,
    key: Seq<char>,
    v: JsonView,
    k: Seq<char>,
)
    ensures
        ({
            let before = resolve_props_spec(reg, props);
            let after = resolve_props_spec(reg, props.push((key, v)));
            match resolve_item_spec(reg, v, key, 0) {
                ResolvedView::Single(s) => lookup(after, key) == Some(s) && (k != key ==> lookup(after, k)
                    == lookup(before, k)),
                ResolvedView::Multi(m) => (distinct_keys(m) ==> forall|i: int|
                    0 <= i < m.len() ==> lookup(after, #[trigger] m[i].0) == Some(m[i].1)) && ((forall|
                    i: int,
                | 0 <= i < m.len() ==> #[trigger] m[i].0 != k) ==> lookup(after, k) == lookup(before, k)),
                ResolvedView::Nothing => after == before,
            }
        }),
{
    assert(props.push((key, v)).drop_last() =~= props);
    let before = resolve_props_spec(reg, props);
    match resolve_item_spec(reg, v, key, 0) {
        ResolvedView::Single(s) => {
            lemma_put_lookup(before, key, s, key);
            lemma_put_lookup(before, key, s, k);
        },
        ResolvedView::Multi(m) => {
            lemma_put_all_lookup(before, m, k);
        },
        ResolvedView::Nothing => {},
    }
}

/// A tagged value whose type has no transformer, and no fallback, resolves to nothing.
pub proof fn law_unknown_type_resolves_to_nothing<T: Transformer>(
    reg: RegistryView<T>,
    v: JsonView,
    key: Seq<char>,
)
    requires
        is_transformable(v),
        !is_disabled(v),
        registry_get(reg, v.str_field("$$type"@).unwrap()) is None,
    ensures
        resolve_item_spec(reg, v, key, 0) == ResolvedView::Nothing,
        resolve_item_spec(reg, JsonView::Null, key, 0) == ResolvedView::Nothing,
{
}

/// A value that is not tagged and not a string resolves to nothing, and a
/// tagged value at the depth limit is no longer transformed.
pub proof fn law_untagged_and_too_deep<T: Transformer>(
    reg: RegistryView<T>,
    v: JsonView,
    key: Seq<char>,
    depth: nat,
)
    ensures
        !is_transformable(v) && v.as_str() is None ==> resolve_item_spec(reg, v, key, depth)
            == ResolvedView::Nothing,
        is_transformable(v) && depth >= DEPTH_LIMIT ==> resolve_item_spec(reg, v, key, depth)
            == ResolvedView::Nothing,
{
}

/// Members of an object value are resolved first: a member that resolves to
/// one value is replaced by that text, one that resolves to nothing is kept
/// as it came.
pub proof fn law_members_resolved_first<T: Transformer>(
    reg: RegistryView<T>,
    k: Seq<char>,
    m: JsonView,
    key: Seq<char>,
    s: Seq<char>,
)
    ensures
        resolve_item_spec(reg, m, k, 0) == ResolvedView::Single(s) ==> resolve_inner_spec(
            reg,
            JsonView::Object(seq![(k, m)]),
            key,
        ) == JsonView::Object(seq![(k, JsonView::Str(s))]),
        resolve_item_spec(reg, m, k, 0) == ResolvedView::Nothing ==> resolve_inner_spec(
            reg,
            JsonView::Object(seq![(k, m)]),
            key,
        ) == JsonView::Object(seq![(k, m)]),
        resolve_inner_spec(reg, JsonView::Str(s), key) == JsonView::Str(s),
{
    let e = seq![(k, m)];
    assert(e.subrange(0, 0) =~= Seq::<(Seq<char>, JsonView)>::empty());
    assert(resolve_entries_spec(reg, e) =~= seq![(k, resolved_member(m, resolve_item_spec(reg, m, k, 0)))]);
}

/// Items of an array value are resolved first: a tagged item that resolves to
/// one value is replaced by that text, one that resolves to nothing is left
/// out, an untagged item is kept.
pub proof fn law_items_resolved_first<T: Transformer>(
    reg: RegistryView<T>,
    x: JsonView,
    key: Seq<char>,
    s: Seq<char>,
)
    ensures
        is_transformable(x) && resolve_item_spec(reg, x, key, 0) == ResolvedView::Single(s)
            ==> resolve_inner_spec(reg, JsonView::Array(seq![x]), key) == JsonView::Array(
            seq![JsonView::Str(s)],
        ),
        is_transformable(x) && resolve_item_spec(reg, x, key, 0) == ResolvedView::Nothing
            ==> resolve_inner_spec(reg, JsonView::Array(seq![x]), key) == JsonView::Array(
            Seq::empty(),
        ),
        !is_transformable(x) ==> resolve_inner_spec(reg, JsonView::Array(seq![x]), key)
            == JsonView::Array(seq![x]),
{
    let a = seq![x];
    assert(a.subrange(0, 0) =~= Seq::<JsonView>::empty());
    assert(a.subrange(0, a.len() - 1) =~= Seq::<JsonView>::empty());
    assert(Seq::<JsonView>::empty().push(x) =~= seq![x]);
    assert(Seq::<JsonView>::empty().push(JsonView::Str(s)) =~= seq![JsonView::Str(s)]);
}

/// The resolved declarations form a map: no CSS property occurs twice.
pub proof fn law_resolved_keys_distinct<T: Transformer>(reg: RegistryView<T>, props: Seq<(Seq<char>, JsonView)>)
    ensures
        distinct_keys(resolve_props_spec(reg, props)),
    decreases props.len(),
{
    if props.len() > 0 {
        law_resolved_keys_distinct(reg, props.drop_last());
        let out = resolve_props_spec(reg, props.drop_last());
        let key = props.last().0;
        match resolve_item_spec(reg, props.last().1, key, 0) {
            ResolvedView::Single(s) => {
                lemma_put_lookup(out, key, s, key);
            },
            ResolvedView::Multi(m) => {
                lemma_put_all_distinct(out, m);
            },
            ResolvedView::Nothing => {},
        }
    }
}

/// A disabled prop contributes nothing: adding it leaves the declarations as they were.
pub proof fn law_disabled_prop_omitted<T: Transformer>(
    reg: RegistryView<T>,
    props: Seq<(Seq<char>, JsonView)>,
    key: Seq<char>,
    v: JsonView,
)
    requires
        is_transformable(v),
        is_disabled(v),
    ensures
        resolve_props_spec(reg, props.push((key, v))) == resolve_props_spec(reg, props),
{
    assert(props.push((key, v)).drop_last() =~= props);
}

/// An untagged string is its own CSS value.
pub proof fn law_untagged_string_passes_through<T: Transformer>(
    reg: RegistryView<T>,
    s: Seq<char>,
    key: Seq<char>,
    depth: nat,
)
    ensures
        resolve_item_spec(reg, JsonView::Str(s), key, depth) == ResolvedView::Single(s),
{
}

/// A tagged string resolves to what the transformer of its type makes of the string;
/// where that transformer passes strings through, to the string itself.
pub proof fn law_passthrough_value<T: Transformer>(
    reg: RegistryView<T>,
    type_key: Seq<char>,
    s: Seq<char>,
    key: Seq<char>,
    t: T,
)
    requires
        registry_get(reg, type_key) == Some(t),
        t.transform_spec(JsonView::Str(s), prop_context(key)) == ResolvedView::Single(s),
    ensures
        resolve_item_spec(
            reg,
            JsonView::Object(seq![("$$type"@, JsonView::Str(type_key)), ("value"@, JsonView::Str(s))]),
            key,
            0,
        ) == ResolvedView::Single(s),
{
    reveal_strlit("$$type");
    reveal_strlit("value");
    reveal_strlit("disabled");
    let e = seq![("$$type"@, JsonView::Str(type_key)), ("value"@, JsonView::Str(s))];
    assert("$$type"@ != "value"@) by {
        assert("$$type"@.len() != "value"@.len());
    }
    assert("$$type"@ != "disabled"@) by {
        assert("$$type"@.len() != "disabled"@.len());
    }
    assert("value"@ != "disabled"@) by {
        assert("value"@.len() != "disabled"@.len());
    }
    assert(e.drop_first() =~= seq![("value"@, JsonView::Str(s))]);
    assert(e.drop_first().drop_first() =~= Seq::<(Seq<char>, JsonView)>::empty());
    let v = JsonView::Object(e);
    assert(member(e, "$$type"@) == Some(JsonView::Str(type_key)));
    assert(member(e.drop_first(), "value"@) == Some(JsonView::Str(s)));
    assert(member(e, "value"@) == Some(JsonView::Str(s)));
    assert(member(e.drop_first().drop_first(), "disabled"@) is None);
    assert(member(e.drop_first(), "disabled"@) is None);
    assert(member(e, "disabled"@) is None);
    assert(is_transformable(v));
    assert(!is_disabled(v));
    assert(resolve_inner_spec(reg, JsonView::Str(s), key) == JsonView::Str(s));
}

/// An object whose members are the declarations `m`, each value a string.
fn decls_to_object(m: Vec<(String, String)>) -> (r: Json)
    ensures
        r@ == JsonView::Object(decls_as_members(decls_view(m@))),
{
    let ghost mv = decls_as_members(decls_view(m@));
    let mut out: Vec<(String, Json)> = Vec::new();
    let mut i: usize = 0;
    while i < m.len()
        invariant
            mv == decls_as_members(decls_view(m@)),
            i <= m.len(),
            out.len() == i,
            forall|k: int| 0 <= k < i ==> #[trigger] out@[k].0@ == m@[k].0@ && json_view(out@[k].1) == JsonView::Str(m@[k].1@),
        decreases m.len() - i,
    {
        out.push((m[i].0.clone(), Json::Str(m[i].1.clone())));
        i = i + 1;
    }
    proof {
        lemma_entries_view(out@);
        assert(entries_view(out@) =~= mv);
    }
    Json::Object(out)
}

/// Resolves props against a transformer registry.
pub struct PropsResolver<'a, T> {
    registry: &'a TransformerRegistry<T>,
}

impl<'a, T: Transformer> PropsResolver<'a, T> {
    /// The registry that this resolver dispatches to.
    pub closed spec fn registry_view(&self) -> RegistryView<T> {
        self.registry@
    }

    /// A resolver over `registry`.
    pub fn new(registry: &'a TransformerRegistry<T>) -> (r: Self)
        ensures
            r.registry_view() == registry@,
    {
        PropsResolver { registry }
    }

    /// Resolves every prop: a map of CSS property to value text, in prop order.
    pub fn resolve(&self, props: &Vec<(String, Json)>) -> (out: Vec<(String, String)>)
        ensures
            decls_view(out@) == resolve_props_spec(self.registry_view(), entries_view(props@)),
    {
        let ghost pv = entries_view(props@);
        proof {
            lemma_entries_view(props@);
        }
        let mut out: Vec<(String, String)> = Vec::new();
        assert(decls_view(out@) =~= Seq::<(Seq<char>, Seq<char>)>::empty());
        let mut i: usize = 0;
        while i < props.len()
            invariant
                pv == entries_view(props@),
                pv.len() == props.len(),
                forall|k: int|
                    0 <= k < props.len() ==> #[trigger] pv[k] == (props@[k].0@, props@[k].1@),
                i <= props.len(),
                decls_view(out@) == resolve_props_spec(self.registry@, pv.subrange(0, i as int)),
            decreases props.len() - i,
        {
            proof {
                let next = pv.subrange(0, i + 1);
                assert(next.drop_last() =~= pv.subrange(0, i as int));
                assert(next.last() == pv[i as int]);
            }
            let key = &props[i].0;
            match self.resolve_item(&props[i].1, key.as_str(), 0) {
                Resolved::Single(s) => {
                    put_decl(&mut out, key.clone(), s);
                },
                Resolved::Multi(m) => {
                    let ghost start = decls_view(out@);
                    let ghost mv = decls_view(m@);
                    let mut j: usize = 0;
                    while j < m.len()
                        invariant
                            mv == decls_view(m@),
                            j <= m.len(),
                            decls_view(out@) == put_all(start, mv.subrange(0, j as int)),
                        decreases m.len() - j,
                    {
                        proof {
                            let next = mv.subrange(0, j + 1);
                            assert(next.drop_last() =~= mv.subrange(0, j as int));
                        }
                        put_decl(&mut out, m[j].0.clone(), m[j].1.clone());
                        j = j + 1;
                    }
                    assert(mv.subrange(0, m.len() as int) =~= mv);
                },
                Resolved::Nothing => {},
            }
            i = i + 1;
        }
        assert(pv.subrange(0, props.len() as int) =~= pv);
        out
    }

    fn is_transformable(value: &Json) -> (b: bool)
        ensures
            b == is_transformable(value@),
    {
        value.str_field("$$type").is_some() && value.get("value").is_some()
    }

    fn resolve_item(&self, value: &Json, key: &str, depth: u32) -> (r: Resolved)
        ensures
            r@ == resolve_item_spec(self.registry@, value@, key@, depth as nat),
        decreases value,
    {
        if value.is_null() {
            return Resolved::Nothing;
        }
        if !Self::is_transformable(value) {
            return match value.as_str() {
                Some(s) => Resolved::Single(s.to_owned()),
                None => Resolved::Nothing,
            };
        }
        if depth >= DEPTH_LIMIT {
            return Resolved::Nothing;
        }
        let disabled = match value.get("disabled") {
            Some(d) => match d.as_bool() {
                Some(b) => b,
                None => false,
            },
            None => false,
        };
        if disabled {
            return Resolved::Nothing;
        }
        let type_key = match value.str_field("$$type") {
            Some(t) => t,
            None => "",
        };
        let inner = match value.get("value") {
            Some(v) => v,
            None => return Resolved::Nothing,
        };
        let resolved_inner = self.resolve_inner(inner, key);
        let transformer = match self.registry.get(type_key) {
            Some(t) => t,
            None => return Resolved::Nothing,
        };
        let ctx = TransformerContext::new(key.to_owned());
        transformer.transform(&resolved_inner, &ctx)
    }

    fn resolve_inner(&self, inner: &Json, key: &str) -> (r: Json)
        ensures
            r@ == resolve_inner_spec(self.registry@, inner@, key@),
        decreases inner,
    {
        match inner {
            Json::Object(entries) => {
                let ghost ev = entries_view(entries@);
                proof {
                    lemma_entries_view(entries@);
                    assert(decreases_to!(*inner => inner->Object_0));
                    assert(decreases_to!(inner->Object_0 => inner->Object_0@));
                    assert forall|k: int| 0 <= k < entries.len() implies decreases_to!(*inner => #[trigger] entries@[k].1) by {
                        assert(decreases_to!(inner->Object_0@ => inner->Object_0@[k]));
                        assert(decreases_to!(inner->Object_0@[k] => inner->Object_0@[k].1));
                    }
                }
                let mut out: Vec<(String, Json)> = Vec::new();
                let mut i: usize = 0;
                while i < entries.len()
                    invariant
                        ev == entries_view(entries@),
                        ev.len() == entries.len(),
                        forall|k: int|
                            0 <= k < entries.len() ==> #[trigger] ev[k] == (
                                entries@[k].0@,
                                entries@[k].1@,
                            ),
                        forall|k: int| 0 <= k < entries.len() ==> decreases_to!(*inner => #[trigger] entries@[k].1),
                        i <= entries.len(),
                        entries_view(out@) == resolve_entries_spec(self.registry@, ev.subrange(0, i as int)),
                    decreases entries.len() - i,
                {
                    proof {
                        let next = ev.subrange(0, i + 1);
                        assert(next.subrange(0, i as int) =~= ev.subrange(0, i as int));
                        assert(next[i as int] == ev[i as int]);
                    }
                    let k = &entries[i].0;
                    let v = &entries[i].1;
                    let r = self.resolve_item(v, k.as_str(), 0);
                    let nv = match r {
                        Resolved::Single(s) => Json::Str(s),
                        Resolved::Multi(m) => decls_to_object(m),
                        Resolved::Nothing => v.duplicate(),
                    };
                    let ghost before = out@;
                    out.push((k.clone(), nv));
                    proof {
                        assert(out@.subrange(0, out@.len() - 1) =~= before);
                        assert(entries_view(out@) == entries_view(before).push((k@, nv@)));
                        let next = ev.subrange(0, i + 1);
                        assert(next.len() == i + 1);
                        assert(next[next.len() - 1] == ev[i as int]);
                        assert(next.subrange(0, next.len() - 1) =~= ev.subrange(0, i as int));
                        assert(resolve_entries_spec(self.registry@, next) == resolve_entries_spec(self.registry@, ev.subrange(0, i as int)).push((k@, nv@)));
                    }
                    i = i + 1;
                }
                assert(ev.subrange(0, entries.len() as int) =~= ev);
                Json::Object(out)
            },
            Json::Array(arr) => {
                let ghost items = items_view(arr@);
                proof {
                    lemma_items_view(arr@);
                    assert(decreases_to!(*inner => inner->Array_0));
                    assert(decreases_to!(inner->Array_0 => inner->Array_0@));
                    assert forall|k: int| 0 <= k < arr.len() implies decreases_to!(*inner => #[trigger] arr@[k]) by {
                        assert(decreases_to!(inner->Array_0@ => inner->Array_0@[k]));
                    }
                }
                let mut out: Vec<Json> = Vec::new();
                let mut i: usize = 0;
                while i < arr.len()
                    invariant
                        items == items_view(arr@),
                        items.len() == arr.len(),
                        forall|k: int| 0 <= k < arr.len() ==> #[trigger] items[k] == arr@[k]@,
                        forall|k: int| 0 <= k < arr.len() ==> decreases_to!(*inner => #[trigger] arr@[k]),
                        i <= arr.len(),
                        items_view(out@) == resolve_items_spec(self.registry@, items.subrange(0, i as int), key@),
                    decreases arr.len() - i,
                {
                    proof {
                        let next = items.subrange(0, i + 1);
                        assert(next.len() == i + 1);
                        assert(next.subrange(0, next.len() - 1) =~= items.subrange(0, i as int));
                        assert(next[next.len() - 1] == items[i as int]);
                    }
                    let item = &arr[i];
                    let ghost before = out@;
                    if Self::is_transformable(item) {
                        match self.resolve_item(item, key, 0) {
                            Resolved::Single(s) => {
                                out.push(Json::Str(s));
                                proof {
                                    assert(out@.subrange(0, out@.len() - 1) =~= before);
                                    assert(items_view(out@) == items_view(before).push(out@[out@.len() - 1]@));
                                }
                            },
                            Resolved::Multi(m) => {
                                out.push(decls_to_object(m));
                                proof {
                                    assert(out@.subrange(0, out@.len() - 1) =~= before);
                                    assert(items_view(out@) == items_view(before).push(out@[out@.len() - 1]@));
                                }
                            },
                            Resolved::Nothing => {
                                assert(out@ == before);
                            },
                        }
                    } else {
                        out.push(item.duplicate());
                        proof {
                            assert(out@.subrange(0, out@.len() - 1) =~= before);
                            assert(items_view(out@) == items_view(before).push(out@[out@.len() - 1]@));
                        }
                    }
                    i = i + 1;
                }
                assert(items.subrange(0, arr.len() as int) =~= items);
                Json::Array(out)
            },
            _ => inner.duplicate(),
        }
    }
}

} // verus!
