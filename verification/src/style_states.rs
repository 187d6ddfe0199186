//! CSS state selectors.
use vstd::prelude::*;

use crate::text::{join2, join_all, join_with, str_eq, strings_view};

verus! {

pub const HOVER: &'static str = "hover";

pub const ACTIVE: &'static str = "active";

pub const FOCUS: &'static str = "focus";

pub const FOCUS_VISIBLE: &'static str = "focus-visible";

pub const CHECKED: &'static str = "checked";

pub const SELECTED: &'static str = "e--selected";

/// States written as pseudo-classes (`:hover`).
pub open spec fn is_pseudo_state(s: Seq<char>) -> bool {
    s == HOVER@ || s == ACTIVE@ || s == FOCUS@ || s == FOCUS_VISIBLE@ || s == CHECKED@
}

/// States written as classes (`.e--selected`).
pub open spec fn is_class_state(s: Seq<char>) -> bool {
    s == SELECTED@
}

/// The states that `state` implies besides itself: `hover` implies `focus-visible`.
pub open spec fn additional_states_spec(state: Seq<char>) -> Seq<Seq<char>> {
    if state == HOVER@ {
        seq![FOCUS_VISIBLE@]
    } else {
        Seq::empty()
    }
}

/// The selector suffix of one state.
pub open spec fn state_selector_spec(state: Seq<char>) -> Seq<char> {
    if is_class_state(state) {
        seq!['.'] + state
    } else if is_pseudo_state(state) {
        seq![':'] + state
    } else {
        state
    }
}

/// `base` with the selector of `state` and of every state it implies, separated by commas.
pub open spec fn selector_with_state_spec(base: Seq<char>, state: Seq<char>) -> Seq<char> {
    let states = seq![state] + additional_states_spec(state);
    join_with(states.map_values(|s: Seq<char>| base + state_selector_spec(s)), seq![','])
}

/// A pseudo-class state other than `hover` adds `:state` to the selector.
pub proof fn law_pseudo_state_selector(base: Seq<char>, state: Seq<char>)
    requires
        state == "active"@ || state == "focus"@ || state == "focus-visible"@ || state == "checked"@,
    ensures
        selector_with_state_spec(base, state) == base + ":"@ + state,
{
    reveal_strlit("active");
    reveal_strlit("focus");
    reveal_strlit("focus-visible");
    reveal_strlit("checked");
    reveal_strlit("hover");
    reveal_strlit("e--selected");
    reveal_strlit(":");
    assert(state != HOVER@) by {
        assert(HOVER@.len() == 5);
        if state.len() == 5 {
            assert(state[0] != HOVER@[0]);
        }
    }
    assert(additional_states_spec(state) =~= Seq::<Seq<char>>::empty());
    let states = seq![state] + additional_states_spec(state);
    assert(states =~= seq![state]);
    assert(state != SELECTED@) by {
        assert(SELECTED@.len() == 11);
    }
    assert(HOVER@ == "hover"@);
    assert(SELECTED@ == "e--selected"@);
    assert(ACTIVE@ == "active"@);
    assert(FOCUS@ == "focus"@);
    assert(FOCUS_VISIBLE@ == "focus-visible"@);
    assert(CHECKED@ == "checked"@);
    assert(is_pseudo_state(state));
    assert(state_selector_spec(state) == seq![':'] + state);
    assert(":"@ =~= seq![':']);
    let parts = states.map_values(|s: Seq<char>| base + state_selector_spec(s));
    assert(states[0] == state);
    assert(parts[0] == base + state_selector_spec(state));
    assert(base + state_selector_spec(state) =~= base + ":"@ + state);
    assert(parts =~= seq![base + ":"@ + state]);
}

/// `hover` gives the hover selector and, after a comma, the `focus-visible` one.
pub proof fn law_hover_selector(base: Seq<char>)
    ensures
        selector_with_state_spec(base, "hover"@) == base + ":hover,"@ + base + ":focus-visible"@,
{
    reveal_strlit("hover");
    reveal_strlit("focus-visible");
    reveal_strlit("e--selected");
    assert(HOVER@ == "hover"@);
    assert(SELECTED@ == "e--selected"@);
    assert(FOCUS_VISIBLE@ == "focus-visible"@);
    reveal_strlit(":hover,");
    reveal_strlit(":focus-visible");
    let states = seq!["hover"@] + additional_states_spec("hover"@);
    assert(states =~= seq!["hover"@, "focus-visible"@]);
    assert("hover"@.len() == 5 && "focus-visible"@.len() == 13 && "e--selected"@.len() == 11);
    assert("hover"@ != SELECTED@);
    assert("focus-visible"@ != SELECTED@);
    assert(state_selector_spec("hover"@) == seq![':'] + "hover"@);
    assert(state_selector_spec("focus-visible"@) == seq![':'] + "focus-visible"@);
    assert(is_pseudo_state("hover"@));
    assert(is_pseudo_state("focus-visible"@));
    let a = base + state_selector_spec("hover"@);
    let b = base + state_selector_spec("focus-visible"@);
    let parts = states.map_values(|s: Seq<char>| base + state_selector_spec(s));
    assert(states[0] == "hover"@ && states[1] == "focus-visible"@);
    assert(parts[0] == base + state_selector_spec("hover"@));
    assert(parts[1] == base + state_selector_spec("focus-visible"@));
    assert(parts =~= seq![a, b]);
    assert(parts.drop_last() =~= seq![a]);
    assert(join_with(parts, seq![',']) == join_with(seq![a], seq![',']) + seq![','] + b);
    assert(join_with(seq![a], seq![',']) == a);
    assert(a + seq![','] + b =~= base + ":hover,"@ + base + ":focus-visible"@);
}

/// The selected state is a class: `.e--selected` follows the selector; any
/// state that is neither a pseudo-class nor a class state is added as it is.
pub proof fn law_class_and_other_states(base: Seq<char>, other: Seq<char>)
    requires
        !is_pseudo_state(other),
        !is_class_state(other),
    ensures
        selector_with_state_spec(base, "e--selected"@) == base + ".e--selected"@,
        selector_with_state_spec(base, other) == base + other,
{
    reveal_strlit("hover");
    reveal_strlit("e--selected");
    reveal_strlit(".e--selected");
    assert(HOVER@ == "hover"@);
    assert(SELECTED@ == "e--selected"@);
    assert("e--selected"@.len() == 11 && "hover"@.len() == 5);
    assert("e--selected"@ != HOVER@);
    assert(state_selector_spec("e--selected"@) == seq!['.'] + "e--selected"@);
    assert(state_selector_spec(other) == other);
    let s1 = seq!["e--selected"@] + additional_states_spec("e--selected"@);
    assert(s1 =~= seq!["e--selected"@]);
    let p1 = s1.map_values(|s: Seq<char>| base + state_selector_spec(s));
    assert(s1[0] == "e--selected"@);
    assert(p1[0] == base + state_selector_spec("e--selected"@));
    assert(base + state_selector_spec("e--selected"@) =~= base + ".e--selected"@);
    assert(p1 =~= seq![base + ".e--selected"@]);
    assert(other != HOVER@);
    let s2 = seq![other] + additional_states_spec(other);
    assert(s2 =~= seq![other]);
    let p2 = s2.map_values(|s: Seq<char>| base + state_selector_spec(s));
    assert(s2[0] == other);
    assert(p2[0] == base + state_selector_spec(other));
    assert(p2 =~= seq![base + other]);
}

fn additional_states(state: &str) -> (r: Vec<&'static str>)
    ensures
        r@.map_values(|s: &str| s@) == additional_states_spec(state@),
{
    if str_eq(state, HOVER) {
        let r = vec![FOCUS_VISIBLE];
        assert(r@.map_values(|s: &str| s@) =~= additional_states_spec(state@));
        r
    } else {
        let r: Vec<&'static str> = Vec::new();
        assert(r@.map_values(|s: &str| s@) =~= additional_states_spec(state@));
        r
    }
}

fn state_selector(state: &str) -> (r: String)
    ensures
        r@ == state_selector_spec(state@),
{
    proof {
        reveal_strlit(".");
        reveal_strlit(":");
        assert("."@ =~= seq!['.']);
        assert(":"@ =~= seq![':']);
    }
    if str_eq(state, SELECTED) {
        return join2(".", state);
    }
    if str_eq(state, HOVER) || str_eq(state, ACTIVE) || str_eq(state, FOCUS) || str_eq(
        state,
        FOCUS_VISIBLE,
    ) || str_eq(state, CHECKED) {
        return join2(":", state);
    }
    state.to_owned()
}

/// Builds `base:hover,base:focus-visible` and the like.
pub fn selector_with_state(base: &str, state: &str) -> (r: String)
    ensures
        r@ == selector_with_state_spec(base@, state@),
{
    let mut all_states: Vec<&str> = vec![state];
    let extra = additional_states(state);
    let ghost states = seq![state@] + additional_states_spec(state@);
    let mut i: usize = 0;
    while i < extra.len()
        invariant
            i <= extra.len(),
            extra@.map_values(|s: &str| s@) == additional_states_spec(state@),
            all_states@.map_values(|s: &str| s@) =~= seq![state@] + additional_states_spec(
                state@,
            ).subrange(0, i as int),
        decreases extra.len() - i,
    {
        all_states.push(extra[i]);
        i = i + 1;
        proof {
            assert(additional_states_spec(state@).subrange(0, i as int) =~= additional_states_spec(
                state@,
            ).subrange(0, i - 1).push(extra@[i - 1]@));
        }
    }
    assert(additional_states_spec(state@).subrange(0, extra.len() as int)
        =~= additional_states_spec(state@));
    let mut parts: Vec<String> = Vec::new();
    let mut j: usize = 0;
    while j < all_states.len()
        invariant
            j <= all_states.len(),
            all_states@.map_values(|s: &str| s@) == states,
            parts.len() == j,
            forall|k: int|
                0 <= k < j ==> #[trigger] parts@[k]@ == base@ + state_selector_spec(states[k]),
        decreases all_states.len() - j,
    {
        let sel = state_selector(all_states[j]);
        parts.push(join2(base, sel.as_str()));
        j = j + 1;
    }
    assert(strings_view(parts@) =~= states.map_values(
        |s: Seq<char>| base@ + state_selector_spec(s),
    ));
    proof {
        reveal_strlit(",");
        assert(","@ =~= seq![',']);
    }
    join_all(&parts, ",")
}

/// A hovered element also matches while focused by keyboard: the `hover`
/// selector is the base with `:hover`, then a comma, then the base with `:focus-visible`.
pub proof fn law_hover_implies_focus_visible(base: Seq<char>)
    ensures
        selector_with_state_spec(base, HOVER@) == base + ":hover"@ + ","@ + base + ":focus-visible"@,
{
    reveal_strlit("hover");
    reveal_strlit("focus-visible");
    reveal_strlit(":hover");
    reveal_strlit(":focus-visible");
    reveal_strlit(",");
    reveal_strlit("e--selected");
    assert(HOVER@.len() != SELECTED@.len());
    assert(FOCUS_VISIBLE@.len() != SELECTED@.len());
    let states = seq![HOVER@] + additional_states_spec(HOVER@);
    assert(states =~= seq![HOVER@, FOCUS_VISIBLE@]);
    let parts = states.map_values(|s: Seq<char>| base + state_selector_spec(s));
    assert(HOVER@ != SELECTED@);
    assert(FOCUS_VISIBLE@ != SELECTED@);
    assert(":hover"@ =~= seq![':'] + HOVER@);
    assert(":focus-visible"@ =~= seq![':'] + FOCUS_VISIBLE@);
    assert(parts =~= seq![base + ":hover"@, base + ":focus-visible"@]);
    assert(parts.drop_last() =~= seq![base + ":hover"@]);
    assert(","@ =~= seq![',']);
    assert(join_with(parts.drop_last(), seq![',']) == base + ":hover"@);
    assert(join_with(parts, seq![',']) == (base + ":hover"@) + seq![','] + (base + ":focus-visible"@));
    assert((base + ":hover"@) + seq![','] + (base + ":focus-visible"@) =~= base + ":hover"@ + ","@ + base + ":focus-visible"@);
}

/// Every state but `hover` gives one selector: the base followed by the state's suffix.
pub proof fn law_single_state_selector(base: Seq<char>, state: Seq<char>)
    requires
        state != HOVER@,
    ensures
        selector_with_state_spec(base, state) == base + state_selector_spec(state),
{
    let states = seq![state] + additional_states_spec(state);
    assert(states =~= seq![state]);
    let parts = states.map_values(|s: Seq<char>| base + state_selector_spec(s));
    assert(parts =~= seq![base + state_selector_spec(state)]);
}

/// Whether `state` is absent or one of the known states.
pub fn is_valid_state(state: Option<&str>) -> (r: bool)
    ensures
        r == match state {
            None => true,
            Some(s) => is_pseudo_state(s@) || is_class_state(s@),
        },
{
    match state {
        None => true,
        Some(s) => str_eq(s, HOVER) || str_eq(s, ACTIVE) || str_eq(s, FOCUS) || str_eq(
            s,
            FOCUS_VISIBLE,
        ) || str_eq(s, CHECKED) || str_eq(s, SELECTED),
    }
}

} // verus!
