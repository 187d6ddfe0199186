use elementor_style_renderer::json::JsonView;
use elementor_style_renderer::style_states::{is_valid_state, selector_with_state};
use elementor_style_renderer::types::{ContextView, ResolvedView};
use elementor_style_renderer::text::{i64_to_decimal, join_all, str_eq, trim_str, u64_to_decimal};
use elementor_style_renderer::{
    build_registry, Breakpoint, BreakpointDirection, BreakpointMap, CustomCss, Json, JsonNumber,
    PropsResolver, StyleDefinition, StyleVariant, StylesRenderer, TransformerKind,
    TransformerRegistry, VariantMeta,
};

fn text(s: &str) -> Json {
    Json::Str(s.to_string())
}

fn num(i: i64) -> Json {
    Json::Number(JsonNumber::integer(i))
}

fn obj(entries: Vec<(&str, Json)>) -> Json {
    Json::Object(entries.into_iter().map(|(k, v)| (k.to_string(), v)).collect())
}

fn prop(type_key: &str, value: Json) -> Json {
    obj(vec![("$$type", text(type_key)), ("value", value)])
}

fn props(entries: Vec<(&str, Json)>) -> Vec<(String, Json)> {
    entries.into_iter().map(|(k, v)| (k.to_string(), v)).collect()
}

fn decls(pairs: Vec<(&str, &str)>) -> Vec<(String, String)> {
    pairs.into_iter().map(|(k, v)| (k.to_string(), v.to_string())).collect()
}

fn variant(p: Vec<(&str, Json)>, breakpoint: Option<&str>, state: Option<&str>, custom: Option<&str>) -> StyleVariant {
    StyleVariant {
        props: props(p),
        meta: VariantMeta {
            breakpoint: breakpoint.map(|s| s.to_string()),
            state: state.map(|s| s.to_string()),
        },
        custom_css: custom.map(|c| CustomCss { raw: Some(c.to_string()) }),
    }
}

fn class(id: &str, variants: Vec<StyleVariant>) -> StyleDefinition {
    StyleDefinition { id: id.to_string(), style_type: "class".to_string(), css_name: None, variants }
}

#[test]
fn decimal_text_of_integers() {
    assert_eq!(u64_to_decimal(0), "0");
    assert_eq!(u64_to_decimal(1234567890), "1234567890");
    assert_eq!(u64_to_decimal(u64::MAX), "18446744073709551615");
    assert_eq!(i64_to_decimal(-42), "-42");
    assert_eq!(i64_to_decimal(i64::MIN), "-9223372036854775808");
}

#[test]
fn trimming_and_joining() {
    assert_eq!(trim_str("\u{3000}\t a b \u{2028}"), "a b");
    assert_eq!(trim_str("   "), "");
    assert_eq!(trim_str("x"), "x");
    assert_eq!(join_all(&vec!["a".to_string(), "b".to_string(), "c".to_string()], ", "), "a, b, c");
    assert_eq!(join_all(&Vec::new(), ","), "");
    assert!(str_eq("hover", "hover"));
    assert!(!str_eq("hover", "Hover"));
}

#[test]
fn number_texts() {
    let n = JsonNumber::integer(-7);
    assert_eq!(n.text, "-7");
    assert_eq!(n.css_text(), "-7");
    let f = JsonNumber { text: "2.0".to_string(), display: "2".to_string(), whole: true, truncated: 2 };
    assert_eq!(f.css_text(), "2");
}

#[test]
fn json_member_lookup_finds_first() {
    let v = Json::Object(vec![("a".to_string(), num(1)), ("b".to_string(), text("x")), ("a".to_string(), num(2))]);
    assert_eq!(v.str_field("b"), Some("x"));
    assert_eq!(v.number_field("a").map(|n| n.truncated), Some(1));
    assert!(v.get("c").is_none());
    assert!(text("a").get("a").is_none());
}

#[test]
fn state_selectors() {
    assert_eq!(selector_with_state(".a", "hover"), ".a:hover,.a:focus-visible");
    assert_eq!(selector_with_state(".a", "focus"), ".a:focus");
    assert_eq!(selector_with_state(".a", "e--selected"), ".a.e--selected");
    assert_eq!(selector_with_state(".a", "[open]"), ".a[open]");
    assert!(is_valid_state(None));
    assert!(is_valid_state(Some("checked")));
    assert!(is_valid_state(Some("e--selected")));
    assert!(!is_valid_state(Some("visited")));
}

#[test]
fn registry_read_after_write_and_fallback() {
    let mut r: TransformerRegistry<TransformerKind> = TransformerRegistry::default();
    assert_eq!(r.get("size").copied(), None);
    r.register("size".to_string(), TransformerKind::Size);
    r.register("flex".to_string(), TransformerKind::Flex);
    r.register("size".to_string(), TransformerKind::GridTrackSize);
    assert_eq!(r.get("size").copied(), Some(TransformerKind::GridTrackSize));
    assert_eq!(r.get("flex").copied(), Some(TransformerKind::Flex));
    assert_eq!(r.get("other").copied(), None);
    r.register_fallback(TransformerKind::Passthrough);
    assert_eq!(r.get("other").copied(), Some(TransformerKind::Passthrough));
    assert_eq!(r.get("flex").copied(), Some(TransformerKind::Flex));
}

#[test]
fn standard_registry_contents() {
    let r = build_registry();
    assert_eq!(r.get("color").copied(), Some(TransformerKind::Passthrough));
    assert_eq!(r.get("backdrop-filter").copied(), Some(TransformerKind::Filter));
    assert_eq!(r.get("perspective-origin").copied(), Some(TransformerKind::PerspectiveOrigin));
    assert_eq!(r.get("unknown-type").copied(), None);
}

#[test]
fn breakpoint_map_replaces_in_place() {
    let mut bp = BreakpointMap::new();
    bp.insert("mobile".to_string(), Breakpoint { direction: BreakpointDirection::Max, value: 767, is_enabled: true });
    bp.insert("mobile".to_string(), Breakpoint { direction: BreakpointDirection::Max, value: 600, is_enabled: true });
    assert_eq!(bp.get("mobile").map(|b| b.value), Some(600));
    assert!(bp.get("tablet").is_none());
}

#[test]
fn resolver_handles_untagged_null_unknown_and_multi() {
    let reg = build_registry();
    let resolver = PropsResolver::new(&reg);
    let out = resolver.resolve(&props(vec![
        ("display", text("flex")),
        ("gap", Json::Null),
        ("width", num(3)),
        ("odd", prop("no-such-type", text("x"))),
        ("stroke", prop("stroke", obj(vec![("width", text("2px")), ("color", text("red"))]))),
        ("stroke-width", prop("string", text("3px"))),
    ]));
    assert_eq!(
        out,
        decls(vec![
            ("display", "flex"),
            ("-webkit-text-stroke", "2px red"),
            ("stroke", "red"),
            ("stroke-width", "3px"),
        ])
    );
}

#[test]
fn resolver_resolves_nested_values_first() {
    let reg = build_registry();
    let resolver = PropsResolver::new(&reg);
    let transform = prop(
        "transform-functions",
        Json::Array(vec![
            prop("transform-move", obj(vec![("x", prop("size", obj(vec![("size", num(10)), ("unit", text("px"))])))])),
            text("rotate(5deg)"),
            prop("size", obj(vec![("unit", text("custom"))])),
        ]),
    );
    let shadow = prop(
        "shadow",
        obj(vec![("hOffset", prop("size", obj(vec![("size", num(2)), ("unit", text("px"))]))), ("color", prop("color", text("#000")))]),
    );
    let out = resolver.resolve(&props(vec![("transform", transform), ("box-shadow", shadow)]));
    assert_eq!(
        out,
        decls(vec![("transform", "translate3d(10px, 0px, 0px) rotate(5deg)"), ("box-shadow", "2px #000")])
    );
}

#[test]
fn resolver_skips_disabled_only() {
    let reg = build_registry();
    let resolver = PropsResolver::new(&reg);
    let disabled = obj(vec![("$$type", text("color")), ("value", text("red")), ("disabled", Json::Bool(true))]);
    let enabled = obj(vec![("$$type", text("color")), ("value", text("blue")), ("disabled", Json::Bool(false))]);
    let out = resolver.resolve(&props(vec![("color", disabled), ("background-color", enabled)]));
    assert_eq!(out, decls(vec![("background-color", "blue")]));
}

#[test]
fn renders_exact_rules() {
    let reg = build_registry();
    let mut bp = BreakpointMap::new();
    bp.insert("tablet".to_string(), Breakpoint { direction: BreakpointDirection::Min, value: 768, is_enabled: true });
    let styles = vec![class(
        "el",
        vec![
            variant(vec![("color", prop("color", text("red"))), ("margin", text(""))], None, None, None),
            variant(vec![], None, None, Some("outline:0;")),
            variant(vec![("color", prop("color", text("blue")))], Some("tablet"), Some("e--selected"), None),
            variant(vec![("color", prop("color", text("green")))], Some("unknown"), None, None),
            variant(vec![("margin", text(""))], None, None, None),
        ],
    )];
    let css = StylesRenderer::new(&reg, &bp).render(&styles);
    assert_eq!(
        css,
        ".elementor .el{color:red;}.elementor .el{outline:0;}@media(min-width:768px){.elementor .el.e--selected{color:blue;}}.elementor .el{color:green;}"
    );
}

#[test]
fn renders_without_prefix_and_with_css_name() {
    let reg = build_registry();
    let bp = BreakpointMap::new();
    let mut def = class("abc", vec![variant(vec![("color", prop("color", text("red")))], None, None, None)]);
    def.css_name = Some("title".to_string());
    let css = StylesRenderer::new(&reg, &bp).with_selector_prefix(String::new()).render(&vec![def]);
    assert_eq!(css, ".title{color:red;}");
}

#[test]
fn rendering_concatenates_definitions() {
    let reg = build_registry();
    let bp = BreakpointMap::new();
    let a = || class("a", vec![variant(vec![("color", prop("color", text("red")))], None, None, None)]);
    let b = || class("b", vec![variant(vec![("width", prop("size", obj(vec![("size", num(5))])))], None, None, None)]);
    let r = StylesRenderer::new(&reg, &bp);
    let both = r.render(&vec![a(), b()]);
    let first = r.render(&vec![a()]);
    let second = r.render(&vec![b()]);
    assert_eq!(both, format!("{}{}", first, second));
    assert_eq!(both, ".elementor .a{color:red;}.elementor .b{width:5px;}");
}

#[test]
fn empty_id_and_disabled_breakpoint_render_nothing() {
    let reg = build_registry();
    let mut bp = BreakpointMap::new();
    bp.insert("off".to_string(), Breakpoint { direction: BreakpointDirection::Max, value: 10, is_enabled: false });
    let r = StylesRenderer::new(&reg, &bp);
    assert_eq!(r.render(&vec![class("", vec![variant(vec![("color", prop("color", text("red")))], None, None, None)])]), "");
    assert_eq!(
        r.render(&vec![class(
            "x",
            vec![
                variant(vec![("color", prop("color", text("red")))], Some("off"), None, None),
                variant(vec![("color", prop("color", text("blue")))], None, None, None),
            ],
        )]),
        ".elementor .x{color:blue;}"
    );
}

struct Shout;

impl elementor_style_renderer::Transformer for Shout {
    fn transform_spec(&self, _value: JsonView, _ctx: ContextView) -> ResolvedView {
        unreachable!()
    }

    fn transform(&self, value: &Json, _ctx: &elementor_style_renderer::TransformerContext) -> elementor_style_renderer::Resolved {
        match value.as_str() {
            Some(s) => elementor_style_renderer::Resolved::Single(s.to_uppercase()),
            None => elementor_style_renderer::Resolved::Nothing,
        }
    }
}

#[test]
fn custom_transformer_in_registry() {
    let mut reg: TransformerRegistry<Shout> = TransformerRegistry::default();
    reg.register("shout".to_string(), Shout);
    let bp = BreakpointMap::new();
    let styles = vec![class("c", vec![variant(vec![("content", prop("shout", text("hi")))], None, None, None)])];
    let css = StylesRenderer::new(&reg, &bp).render(&styles);
    assert_eq!(css, ".elementor .c{content:HI;}");
}

#[test]
fn resolver_background_gives_only_declarations() {
    let reg = build_registry();
    let resolver = PropsResolver::new(&reg);
    let background = prop(
        "background",
        obj(vec![
            ("background-overlay", prop("background-overlay", Json::Array(vec![]))),
            ("color", prop("color", text("red"))),
        ]),
    );
    let out = resolver.resolve(&props(vec![("background", background)]));
    assert_eq!(out, decls(vec![("background-color", "red")]));
}

#[test]
fn resolver_background_takes_resolved_overlay_layers() {
    let reg = build_registry();
    let resolver = PropsResolver::new(&reg);
    let layer = obj(vec![("src", text("url(a.png)")), ("size", text("cover"))]);
    let background = prop(
        "background",
        obj(vec![
            ("background-overlay", prop("background-overlay", Json::Array(vec![layer]))),
            ("clip", text("text")),
        ]),
    );
    let out = resolver.resolve(&props(vec![("background", background)]));
    assert_eq!(
        out,
        decls(vec![
            ("background-image", "url(a.png)"),
            ("background-repeat", "repeat"),
            ("background-attachment", "scroll"),
            ("background-size", "cover"),
            ("background-position", "0% 0%"),
            ("background-clip", "text"),
        ])
    );
}

#[test]
fn resolver_scale_takes_tagged_numbers() {
    let reg = build_registry();
    let resolver = PropsResolver::new(&reg);
    let scale = prop(
        "transform-scale",
        obj(vec![
            ("x", prop("number", num(2))),
            ("y", prop("number", num(2))),
            ("z", prop("number", num(1))),
        ]),
    );
    let out = resolver.resolve(&props(vec![("transform", scale)]));
    assert_eq!(out, decls(vec![("transform", "scale3d(2, 2, 1)")]));
}

#[test]
fn resolver_gradient_and_stop_take_tagged_numbers() {
    let reg = build_registry();
    let resolver = PropsResolver::new(&reg);
    let gradient = prop(
        "background-gradient-overlay",
        obj(vec![("angle", prop("number", num(90))), ("stops", text("red 0%, blue 100%"))]),
    );
    let stop = prop(
        "color-stop",
        obj(vec![("color", prop("color", text("#fff"))), ("offset", prop("number", num(25)))]),
    );
    let out = resolver.resolve(&props(vec![("background-image", gradient), ("stop", stop)]));
    assert_eq!(
        out,
        decls(vec![
            ("background-image", "linear-gradient(90deg, red 0%, blue 100%)"),
            ("stop", "#fff 25%"),
        ])
    );
}

#[test]
fn resolver_drops_type_tag_members_of_overlay() {
    let reg = build_registry();
    let resolver = PropsResolver::new(&reg);
    let background = prop(
        "background",
        obj(vec![
            ("background-overlay", obj(vec![("$$type", text("x")), ("background-image", text("none"))])),
            ("color", text("blue")),
        ]),
    );
    let out = resolver.resolve(&props(vec![("background", background)]));
    assert_eq!(out, decls(vec![("background-image", "none"), ("background-color", "blue")]));
}

#[test]
fn resolver_background_takes_tagged_image_layers() {
    let reg = build_registry();
    let resolver = PropsResolver::new(&reg);
    let image = prop(
        "background-image-overlay",
        obj(vec![("image", obj(vec![("src", text("a.png"))])), ("size", text("cover"))]),
    );
    let background = prop(
        "background",
        obj(vec![("background-overlay", prop("background-overlay", Json::Array(vec![image])))]),
    );
    let out = resolver.resolve(&props(vec![("background", background)]));
    assert_eq!(
        out,
        decls(vec![
            ("background-image", "url(\"a.png\")"),
            ("background-repeat", "repeat"),
            ("background-attachment", "scroll"),
            ("background-size", "cover"),
            ("background-position", "0% 0%"),
        ])
    );
}

#[test]
fn resolver_keeps_members_that_resolve_to_nothing() {
    let reg = build_registry();
    let resolver = PropsResolver::new(&reg);
    let overlay = obj(vec![
        ("$$type", text("background-overlay")),
        ("value", Json::Array(vec![])),
        ("background-image", text("none")),
    ]);
    let background = prop("background", obj(vec![("background-overlay", overlay), ("color", text("red"))]));
    let out = resolver.resolve(&props(vec![("background", background)]));
    assert_eq!(out, decls(vec![("background-image", "none"), ("background-color", "red")]));
}
