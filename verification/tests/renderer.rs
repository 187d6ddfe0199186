use elementor_style_renderer::{
    build_registry, Breakpoint, BreakpointDirection, BreakpointMap, Json, JsonNumber,
    StyleDefinition, StyleVariant, StylesRenderer, TransformerKind, TransformerRegistry, VariantMeta,
};

fn text(s: &str) -> Json {
    Json::Str(s.to_string())
}

fn num(i: i64) -> Json {
    Json::Number(JsonNumber::integer(i))
}

fn obj(entries: Vec<(&str, Json)>) -> Json {
    Json::Object(entries.into_iter().map(|(k, v)| (k.to_string(), v)).collect())
}

fn prop(type_key: &str, value: Json) -> Json {
    obj(vec![("$$type", text(type_key)), ("value", value)])
}

fn meta(breakpoint: Option<&str>, state: Option<&str>) -> VariantMeta {
    VariantMeta {
        breakpoint: breakpoint.map(|s| s.to_string()),
        state: state.map(|s| s.to_string()),
    }
}

fn variant(props: Vec<(&str, Json)>, meta: VariantMeta) -> StyleVariant {
    StyleVariant {
        props: props.into_iter().map(|(k, v)| (k.to_string(), v)).collect(),
        meta,
        custom_css: None,
    }
}

fn definition(id: &str, style_type: &str, css_name: Option<&str>, variants: Vec<StyleVariant>) -> StyleDefinition {
    StyleDefinition {
        id: id.to_string(),
        style_type: style_type.to_string(),
        css_name: css_name.map(|s| s.to_string()),
        variants,
    }
}

fn renderer<'a>(reg: &'a TransformerRegistry<TransformerKind>, bp: &'a BreakpointMap) -> StylesRenderer<'a, TransformerKind> {
    StylesRenderer::new(reg, bp)
}

fn no_breakpoints() -> BreakpointMap {
    BreakpointMap::new()
}

#[test]
fn renders_color_prop() {
    let reg = build_registry();
    let bp = no_breakpoints();
    let r = renderer(&reg, &bp);
    let styles = vec![definition(
        "my-class",
        "class",
        None,
        vec![variant(vec![("color", prop("color", text("red")))], meta(None, None))],
    )];
    let css = r.render(&styles);
    assert!(css.contains("color:red;"), "got: {}", css);
}

#[test]
fn renders_size_px() {
    let reg = build_registry();
    let bp = no_breakpoints();
    let styles = vec![definition(
        "h",
        "class",
        None,
        vec![variant(
            vec![("font-size", prop("size", obj(vec![("size", num(16)), ("unit", text("px"))])))],
            meta(None, None),
        )],
    )];
    let css = renderer(&reg, &bp).render(&styles);
    assert!(css.contains("font-size:16px;"), "got: {}", css);
}

#[test]
fn renders_size_auto() {
    let reg = build_registry();
    let bp = no_breakpoints();
    let styles = vec![definition(
        "h",
        "class",
        None,
        vec![variant(
            vec![("width", prop("size", obj(vec![("size", Json::Null), ("unit", text("auto"))])))],
            meta(None, None),
        )],
    )];
    let css = renderer(&reg, &bp).render(&styles);
    assert!(css.contains("width:auto;"), "got: {}", css);
}

#[test]
fn renders_size_custom() {
    let reg = build_registry();
    let bp = no_breakpoints();
    let styles = vec![definition(
        "h",
        "class",
        None,
        vec![variant(
            vec![(
                "width",
                prop(
                    "size",
                    obj(vec![("size", text("calc(100% - 20px)")), ("unit", text("custom"))]),
                ),
            )],
            meta(None, None),
        )],
    )];
    let css = renderer(&reg, &bp).render(&styles);
    assert!(css.contains("width:calc(100% - 20px);"), "got: {}", css);
}

#[test]
fn uses_selector_prefix() {
    let reg = build_registry();
    let bp = no_breakpoints();
    let styles = vec![definition(
        "my-class",
        "class",
        None,
        vec![variant(vec![("color", prop("color", text("blue")))], meta(None, None))],
    )];
    let css = StylesRenderer::new(&reg, &bp)
        .with_selector_prefix(".e-widget".to_string())
        .render(&styles);
    assert!(css.starts_with(".e-widget .my-class{"), "got: {}", css);
}

#[test]
fn uses_css_name_when_provided() {
    let reg = build_registry();
    let bp = no_breakpoints();
    let styles = vec![definition(
        "abc123",
        "class",
        Some("my-heading"),
        vec![variant(vec![("color", prop("color", text("green")))], meta(None, None))],
    )];
    let css = renderer(&reg, &bp).render(&styles);
    assert!(css.contains(".my-heading{"), "got: {}", css);
}

#[test]
fn renders_hover_state() {
    let reg = build_registry();
    let bp = no_breakpoints();
    let styles = vec![definition(
        "my-class",
        "class",
        None,
        vec![variant(vec![("color", prop("color", text("pink")))], meta(None, Some("hover")))],
    )];
    let css = renderer(&reg, &bp).render(&styles);
    assert!(css.contains(":hover,"), "got: {}", css);
    assert!(css.contains(":focus-visible{"), "got: {}", css);
}

#[test]
fn wraps_with_max_width_media_query() {
    let reg = build_registry();
    let mut bp = BreakpointMap::new();
    bp.insert(
        "mobile".to_string(),
        Breakpoint { direction: BreakpointDirection::Max, value: 767, is_enabled: true },
    );
    let styles = vec![definition(
        "el",
        "class",
        None,
        vec![variant(vec![("color", prop("color", text("red")))], meta(Some("mobile"), None))],
    )];
    let css = renderer(&reg, &bp).render(&styles);
    assert!(css.starts_with("@media(max-width:767px){"), "got: {}", css);
}

#[test]
fn disabled_breakpoint_returns_empty() {
    let reg = build_registry();
    let mut bp = BreakpointMap::new();
    bp.insert(
        "tablet".to_string(),
        Breakpoint { direction: BreakpointDirection::Min, value: 768, is_enabled: false },
    );
    let styles = vec![definition(
        "el",
        "class",
        None,
        vec![variant(vec![("color", prop("color", text("red")))], meta(Some("tablet"), None))],
    )];
    let css = renderer(&reg, &bp).render(&styles);
    assert!(css.is_empty(), "got: {}", css);
}

#[test]
fn skips_non_class_types() {
    let reg = build_registry();
    let bp = no_breakpoints();
    let styles = vec![definition(
        "foo",
        "id",
        None,
        vec![variant(vec![("color", prop("color", text("red")))], meta(None, None))],
    )];
    let css = renderer(&reg, &bp).render(&styles);
    assert!(css.is_empty());
}

#[test]
fn renders_flex_three_values() {
    let reg = build_registry();
    let bp = no_breakpoints();
    let styles = vec![definition(
        "el",
        "class",
        None,
        vec![variant(
            vec![(
                "flex",
                prop(
                    "flex",
                    obj(vec![
                        ("flexGrow", text("1")),
                        ("flexShrink", text("2")),
                        ("flexBasis", obj(vec![("size", num(50)), ("unit", text("px"))])),
                    ]),
                ),
            )],
            meta(None, None),
        )],
    )];
    let css = renderer(&reg, &bp).render(&styles);
    assert!(css.contains("flex:1 2 50px;"), "got: {}", css);
}

#[test]
fn quotes_font_family() {
    let reg = build_registry();
    let bp = no_breakpoints();
    let styles = vec![definition(
        "el",
        "class",
        None,
        vec![variant(vec![("font-family", prop("font-family", text("Inter")))], meta(None, None))],
    )];
    let css = renderer(&reg, &bp).render(&styles);
    assert!(css.contains("font-family:\"Inter\";"), "got: {}", css);
}

#[test]
fn renders_multiple_variants() {
    let reg = build_registry();
    let mut bp = BreakpointMap::new();
    bp.insert(
        "mobile".to_string(),
        Breakpoint { direction: BreakpointDirection::Max, value: 767, is_enabled: true },
    );
    let styles = vec![definition(
        "el",
        "class",
        None,
        vec![
            variant(vec![("color", prop("color", text("red")))], meta(None, None)),
            variant(vec![("color", prop("color", text("blue")))], meta(Some("mobile"), None)),
        ],
    )];
    let css = renderer(&reg, &bp).render(&styles);
    assert!(css.contains("color:red;"));
    assert!(css.contains("@media(max-width:767px)"));
    assert!(css.contains("color:blue;"));
}

#[test]
fn skips_disabled_prop() {
    let reg = build_registry();
    let bp = no_breakpoints();
    let styles = vec![definition(
        "el",
        "class",
        None,
        vec![variant(
            vec![(
                "color",
                obj(vec![
                    ("$$type", text("color")),
                    ("value", text("red")),
                    ("disabled", Json::Bool(true)),
                ]),
            )],
            meta(None, None),
        )],
    )];
    let css = renderer(&reg, &bp).render(&styles);
    assert!(!css.contains("color:"), "disabled prop should not appear; got: {}", css);
}

#[test]
fn renders_grid_track_fr() {
    let reg = build_registry();
    let bp = no_breakpoints();
    let styles = vec![definition(
        "el",
        "class",
        None,
        vec![variant(
            vec![(
                "grid-template-columns",
                prop("grid-track-size", obj(vec![("size", num(3)), ("unit", text("fr"))])),
            )],
            meta(None, None),
        )],
    )];
    let css = renderer(&reg, &bp).render(&styles);
    assert!(css.contains("grid-template-columns:repeat(3, 1fr);"), "got: {}", css);
}

#[test]
fn renders_shadow() {
    let reg = build_registry();
    let bp = no_breakpoints();
    let styles = vec![definition(
        "el",
        "class",
        None,
        vec![variant(
            vec![(
                "box-shadow",
                prop(
                    "shadow",
                    obj(vec![
                        ("hOffset", text("2px")),
                        ("vOffset", text("4px")),
                        ("blur", text("8px")),
                        ("spread", text("0px")),
                        ("color", text("#000")),
                    ]),
                ),
            )],
            meta(None, None),
        )],
    )];
    let css = renderer(&reg, &bp).render(&styles);
    assert!(css.contains("box-shadow:2px 4px 8px 0px #000;"), "got: {}", css);
}
