use elementor_style_renderer::transformers::{
    BackgroundColorOverlayTransformer, BackgroundGradientOverlayTransformer,
    BackgroundImageOverlaySizeScaleTransformer, BackgroundImageOverlayTransformer,
    BackgroundOverlayTransformer, BackgroundTransformer, ColorStopTransformer, FilterTransformer,
    FlexTransformer, FontFamilyTransformer, GridTrackSizeTransformer, PassthroughTransformer,
    PerspectiveOriginTransformer, PositionTransformer, ShadowTransformer, SizeTransformer,
    SpanTransformer, StrokeTransformer, TransformFunctionsTransformer, TransformMoveTransformer,
    TransformOriginTransformer, TransformRotateTransformer, TransformScaleTransformer,
    TransformSkewTransformer, TransitionTransformer,
};
use elementor_style_renderer::{Json, JsonNumber, Resolved, Transformer, TransformerContext};

fn text(s: &str) -> Json {
    Json::Str(s.to_string())
}

fn num(i: i64) -> Json {
    Json::Number(JsonNumber::integer(i))
}

fn fraction(text: &str) -> Json {
    Json::Number(JsonNumber {
        text: text.to_string(),
        display: text.to_string(),
        whole: false,
        truncated: 0,
    })
}

fn obj(entries: Vec<(&str, Json)>) -> Json {
    Json::Object(entries.into_iter().map(|(k, v)| (k.to_string(), v)).collect())
}

fn ctx() -> TransformerContext {
    TransformerContext::new("prop".to_string())
}

fn single(s: &str) -> Resolved {
    Resolved::Single(s.to_string())
}

fn multi(pairs: Vec<(&str, &str)>) -> Resolved {
    Resolved::Multi(pairs.into_iter().map(|(k, v)| (k.to_string(), v.to_string())).collect())
}

#[test]
fn size_formats_whole_and_fractional_numbers() {
    let c = ctx();
    assert_eq!(SizeTransformer.transform(&obj(vec![("size", num(16)), ("unit", text("px"))]), &c), single("16px"));
    assert_eq!(SizeTransformer.transform(&obj(vec![("size", fraction("1.5")), ("unit", text("em"))]), &c), single("1.5em"));
    assert_eq!(SizeTransformer.transform(&obj(vec![("size", num(-3))]), &c), single("-3px"));
}

#[test]
fn size_edge_cases() {
    let c = ctx();
    assert_eq!(SizeTransformer.transform(&obj(vec![("size", num(7)), ("unit", text("auto"))]), &c), single("auto"));
    assert_eq!(SizeTransformer.transform(&obj(vec![("unit", text("custom"))]), &c), Resolved::Nothing);
    assert_eq!(SizeTransformer.transform(&obj(vec![("size", text("10")), ("unit", text("px"))]), &c), Resolved::Nothing);
    assert_eq!(SizeTransformer.transform(&text("12px"), &c), Resolved::Nothing);
}

#[test]
fn grid_track_size_units() {
    let c = ctx();
    assert_eq!(GridTrackSizeTransformer.transform(&obj(vec![("size", num(0)), ("unit", text("fr"))]), &c), Resolved::Nothing);
    assert_eq!(GridTrackSizeTransformer.transform(&obj(vec![("unit", text("fr"))]), &c), single("repeat(1, 1fr)"));
    assert_eq!(GridTrackSizeTransformer.transform(&obj(vec![("size", num(12)), ("unit", text("px"))]), &c), single("12px"));
    assert_eq!(GridTrackSizeTransformer.transform(&obj(vec![("size", text("1fr 2fr")), ("unit", text("custom"))]), &c), single("1fr 2fr"));
}

#[test]
fn flex_shorthand_cases() {
    let c = ctx();
    assert_eq!(FlexTransformer.transform(&obj(vec![]), &c), Resolved::Nothing);
    assert_eq!(FlexTransformer.transform(&obj(vec![("flexGrow", text("1")), ("flexShrink", text("0"))]), &c), single("1 0"));
    assert_eq!(FlexTransformer.transform(&obj(vec![("flexGrow", text("2")), ("flexBasis", text("auto"))]), &c), single("2 1 auto"));
    assert_eq!(FlexTransformer.transform(&obj(vec![("flexShrink", text("3")), ("flexBasis", num(10))]), &c), single("0 3 10"));
    assert_eq!(FlexTransformer.transform(&obj(vec![("flexGrow", text("4"))]), &c), single("4"));
    assert_eq!(FlexTransformer.transform(&obj(vec![("flexShrink", text("5"))]), &c), single("0 5"));
    assert_eq!(FlexTransformer.transform(&obj(vec![("flexBasis", obj(vec![("size", num(30)), ("unit", text("%"))]))]), &c), single("0 1 30%"));
    assert_eq!(FlexTransformer.transform(&obj(vec![("flexGrow", text("")), ("flexShrink", num(1))]), &c), Resolved::Nothing);
}

#[test]
fn shadow_skips_missing_and_empty_fields() {
    let c = ctx();
    let v = obj(vec![("hOffset", text("1px")), ("blur", text("")), ("color", text("red")), ("position", text("inset"))]);
    assert_eq!(ShadowTransformer.transform(&v, &c), single("1px red inset"));
    assert_eq!(ShadowTransformer.transform(&obj(vec![]), &c), Resolved::Nothing);
}

#[test]
fn filter_functions() {
    let c = ctx();
    let v = Json::Array(vec![
        obj(vec![("func", text("blur")), ("args", obj(vec![("size", text("5px"))]))]),
        obj(vec![("func", text("drop-shadow")), ("args", obj(vec![("xAxis", text("1px"))]))]),
        obj(vec![("func", text("brightness")), ("args", obj(vec![]))]),
        obj(vec![("func", text("contrast"))]),
    ]);
    assert_eq!(FilterTransformer.transform(&v, &c), single("blur(5px) drop-shadow(1px 0px 10px transparent)"));
    assert_eq!(FilterTransformer.transform(&Json::Array(vec![]), &c), Resolved::Nothing);
    assert_eq!(FilterTransformer.transform(&text("blur(1px)"), &c), Resolved::Nothing);
}

#[test]
fn transform_functions_join_strings() {
    let c = ctx();
    let v = Json::Array(vec![text("translateX(1px)"), num(3), text("rotate(4deg)")]);
    assert_eq!(TransformFunctionsTransformer.transform(&v, &c), single("translateX(1px) rotate(4deg)"));
    assert_eq!(TransformFunctionsTransformer.transform(&Json::Array(vec![num(1)]), &c), Resolved::Nothing);
}

#[test]
fn transform_move_rotate_skew_defaults() {
    let c = ctx();
    assert_eq!(TransformMoveTransformer.transform(&obj(vec![("y", text("5px"))]), &c), single("translate3d(0px, 5px, 0px)"));
    assert_eq!(TransformRotateTransformer.transform(&obj(vec![("z", text("90deg"))]), &c), single("rotateX(0deg) rotateY(0deg) rotateZ(90deg)"));
    assert_eq!(TransformSkewTransformer.transform(&obj(vec![("x", text("10deg"))]), &c), single("skew(10deg, 0deg)"));
}

#[test]
fn transform_scale_factors() {
    let c = ctx();
    assert_eq!(TransformScaleTransformer.transform(&obj(vec![("x", num(2)), ("z", fraction("0.5"))]), &c), single("scale3d(2, 1, 0.5)"));
    assert_eq!(TransformScaleTransformer.transform(&obj(vec![("y", text("3"))]), &c), single("scale3d(1, 3, 1)"));
}

#[test]
fn transform_origin_default_is_omitted() {
    let c = ctx();
    let default = obj(vec![("x", text("50%")), ("y", text("50%"))]);
    assert_eq!(TransformOriginTransformer.transform(&default, &c), Resolved::Nothing);
    let other = obj(vec![("x", text("0%")), ("y", text("50%")), ("z", text("2px"))]);
    assert_eq!(TransformOriginTransformer.transform(&other, &c), single("0% 50% 2px"));
    assert_eq!(TransformOriginTransformer.transform(&obj(vec![]), &c), single("0px 0px 0px"));
}

#[test]
fn background_collects_overlay_color_and_clip() {
    let c = ctx();
    let v = obj(vec![
        ("background-overlay", obj(vec![("background-image", text("url(a)")), ("background-color", text("blue")), ("ignored", num(1))])),
        ("color", text("red")),
        ("clip", text("text")),
    ]);
    assert_eq!(
        BackgroundTransformer.transform(&v, &c),
        multi(vec![("background-image", "url(a)"), ("background-color", "red"), ("background-clip", "text")])
    );
    assert_eq!(BackgroundTransformer.transform(&obj(vec![]), &c), Resolved::Nothing);
}

#[test]
fn background_overlay_layers() {
    let c = ctx();
    let v = Json::Array(vec![
        obj(vec![("src", text("url(\"a.png\")")), ("repeat", text("no-repeat")), ("size", text("cover"))]),
        obj(vec![("repeat", text("repeat-x"))]),
        obj(vec![("src", text("url(\"b.png\")")), ("repeat", text("no-repeat")), ("size", text(""))]),
    ]);
    assert_eq!(
        BackgroundOverlayTransformer.transform(&v, &c),
        multi(vec![
            ("background-image", "url(\"a.png\"),url(\"b.png\")"),
            ("background-repeat", "no-repeat"),
            ("background-attachment", "scroll"),
            ("background-size", "cover,auto auto"),
            ("background-position", "0% 0%"),
        ])
    );
    let same = Json::Array(vec![obj(vec![("src", text("x"))]), obj(vec![("src", text("x"))])]);
    assert_eq!(
        BackgroundOverlayTransformer.transform(&same, &c),
        multi(vec![
            ("background-image", "x,x"),
            ("background-repeat", "repeat"),
            ("background-attachment", "scroll"),
            ("background-size", "auto auto"),
            ("background-position", "0% 0%"),
        ])
    );
    assert_eq!(BackgroundOverlayTransformer.transform(&Json::Array(vec![obj(vec![])]), &c), Resolved::Nothing);
}

#[test]
fn background_color_and_gradient_overlays() {
    let c = ctx();
    assert_eq!(BackgroundColorOverlayTransformer.transform(&obj(vec![("color", text("#fff"))]), &c), single("linear-gradient(#fff, #fff)"));
    assert_eq!(BackgroundColorOverlayTransformer.transform(&obj(vec![("color", text(""))]), &c), Resolved::Nothing);
    assert_eq!(BackgroundGradientOverlayTransformer.transform(&obj(vec![]), &c), single("linear-gradient(180deg, )"));
    assert_eq!(
        BackgroundGradientOverlayTransformer.transform(&obj(vec![("angle", num(90)), ("stops", text("red 0%, blue 100%"))]), &c),
        single("linear-gradient(90deg, red 0%, blue 100%)")
    );
    assert_eq!(
        BackgroundGradientOverlayTransformer.transform(&obj(vec![("type", text("radial")), ("stops", text("red, blue"))]), &c),
        single("radial-gradient(circle at center, red, blue)")
    );
}

#[test]
fn background_image_overlay_fields() {
    let c = ctx();
    assert_eq!(BackgroundImageOverlayTransformer.transform(&obj(vec![]), &c), single(""));
    let v = obj(vec![("image", obj(vec![("src", text("a.png"))])), ("size", text("cover")), ("repeat", text("no-repeat"))]);
    assert_eq!(
        BackgroundImageOverlayTransformer.transform(&v, &c),
        multi(vec![("src", "url(\"a.png\")"), ("repeat", "no-repeat"), ("size", "cover")])
    );
    assert_eq!(BackgroundImageOverlaySizeScaleTransformer.transform(&obj(vec![("width", text("10px"))]), &c), single("10px auto"));
}

#[test]
fn span_and_font_family_trim() {
    let c = ctx();
    assert_eq!(SpanTransformer.transform(&text("  2 \t"), &c), single("2"));
    assert_eq!(SpanTransformer.transform(&text("\u{3000} \n"), &c), Resolved::Nothing);
    assert_eq!(SpanTransformer.transform(&num(2), &c), Resolved::Nothing);
    assert_eq!(FontFamilyTransformer.transform(&text("  Open Sans "), &c), single("\"Open Sans\""));
    assert_eq!(FontFamilyTransformer.transform(&text("'Roboto'"), &c), single("'Roboto'"));
    assert_eq!(FontFamilyTransformer.transform(&text("\"A'"), &c), single("\"\"A'\""));
    assert_eq!(FontFamilyTransformer.transform(&text("   "), &c), Resolved::Nothing);
}

#[test]
fn positions_and_color_stop() {
    let c = ctx();
    assert_eq!(PositionTransformer.transform(&obj(vec![("x", text("10%"))]), &c), single("10% 0px"));
    assert_eq!(PerspectiveOriginTransformer.transform(&obj(vec![("y", text("top"))]), &c), single("0px top"));
    assert_eq!(ColorStopTransformer.transform(&obj(vec![("color", text("#fff")), ("offset", num(25))]), &c), single("#fff 25%"));
    assert_eq!(ColorStopTransformer.transform(&obj(vec![("color", text("#000"))]), &c), single("#000 0%"));
    assert_eq!(ColorStopTransformer.transform(&obj(vec![("offset", num(25))]), &c), Resolved::Nothing);
}

#[test]
fn stroke_emits_three_declarations() {
    let c = ctx();
    assert_eq!(
        StrokeTransformer.transform(&obj(vec![("width", text("1px")), ("color", text("red"))]), &c),
        multi(vec![("-webkit-text-stroke", "1px red"), ("stroke", "red"), ("stroke-width", "1px")])
    );
    assert_eq!(StrokeTransformer.transform(&obj(vec![]), &c), Resolved::Nothing);
}

#[test]
fn transitions() {
    let c = ctx();
    let t = |prop: &str, size: &str| obj(vec![("selection", obj(vec![("value", text(prop))])), ("size", text(size))]);
    let v = Json::Array(vec![t("all", "0.3s"), t("color", "1s"), t("all", "200ms ")]);
    assert_eq!(TransitionTransformer.transform(&v, &c), single("all 0.3s, all 200ms"));
    assert_eq!(TransitionTransformer.transform(&Json::Array(vec![t("opacity", "1s")]), &c), single(""));
    assert_eq!(TransitionTransformer.transform(&text("all 1s"), &c), single(""));
}

#[test]
fn passthrough_values() {
    let c = ctx();
    assert_eq!(PassthroughTransformer.transform(&text("red"), &c), single("red"));
    assert_eq!(PassthroughTransformer.transform(&num(12), &c), single("12"));
    assert_eq!(PassthroughTransformer.transform(&Json::Bool(true), &c), Resolved::Nothing);
}
