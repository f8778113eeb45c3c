use galileo_maplibre::json::{JsonNumber, JsonValue, Num};
use galileo_maplibre::ml_expr::{Interpolation, InterpolationError, MlExpr, MlExprError};

fn num(x: f64) -> Num {
    Num { bits: x.to_bits() }
}

fn from_serde(v: &serde_json::Value) -> JsonValue {
    match v {
        serde_json::Value::Null => JsonValue::Null,
        serde_json::Value::Bool(b) => JsonValue::Bool(*b),
        serde_json::Value::Number(n) => JsonValue::Number(JsonNumber {
            value: num(n.as_f64().unwrap()),
            unsigned: n.as_u64(),
        }),
        serde_json::Value::String(s) => JsonValue::String(s.clone()),
        serde_json::Value::Array(a) => JsonValue::Array(a.iter().map(from_serde).collect()),
        serde_json::Value::Object(m) => {
            JsonValue::Object(m.iter().map(|(k, v)| (k.clone(), from_serde(v))).collect())
        }
    }
}

fn js(text: &str) -> JsonValue {
    from_serde(&serde_json::from_str::<serde_json::Value>(text).unwrap())
}

fn parse(text: &str) -> MlExpr {
    MlExpr::from_json(js(text)).unwrap()
}

fn interp(text: &str) -> Interpolation {
    Interpolation::from_json(js(text)).unwrap()
}

#[test]
fn interpolation_linear() {
    let i = interp(r#"["linear"]"#);
    assert_eq!(i, Interpolation::Linear);
}

#[test]
fn interpolation_exponential() {
    let i = interp(r#"["exponential", 1.5]"#);
    assert_eq!(i, Interpolation::Exponential { base: num(1.5) });
}

#[test]
fn interpolation_cubic_bezier() {
    let i = interp(r#"["cubic-bezier", 0.0, 0.0, 1.0, 1.0]"#);
    assert_eq!(
        i,
        Interpolation::CubicBezier { x1: num(0.0), y1: num(0.0), x2: num(1.0), y2: num(1.0) }
    );
}

#[test]
fn literal_number_as_arg() {
    let e = parse(r#"["step", ["zoom"], 0, 5, 1]"#);
    match e {
        MlExpr::Step { default_output, .. } => {
            assert!(matches!(*default_output, MlExpr::Literal(JsonValue::Number(_))));
        }
        other => panic!("expected Step, got {other:?}"),
    }
}

#[test]
fn literal_string_as_arg() {
    let e = parse(r#"["get", "name"]"#);
    match e {
        MlExpr::Get { property, .. } => {
            assert_eq!(property, "name");
        }
        other => panic!("expected Get, got {other:?}"),
    }
}

#[test]
fn literal_bool_as_arg() {
    let e = parse(r#"["!", false]"#);
    assert!(matches!(e, MlExpr::Not(inner) if matches!(*inner, MlExpr::Literal(JsonValue::Bool(_)))));
}

#[test]
fn zoom() {
    assert_eq!(parse(r#"["zoom"]"#), MlExpr::Zoom);
}

#[test]
fn geometry_type() {
    assert_eq!(parse(r#"["geometry-type"]"#), MlExpr::GeometryType);
}

#[test]
fn id_expr() {
    assert_eq!(parse(r#"["id"]"#), MlExpr::Id);
}

#[test]
fn heatmap_density() {
    assert_eq!(parse(r#"["heatmap-density"]"#), MlExpr::HeatmapDensity);
}

#[test]
fn get_no_object() {
    let e = parse(r#"["get", "name"]"#);
    assert!(matches!(e, MlExpr::Get { object: None, .. }));
}

#[test]
fn get_with_object() {
    let e = parse(r#"["get", "name", ["properties"]]"#);
    assert!(matches!(e, MlExpr::Get { object: Some(_), .. }));
}

#[test]
fn has_expr() {
    let e = parse(r#"["has", "population"]"#);
    assert!(matches!(e, MlExpr::Has { object: None, .. }));
}

#[test]
fn step_expr() {
    let e = parse(r#"["step", ["zoom"], 0.5, 12, 1.0, 15, 2.0]"#);
    match e {
        MlExpr::Step { stops, .. } => assert_eq!(stops.len(), 2),
        other => panic!("expected Step, got {other:?}"),
    }
}

#[test]
fn interpolate_linear_zoom() {
    let e = parse(r#"["interpolate", ["linear"], ["zoom"], 5, 1.0, 10, 4.0]"#);
    match e {
        MlExpr::Interpolate { interpolation, stops, .. } => {
            assert_eq!(interpolation, Interpolation::Linear);
            assert_eq!(stops.len(), 2);
        }
        other => panic!("expected Interpolate, got {other:?}"),
    }
}

#[test]
fn interpolate_exponential() {
    let e = parse(r#"["interpolate", ["exponential", 1.4], ["zoom"], 5, 1.0, 10, 4.0]"#);
    match e {
        MlExpr::Interpolate { interpolation, .. } => {
            assert_eq!(interpolation, Interpolation::Exponential { base: num(1.4) });
        }
        other => panic!("expected Interpolate, got {other:?}"),
    }
}

#[test]
fn interpolate_hcl() {
    let e = parse(r##"["interpolate-hcl", ["linear"], ["zoom"], 0, "#f00", 10, "#00f"]"##);
    assert!(matches!(e, MlExpr::InterpolateHcl { .. }));
}

#[test]
fn add_expr() {
    let e = parse(r#"["+", 1, 2, 3]"#);
    match e {
        MlExpr::Add(args) => assert_eq!(args.len(), 3),
        other => panic!("expected Add, got {other:?}"),
    }
}

#[test]
fn sub_unary() {
    let e = parse(r#"["-", ["get", "val"]]"#);
    assert!(matches!(e, MlExpr::Sub(_, None)));
}

#[test]
fn sub_binary() {
    let e = parse(r#"["-", 10, 3]"#);
    assert!(matches!(e, MlExpr::Sub(_, Some(_))));
}

#[test]
fn math_constants() {
    assert_eq!(parse(r#"["ln2"]"#), MlExpr::Ln2);
    assert_eq!(parse(r#"["pi"]"#), MlExpr::Pi);
    assert_eq!(parse(r#"["e"]"#), MlExpr::E);
}

#[test]
fn case_expr() {
    let e = parse(r#"["case", ["has", "name"], "yes", "no"]"#);
    match e {
        MlExpr::Case { branches, .. } => assert_eq!(branches.len(), 1),
        other => panic!("expected Case, got {other:?}"),
    }
}

#[test]
fn match_expr_scalar_labels() {
    let e = parse(
        r##"["match", ["get", "class"], "residential", "#f00", "commercial", "#0f0", "#000"]"##,
    );
    match e {
        MlExpr::Match { branches, .. } => {
            assert_eq!(branches.len(), 2);
            assert_eq!(branches[0].0, js(r#""residential""#));
        }
        other => panic!("expected Match, got {other:?}"),
    }
}

#[test]
fn match_expr_array_labels() {
    let e = parse(r#"["match", ["get", "n"], [1, 2], "low", "other"]"#);
    match e {
        MlExpr::Match { branches, .. } => {
            assert_eq!(branches[0].0, js("[1, 2]"));
        }
        other => panic!("expected Match, got {other:?}"),
    }
}

#[test]
fn all_any_not() {
    assert!(matches!(parse(r#"["all", true, false]"#), MlExpr::All(_)));
    assert!(matches!(parse(r#"["any", true, false]"#), MlExpr::Any(_)));
    assert!(matches!(parse(r#"["!", true]"#), MlExpr::Not(_)));
}

#[test]
fn comparison_ops() {
    assert!(matches!(parse(r#"["==", 1, 1]"#), MlExpr::Eq(_, _)));
    assert!(matches!(parse(r#"["!=", 1, 2]"#), MlExpr::Ne(_, _)));
    assert!(matches!(parse(r#"[">", 2, 1]"#), MlExpr::Gt(_, _)));
    assert!(matches!(parse(r#"[">=", 2, 2]"#), MlExpr::Gte(_, _)));
    assert!(matches!(parse(r#"["<", 1, 2]"#), MlExpr::Lt(_, _)));
    assert!(matches!(parse(r#"["<=", 1, 2]"#), MlExpr::Lte(_, _)));
}

#[test]
fn literal_expr() {
    let e = parse(r#"["literal", [1, 2, 3]]"#);
    assert!(matches!(e, MlExpr::LiteralExpr(JsonValue::Array(_))));
}

#[test]
fn array_assertion_bare() {
    let e = parse(r#"["array", ["get", "coords"]]"#);
    assert!(matches!(e, MlExpr::ArrayAssertion { element_type: None, length: None, .. }));
}

#[test]
fn array_assertion_typed() {
    let e = parse(r#"["array", "number", ["get", "coords"]]"#);
    match e {
        MlExpr::ArrayAssertion { element_type, length, .. } => {
            assert_eq!(element_type.as_deref(), Some("number"));
            assert!(length.is_none());
        }
        other => panic!("expected ArrayAssertion, got {other:?}"),
    }
}

#[test]
fn array_assertion_typed_and_length() {
    let e = parse(r#"["array", "string", 3, ["literal", ["a", "b", "c"]]]"#);
    match e {
        MlExpr::ArrayAssertion { element_type, length, .. } => {
            assert_eq!(element_type.as_deref(), Some("string"));
            assert_eq!(length, Some(3));
        }
        other => panic!("expected ArrayAssertion, got {other:?}"),
    }
}

#[test]
fn concat_expr() {
    let e = parse(r#"["concat", "hello", " ", "world"]"#);
    match e {
        MlExpr::Concat(args) => assert_eq!(args.len(), 3),
        other => panic!("expected Concat, got {other:?}"),
    }
}

#[test]
fn upcase_downcase() {
    assert!(matches!(parse(r#"["upcase", "hi"]"#), MlExpr::Upcase(_)));
    assert!(matches!(parse(r#"["downcase", "HI"]"#), MlExpr::Downcase(_)));
}

#[test]
fn let_var_binding() {
    let e = parse(r#"["let", "x", 42, ["var", "x"]]"#);
    match e {
        MlExpr::Let { bindings, body } => {
            assert_eq!(bindings.len(), 1);
            assert_eq!(bindings[0].0, "x");
            assert!(matches!(*body, MlExpr::Var(ref s) if s == "x"));
        }
        other => panic!("expected Let, got {other:?}"),
    }
}

#[test]
fn unknown_operator() {
    let e = parse(r#"["future-operator", 1, 2]"#);
    match e {
        MlExpr::Unknown { operator, args } => {
            assert_eq!(operator, "future-operator");
            assert_eq!(args.len(), 2);
        }
        other => panic!("expected Unknown, got {other:?}"),
    }
}

#[test]
fn nested_get_in_comparison() {
    let e = parse(r#"[">=", ["get", "mag"], 4]"#);
    match e {
        MlExpr::Gte(left, right) => {
            assert!(matches!(*left, MlExpr::Get { .. }));
            assert!(matches!(*right, MlExpr::Literal(_)));
        }
        other => panic!("expected Gte, got {other:?}"),
    }
}

#[test]
fn rgb_expr() {
    let e = parse(r#"["rgb", 255, 0, 128]"#);
    assert!(matches!(e, MlExpr::Rgb(_, _, _)));
}

#[test]
fn feature_state_expr() {
    let e = parse(r#"["feature-state", "hover"]"#);
    assert!(matches!(e, MlExpr::FeatureState(_)));
}

#[test]
fn format_expr() {
    let e = parse(r#"["format", ["get", "name"], {"font-scale": 0.8}, "\n", {}]"#);
    match e {
        MlExpr::Format(sections) => {
            assert_eq!(sections.len(), 2);
            assert!(sections[0].1.is_some());
            assert!(sections[1].1.is_some());
        }
        other => panic!("expected Format, got {other:?}"),
    }
}

// Errors and laws of the expression reader.

#[test]
fn empty_array_is_an_error() {
    assert_eq!(MlExpr::from_json(js("[]")), Err(MlExprError::EmptyArray));
}

#[test]
fn top_level_non_array_is_an_error() {
    assert_eq!(MlExpr::from_json(js("5")), Err(MlExprError::NotAnArray));
}

#[test]
fn missing_argument_names_operator_and_position() {
    assert_eq!(
        MlExpr::from_json(js(r#"["get"]"#)),
        Err(MlExprError::MissingArgument { op: "get", position: 1 })
    );
    assert_eq!(
        MlExpr::from_json(js(r#"["==", 1]"#)),
        Err(MlExprError::MissingArgument { op: "==", position: 2 })
    );
}

#[test]
fn wrong_argument_counts() {
    assert_eq!(
        MlExpr::from_json(js(r#"["let", "x", 1]"#)),
        Err(MlExprError::ArgumentCount { op: "let", count: 2 })
    );
    assert_eq!(
        MlExpr::from_json(js(r#"["match", 1, 2]"#)),
        Err(MlExprError::ArgumentCount { op: "match", count: 2 })
    );
    assert_eq!(
        MlExpr::from_json(js(r#"["step", 1]"#)),
        Err(MlExprError::ArgumentCount { op: "step", count: 1 })
    );
    assert_eq!(
        MlExpr::from_json(js(r#"["array", 1, 2, 3, 4]"#)),
        Err(MlExprError::ArgumentCount { op: "array", count: 4 })
    );
}

#[test]
fn malformed_arguments() {
    assert_eq!(
        MlExpr::from_json(js(r#"["let", 1, 2, 3]"#)),
        Err(MlExprError::LetNameNotString(js("1")))
    );
    assert_eq!(
        MlExpr::from_json(js(r#"["var", 1]"#)),
        Err(MlExprError::VarNameNotString(js("1")))
    );
    assert_eq!(
        MlExpr::from_json(js(r#"["get", 1]"#)),
        Err(MlExprError::GetPropertyNotString)
    );
    assert_eq!(
        MlExpr::from_json(js(r#"["step", ["zoom"], 0, "a", 1]"#)),
        Err(MlExprError::StopInputNotNumber(js(r#""a""#)))
    );
    assert_eq!(
        MlExpr::from_json(js(r#"["step", ["zoom"], 0, 1]"#)),
        Err(MlExprError::UnpairedStops { op: "step", count: 1 })
    );
}

#[test]
fn bad_interpolation_is_reported() {
    let r = MlExpr::from_json(js(r#"["interpolate", ["quadratic"], ["zoom"], 1, 2]"#));
    assert_eq!(
        r,
        Err(MlExprError::BadInterpolation {
            op: "interpolate",
            cause: InterpolationError::UnknownName("quadratic".to_string()),
        })
    );
}

#[test]
fn curve_errors() {
    assert_eq!(Interpolation::from_json(js("5")), Err(InterpolationError::NotAnArray(js("5"))));
    assert_eq!(Interpolation::from_json(js("[]")), Err(InterpolationError::MissingElement(0)));
    assert_eq!(
        Interpolation::from_json(js("[1]")),
        Err(InterpolationError::NameNotString(js("1")))
    );
    assert_eq!(
        Interpolation::from_json(js(r#"["exponential"]"#)),
        Err(InterpolationError::MissingElement(1))
    );
    assert_eq!(
        Interpolation::from_json(js(r#"["exponential", "x"]"#)),
        Err(InterpolationError::NotANumber { index: 1, value: js(r#""x""#) })
    );
    assert_eq!(
        Interpolation::from_json(js(r#"["exponential", 2, 3]"#)),
        Err(InterpolationError::TooManyElements(3))
    );
    assert_eq!(interp(r#"["linear", 1]"#), Interpolation::Linear);
}

#[test]
fn curves_read_back_what_is_written() {
    for i in [
        Interpolation::Linear,
        Interpolation::Exponential { base: num(1.5) },
        Interpolation::CubicBezier { x1: num(0.25), y1: num(0.1), x2: num(0.25), y2: num(1.0) },
    ] {
        assert_eq!(Interpolation::from_json(i.to_json()), Ok(i));
    }
}

#[test]
fn operator_gives_back_the_name_read() {
    for text in [
        r#"["interpolate", ["linear"], ["zoom"], 5, 1, 10, 4]"#,
        r#"["interpolate-lab", ["linear"], ["zoom"], 5, 1, 10, 4]"#,
        r#"["!has", "a"]"#,
        r#"["!in", "a", 1, 2]"#,
        r#"["future-operator", 1]"#,
        r#"["-", 1]"#,
        r#"["number-format", 1, {}]"#,
    ] {
        let v: serde_json::Value = serde_json::from_str(text).unwrap();
        let name = v[0].as_str().unwrap().to_string();
        let e = parse(text);
        assert_eq!(e.operator(), Some(name.as_str()));
    }
    assert_eq!(MlExpr::Literal(JsonValue::Null).operator(), None);
}

#[test]
fn literal_expression_has_no_operator() {
    let e = parse(r#"["literal", [1, 2, 3]]"#);
    assert_eq!(e, MlExpr::LiteralExpr(js("[1, 2, 3]")));
    assert_eq!(e.operator(), None);
    assert_eq!(parse(r#"["literal", "a"]"#).operator(), None);
}

#[test]
fn unnamed_array_is_a_literal() {
    let e = parse("[1, 2]");
    assert_eq!(e, MlExpr::Literal(js("[1, 2]")));
}

#[test]
fn case_needs_an_odd_number_of_at_least_three_arguments() {
    let e = parse(r#"["case", true, 1, false, 2, 3]"#);
    assert_eq!(
        e,
        MlExpr::Case {
            branches: vec![
                (Box::new(MlExpr::Literal(js("true"))), Box::new(MlExpr::Literal(js("1")))),
                (Box::new(MlExpr::Literal(js("false"))), Box::new(MlExpr::Literal(js("2")))),
            ],
            fallback: Box::new(MlExpr::Literal(js("3"))),
        }
    );
    for (text, count) in [(r#"["case", true, 1]"#, 2), (r#"["case", 1]"#, 1), (r#"["case", true, 1, 2, 3]"#, 4)] {
        assert_eq!(
            MlExpr::from_json(js(text)),
            Err(MlExprError::ArgumentCount { op: "case", count })
        );
    }
}
