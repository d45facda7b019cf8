use cortex::extract::{extract_json_object, ExtractError};
use cortex::json::{Json, JsonNumber};
use cortex::plan::{
    deterministic_plan_from_manifest, validate_plan_against_manifest, AssertionType, Binding,
    HandleRef, Op, OutputSpec, ParamValue, PlanError, PublicManifest, RmvmPlan, SelectorRef, Step,
    ValueRef,
};
use cortex::plan_json::{parse_plan_json, ParseError};

fn to_json(v: &serde_json::Value) -> Json {
    match v {
        serde_json::Value::Null => Json::Null,
        serde_json::Value::Bool(b) => Json::Bool(*b),
        serde_json::Value::Number(n) => {
            if let Some(u) = n.as_u64() {
                Json::Number(JsonNumber::PosInt(u))
            } else if let Some(i) = n.as_i64() {
                Json::Number(JsonNumber::NegInt(i))
            } else {
                Json::Number(JsonNumber::Float(n.to_string()))
            }
        }
        serde_json::Value::String(s) => Json::Str(s.clone()),
        serde_json::Value::Array(a) => Json::Array(a.iter().map(to_json).collect()),
        serde_json::Value::Object(m) => {
            Json::Object(m.iter().map(|(k, v)| (k.clone(), to_json(v))).collect())
        }
    }
}

fn doc(text: &str) -> Json {
    to_json(&serde_json::from_str::<serde_json::Value>(text).unwrap())
}

fn sample_manifest() -> PublicManifest {
    PublicManifest {
        request_id: "req-1".to_string(),
        handles: vec![HandleRef {
            handle_ref: "H1".to_string(),
            type_id: "normative.preference".to_string(),
            signature_summary: "prefers_beverage=tea".to_string(),
        }],
        selectors: vec![SelectorRef { sel: "S0".to_string(), description: "selector".to_string() }],
    }
}

fn step(out: &str, op: Op) -> Step {
    Step { out: out.to_string(), op: Some(op) }
}

#[test]
fn deterministic_plan_validates() {
    let manifest = sample_manifest();
    let plan = deterministic_plan_from_manifest("req-1", "user:demo", &manifest).unwrap();
    validate_plan_against_manifest(&plan, &manifest).unwrap();
}

#[test]
fn parse_unified_plan_json() {
    let manifest = sample_manifest();
    let json = r#"{
      "requestId": "req-1",
      "steps": [
        {"out":"r0","op":{"kind":"fetch","handleRef":"H1"}},
        {"out":"r1","op":{"kind":"project","inReg":"r0","fieldPaths":["meta.subject"]}},
        {"out":"r2","op":{"kind":"assert","assertionType":"ASSERT_WORLD_FACT","bindings":{"subject":{"reg":"r1","fieldPath":"meta.subject"}}}}
      ],
      "outputs": ["r2"]
    }"#;
    let plan = parse_plan_json(&doc(json), "fallback-req").unwrap();
    validate_plan_against_manifest(&plan, &manifest).unwrap();
    assert_eq!(plan.request_id, "req-1");
}

#[test]
fn extract_json_handles_fence() {
    let s = "```json\n{\"requestId\":\"x\",\"steps\":[],\"outputs\":[]}\n```";
    let out = extract_json_object(s).unwrap();
    assert!(out.starts_with('{'));
}

#[test]
fn extract_bare_fenced_and_prose() {
    assert_eq!(extract_json_object("  {\"a\":1}  ").unwrap(), "{\"a\":1}");
    assert_eq!(extract_json_object("```\n {\"b\":2} \n```").unwrap(), "{\"b\":2}");
    assert_eq!(extract_json_object("plan: {\"c\":3} done").unwrap(), "{\"c\":3}");
    assert_eq!(extract_json_object("no object here"), Err(ExtractError::NoObjectStart));
    assert_eq!(extract_json_object("only { open"), Err(ExtractError::NoObjectEnd));
    assert_eq!(extract_json_object("} backwards {"), Err(ExtractError::BadBounds));
}

#[test]
fn deterministic_plan_with_one_handle() {
    let manifest = sample_manifest();
    let plan = deterministic_plan_from_manifest("req-9", "user:x", &manifest).unwrap();
    assert_eq!(plan.request_id, "req-9");
    assert_eq!(plan.steps.len(), 3);
    assert_eq!(plan.steps[0].out, "r0");
    assert!(matches!(&plan.steps[0].op, Some(Op::Fetch { handle_ref }) if handle_ref == "H1"));
    assert!(matches!(&plan.steps[1].op,
        Some(Op::Project { in_reg, field_paths }) if in_reg == "r0" && field_paths == &vec!["meta.subject".to_string()]));
    match &plan.steps[2].op {
        Some(Op::Assert { assertion_type, bindings, citations }) => {
            assert_eq!(*assertion_type, AssertionType::WorldFact);
            assert_eq!(bindings.len(), 1);
            assert_eq!(bindings[0].name, "subject");
            assert_eq!(bindings[0].value.reg, "r1");
            assert_eq!(bindings[0].value.field_path, "meta.subject");
            assert!(citations.is_empty());
        }
        _ => panic!("third step must assert"),
    }
    assert_eq!(plan.outputs.len(), 1);
    assert_eq!(plan.outputs[0].reg, "r2");
}

#[test]
fn deterministic_plan_from_selector_only() {
    let manifest = PublicManifest { handles: vec![], ..sample_manifest() };
    let plan = deterministic_plan_from_manifest("req-2", "user:demo", &manifest).unwrap();
    match &plan.steps[0].op {
        Some(Op::ApplySelector { selector_ref, params }) => {
            assert_eq!(selector_ref, "S0");
            assert_eq!(params.len(), 1);
            assert_eq!(params[0].name, "subject");
            assert!(matches!(&params[0].value, ParamValue::S(s) if s == "user:demo"));
        }
        _ => panic!("first step must apply the selector"),
    }
    assert!(matches!(&plan.steps[1].op, Some(Op::Project { field_paths, .. }) if field_paths[0] == "set_count"));
    validate_plan_against_manifest(&plan, &manifest).unwrap();
}

#[test]
fn deterministic_plan_needs_handle_or_selector() {
    let manifest = PublicManifest { handles: vec![], selectors: vec![], ..sample_manifest() };
    let r = deterministic_plan_from_manifest("req-3", "user:demo", &manifest);
    assert_eq!(r.unwrap_err(), PlanError::NoHandleOrSelector);
}

fn plan(steps: Vec<Step>) -> RmvmPlan {
    RmvmPlan { request_id: "r".to_string(), steps, outputs: vec![OutputSpec { reg: "r0".to_string() }] }
}

#[test]
fn validation_rejects_each_fault() {
    let m = sample_manifest();
    let fetch = |h: &str| Op::Fetch { handle_ref: h.to_string() };
    let project = |r: &str| Op::Project { in_reg: r.to_string(), field_paths: vec![] };
    assert_eq!(validate_plan_against_manifest(&plan(vec![step(" ", fetch("H1"))]), &m), Err(PlanError::EmptyOut));
    assert_eq!(
        validate_plan_against_manifest(&plan(vec![step("r0", fetch("H1")), step("r0", fetch("H1"))]), &m),
        Err(PlanError::RegisterRedefined("r0".to_string()))
    );
    assert_eq!(validate_plan_against_manifest(&plan(vec![step("r0", fetch("H9"))]), &m),
        Err(PlanError::UnknownHandleRef("H9".to_string())));
    let sel = Op::ApplySelector { selector_ref: "S9".to_string(), params: vec![] };
    assert_eq!(validate_plan_against_manifest(&plan(vec![step("r0", sel)]), &m),
        Err(PlanError::UnknownSelectorRef("S9".to_string())));
    assert_eq!(validate_plan_against_manifest(&plan(vec![step("r1", project("r0")), step("r0", fetch("H1"))]), &m),
        Err(PlanError::UndefinedRegister("r0".to_string())));
    assert_eq!(validate_plan_against_manifest(&plan(vec![step("r0", project("r0"))]), &m),
        Err(PlanError::UndefinedRegister("r0".to_string())));
    let join = Op::Join { left_reg: "r0".to_string(), right_reg: "rx".to_string(), edge_type: cortex::plan::EdgeType::Supersedes };
    assert_eq!(validate_plan_against_manifest(&plan(vec![step("r0", fetch("H1")), step("r1", join)]), &m),
        Err(PlanError::JoinRegistersUndefined));
    let assert_op = Op::Assert {
        assertion_type: AssertionType::Decision,
        bindings: vec![Binding { name: "a".to_string(), value: ValueRef { reg: "zz".to_string(), field_path: "f".to_string() } }],
        citations: vec![],
    };
    assert_eq!(validate_plan_against_manifest(&plan(vec![step("r0", assert_op)]), &m),
        Err(PlanError::UndefinedBindingRegister("zz".to_string())));
    assert_eq!(validate_plan_against_manifest(&plan(vec![Step { out: "r0".to_string(), op: None }]), &m),
        Err(PlanError::MissingOp));
    assert_eq!(validate_plan_against_manifest(&plan(vec![]), &m), Ok(()));
}

#[test]
fn parse_proto_style_and_snake_case() {
    let json = r#"{"request_id":"p-1","steps":[
        {"out":"r0","fetch":{"handle_ref":"H1"}},
        {"out":"r1","apply_selector":{"selectorRef":"S0","params":{"k":{"i64":7},"f":{"f64":1.5},"e":{"e":"X"},"b":true,"n":null}}},
        {"out":"r2","join":{"left_reg":"r0","right_reg":"r1","edge_type":"EDGE_SAME_ENTITY"}},
        {"out":"r3","assert_op":{"assertion_type":"ASSERT_DECISION","bindings":{"x":{"reg":"r2","field_path":"p"}},"citations":[{"anchor_ref":"A1"},{"other":1}]}}
      ],"outputs":[{"reg":"r3"}]}"#;
    let p = parse_plan_json(&doc(json), "fb").unwrap();
    assert_eq!(p.request_id, "p-1");
    assert_eq!(p.outputs[0].reg, "r3");
    match &p.steps[1].op {
        Some(Op::ApplySelector { params, .. }) => {
            let names: Vec<&str> = params.iter().map(|x| x.name.as_str()).collect();
            assert_eq!(names, vec!["b", "e", "f", "k"]);
            assert!(matches!(params[0].value, ParamValue::B(true)));
            assert!(matches!(&params[1].value, ParamValue::E(e) if e == "X"));
            assert!(matches!(&params[2].value, ParamValue::F64(JsonNumber::Float(t)) if t == "1.5"));
            assert!(matches!(params[3].value, ParamValue::I64(7)));
        }
        _ => panic!("expected applySelector"),
    }
    assert!(matches!(&p.steps[2].op, Some(Op::Join { edge_type: cortex::plan::EdgeType::SameEntity, .. })));
    match &p.steps[3].op {
        Some(Op::Assert { assertion_type, citations, .. }) => {
            assert_eq!(*assertion_type, AssertionType::Decision);
            assert_eq!(citations.len(), 1);
        }
        _ => panic!("expected assert"),
    }
}

#[test]
fn parse_refuses_bad_documents() {
    assert_eq!(parse_plan_json(&doc("[1]"), "f").unwrap_err(), ParseError::RootNotObject);
    assert_eq!(parse_plan_json(&doc(r#"{"steps":{}}"#), "f").unwrap_err(), ParseError::StepsNotArray);
    assert_eq!(parse_plan_json(&doc(r#"{"steps":[{"out":"r0","op":{"kind":"teleport"}}],"outputs":[]}"#), "f").unwrap_err(), ParseError::UnsupportedKind);
    assert_eq!(parse_plan_json(&doc(r#"{"steps":[{"out":"r0","op":{"kind":"join","leftReg":"a","rightReg":"b","edgeType":"EDGE_X"}}],"outputs":[]}"#), "f").unwrap_err(), ParseError::UnsupportedEdgeType);
    assert_eq!(parse_plan_json(&doc(r#"{"steps":[{"out":"r0","op":{"kind":"assert","assertionType":"ASSERT_X","bindings":{}}}],"outputs":[]}"#), "f").unwrap_err(), ParseError::UnsupportedAssertionType);
    assert_eq!(parse_plan_json(&doc(r#"{"steps":[{"out":"r0"}],"outputs":[]}"#), "f").unwrap_err(), ParseError::MissingOperation);
    assert_eq!(parse_plan_json(&doc(r#"{"steps":[],"outputs":[3]}"#), "f").unwrap_err(), ParseError::OutputNotStringOrObject);
    let p = parse_plan_json(&doc(r#"{"steps":[],"outputs":[]}"#), "fallback-req").unwrap();
    assert_eq!(p.request_id, "fallback-req");
}
