//! Reading a plan from its JSON document.
//!
//! Two shapes are accepted for a step's operation: `op: {kind, ...}`, and the
//! operation's name as a key of the step (`fetch: {...}`). Field names are
//! accepted in camelCase and in snake_case.

use vstd::prelude::*;
use crate::json::{
    Json, member, as_str, as_bool, as_i64, member_str, member_str2, json_get, opt_str,
    opt_string_view, get, get_str, get_str2, copy_number,
};
use crate::plan::{
    AssertionType, Binding, Citation, CitationV, EdgeType, Op, OpV, OutputSpec, Param, ParamValue,
    PlanV, RmvmPlan, Step, StepV, ValueRef, ValueV, params_view, bindings_view, citation_view,
    strings_view,
};
use crate::text::str_eq;

verus! {

/// Why a plan document is refused.
#[derive(Debug, Clone, Copy, PartialEq, Eq, Structural)]
pub enum ParseError {
    RootNotObject,
    StepsNotArray,
    StepNotObject,
    StepMissingOut,
    OpNotObject,
    MissingKind,
    UnsupportedKind,
    OperandNotObject,
    MissingField,
    FieldPathsNotArray,
    UnsupportedEdgeType,
    UnsupportedAssertionType,
    BindingsNotObject,
    BindingNotObject,
    CitationNotObject,
    MissingOperation,
    OutputsNotArray,
    OutputNotStringOrObject,
    OutputMissingReg,
}

pub open spec fn res_view<T: View>(r: Result<T, ParseError>) -> Result<T::V, ParseError> {
    match r {
        Ok(x) => Ok(x@),
        Err(e) => Err(e),
    }
}

/// `pre` followed by the items of `r`, or `r`'s error.
pub open spec fn prefixed<A>(pre: Seq<A>, r: Result<Seq<A>, ParseError>) -> Result<
    Seq<A>,
    ParseError,
> {
    match r {
        Ok(rest) => Ok(pre + rest),
        Err(e) => Err(e),
    }
}

// ----- parameter values -----

/// A parameter value: an object tagged `s`, `b`, `i64`, `f64` or `e` (tried
/// in that order), or a bare string, boolean or number.
pub open spec fn decode_value(v: Json) -> Option<ValueV> {
    match v {
        Json::Object(f) => {
            let f = f@;
            if opt_str(member(f, "s"@)).is_some() {
                Some(ValueV::S(opt_str(member(f, "s"@)).unwrap()))
            } else if (match member(f, "b"@) {
                Some(x) => as_bool(x).is_some(),
                None => false,
            }) {
                Some(ValueV::B(as_bool(member(f, "b"@).unwrap()).unwrap()))
            } else if (match member(f, "i64"@) {
                Some(x) => as_i64(x).is_some(),
                None => false,
            }) {
                Some(ValueV::I64(as_i64(member(f, "i64"@).unwrap()).unwrap()))
            } else if member(f, "f64"@) matches Some(Json::Number(_)) {
                match member(f, "f64"@) {
                    Some(Json::Number(n)) => Some(ValueV::F64(n)),
                    _ => None,
                }
            } else if opt_str(member(f, "e"@)).is_some() {
                Some(ValueV::E(opt_str(member(f, "e"@)).unwrap()))
            } else {
                None
            }
        },
        Json::Str(s) => Some(ValueV::S(s@)),
        Json::Bool(b) => Some(ValueV::B(b)),
        Json::Number(n) => match as_i64(v) {
            Some(i) => Some(ValueV::I64(i)),
            None => Some(ValueV::F64(n)),
        },
        _ => None,
    }
}

/// The decodable members `i..` of a parameter object, in order.
pub open spec fn params_from(f: Seq<(String, Json)>, i: int) -> Seq<(Seq<char>, ValueV)>
    decreases f.len() - i,
{
    if i < 0 || i >= f.len() {
        seq![]
    } else {
        match decode_value(f[i].1) {
            Some(v) => seq![(f[i].0@, v)] + params_from(f, i + 1),
            None => params_from(f, i + 1),
        }
    }
}

/// The parameters of `params`; anything but an object gives none.
pub open spec fn params_of(v: Option<Json>) -> Seq<(Seq<char>, ValueV)> {
    match v {
        Some(Json::Object(f)) => params_from(f@, 0),
        _ => seq![],
    }
}

pub open spec fn edge_of(s: Seq<char>) -> Option<EdgeType> {
    if s == "EDGE_CONFLICTS_WITH"@ {
        Some(EdgeType::ConflictsWith)
    } else if s == "EDGE_SUPERSEDES"@ {
        Some(EdgeType::Supersedes)
    } else if s == "EDGE_PROVENANCE"@ {
        Some(EdgeType::Provenance)
    } else if s == "EDGE_SAME_ENTITY"@ {
        Some(EdgeType::SameEntity)
    } else {
        None
    }
}

pub open spec fn assertion_of(s: Seq<char>) -> Option<AssertionType> {
    if s == "ASSERT_USER_PREFERENCE"@ {
        Some(AssertionType::UserPreference)
    } else if s == "ASSERT_WORLD_FACT"@ {
        Some(AssertionType::WorldFact)
    } else if s == "ASSERT_DECISION"@ {
        Some(AssertionType::Decision)
    } else if s == "ASSERT_PROCEDURE"@ {
        Some(AssertionType::Procedure)
    } else if s == "ASSERT_CONFLICT_EXPLANATION"@ {
        Some(AssertionType::ConflictExplanation)
    } else {
        None
    }
}

/// The string items `i..` of an array, in order; other items are skipped.
pub open spec fn strs_from(a: Seq<Json>, i: int) -> Seq<Seq<char>>
    decreases a.len() - i,
{
    if i < 0 || i >= a.len() {
        seq![]
    } else {
        match as_str(a[i]) {
            Some(s) => seq![s] + strs_from(a, i + 1),
            None => strs_from(a, i + 1),
        }
    }
}

/// Bindings `i..` of an assertion: each an object with `reg` and a field path.
pub open spec fn bindings_from(f: Seq<(String, Json)>, i: int) -> Result<
    Seq<(Seq<char>, Seq<char>, Seq<char>)>,
    ParseError,
>
    decreases f.len() - i,
{
    if i < 0 || i >= f.len() {
        Ok(seq![])
    } else {
        match f[i].1 {
            Json::Object(b) => match member_str(b@, "reg"@) {
                None => Err(ParseError::MissingField),
                Some(reg) => match member_str2(b@, "fieldPath"@, "field_path"@) {
                    None => Err(ParseError::MissingField),
                    Some(fp) => prefixed(seq![(f[i].0@, reg, fp)], bindings_from(f, i + 1)),
                },
            },
            _ => Err(ParseError::BindingNotObject),
        }
    }
}

/// Citations `i..`: objects naming a handle or else an anchor; an object
/// naming neither is skipped.
pub open spec fn citations_from(a: Seq<Json>, i: int) -> Result<Seq<CitationV>, ParseError>
    decreases a.len() - i,
{
    if i < 0 || i >= a.len() {
        Ok(seq![])
    } else {
        match a[i] {
            Json::Object(c) => match member_str2(c@, "handleRef"@, "handle_ref"@) {
                Some(h) => prefixed(seq![CitationV::Handle(h)], citations_from(a, i + 1)),
                None => match member_str2(c@, "anchorRef"@, "anchor_ref"@) {
                    Some(x) => prefixed(seq![CitationV::Anchor(x)], citations_from(a, i + 1)),
                    None => citations_from(a, i + 1),
                },
            },
            _ => Err(ParseError::CitationNotObject),
        }
    }
}

/// An assertion from its type name, its bindings object (`None`: missing or
/// not an object) and its citations array (`None`: none given).
pub open spec fn assert_of(
    at: Option<Seq<char>>,
    bindings: Option<Seq<(String, Json)>>,
    citations: Option<Seq<Json>>,
) -> Result<OpV, ParseError> {
    match at {
        None => Err(ParseError::MissingField),
        Some(t) => match assertion_of(t) {
            None => Err(ParseError::UnsupportedAssertionType),
            Some(aty) => match bindings {
                None => Err(ParseError::BindingsNotObject),
                Some(bf) => match bindings_from(bf, 0) {
                    Err(e) => Err(e),
                    Ok(bs) => match citations {
                        None => Ok(OpV::Assert(aty, bs, seq![])),
                        Some(ca) => match citations_from(ca, 0) {
                            Err(e) => Err(e),
                            Ok(cs) => Ok(OpV::Assert(aty, bs, cs)),
                        },
                    },
                },
            },
        },
    }
}

pub open spec fn obj_members(v: Option<Json>) -> Option<Seq<(String, Json)>> {
    match v {
        Some(Json::Object(f)) => Some(f@),
        _ => None,
    }
}

pub open spec fn arr_items(v: Option<Json>) -> Option<Seq<Json>> {
    match v {
        Some(Json::Array(a)) => Some(a@),
        _ => None,
    }
}

pub open spec fn or_empty(s: Option<Seq<char>>) -> Seq<char> {
    match s {
        Some(x) => x,
        None => seq![],
    }
}

/// The join of `f` with its registers and edge type under the given keys.
pub open spec fn join_of(
    f: Seq<(String, Json)>,
    l1: Seq<char>,
    l2: Seq<char>,
    r1: Seq<char>,
    r2: Seq<char>,
    e1: Seq<char>,
    e2: Seq<char>,
) -> Result<OpV, ParseError> {
    match member_str2(f, l1, l2) {
        None => Err(ParseError::MissingField),
        Some(l) => match member_str2(f, r1, r2) {
            None => Err(ParseError::MissingField),
            Some(r) => match member_str2(f, e1, e2) {
                None => Err(ParseError::MissingField),
                Some(e) => match edge_of(e) {
                    None => Err(ParseError::UnsupportedEdgeType),
                    Some(et) => Ok(OpV::Join(l, r, et)),
                },
            },
        },
    }
}

/// An operation of the `op: {kind, ...}` shape, from the members of `op`.
pub open spec fn unified_fields(f: Seq<(String, Json)>) -> Result<OpV, ParseError> {
    match member_str(f, "kind"@) {
        None => Err(ParseError::MissingKind),
        Some(k) => if k == "fetch"@ {
            match member_str2(f, "handleRef"@, "handle_ref"@) {
                Some(h) => Ok(OpV::Fetch(h)),
                None => Err(ParseError::MissingField),
            }
        } else if k == "applySelector"@ {
            match member_str2(f, "selectorRef"@, "selector_ref"@) {
                Some(s) => Ok(OpV::ApplySelector(s, params_of(member(f, "params"@)))),
                None => Err(ParseError::MissingField),
            }
        } else if k == "resolve"@ {
            match member_str2(f, "inReg"@, "in_reg"@) {
                Some(r) => Ok(OpV::Resolve(r, or_empty(member_str2(f, "policyId"@, "policy_id"@)))),
                None => Err(ParseError::MissingField),
            }
        } else if k == "filter"@ {
            match member_str2(f, "inReg"@, "in_reg"@) {
                None => Err(ParseError::MissingField),
                Some(r) => match member_str2(f, "filterRef"@, "filter_ref"@) {
                    None => Err(ParseError::MissingField),
                    Some(x) => Ok(OpV::Filter(r, x, params_of(member(f, "params"@)))),
                },
            }
        } else if k == "join"@ {
            join_of(f, "leftReg"@, "left_reg"@, "rightReg"@, "right_reg"@, "edgeType"@, "edge_type"@)
        } else if k == "project"@ {
            match member_str2(f, "inReg"@, "in_reg"@) {
                None => Err(ParseError::MissingField),
                Some(r) => {
                    let paths = match member(f, "fieldPaths"@) {
                        Some(x) => Some(x),
                        None => member(f, "field_paths"@),
                    };
                    match arr_items(paths) {
                        Some(a) => Ok(OpV::Project(r, strs_from(a, 0))),
                        None => Err(ParseError::FieldPathsNotArray),
                    }
                },
            }
        } else if k == "assert"@ {
            assert_of(
                member_str2(f, "assertionType"@, "assertion_type"@),
                obj_members(member(f, "bindings"@)),
                arr_items(member(f, "citations"@)),
            )
        } else {
            Err(ParseError::UnsupportedKind)
        },
    }
}

pub open spec fn unified_op(v: Json) -> Result<OpV, ParseError> {
    match v {
        Json::Object(f) => unified_fields(f@),
        _ => Err(ParseError::OpNotObject),
    }
}

/// An operation named by a key of the step (`fetch`, `apply_selector`,
/// `resolve`, `filter`, `join`, `project`, `assert_op`, tried in that order).
pub open spec fn proto_op(f: Seq<(String, Json)>) -> Result<OpV, ParseError> {
    if member(f, "fetch"@).is_some() {
        match obj_members(member(f, "fetch"@)) {
            None => Err(ParseError::OperandNotObject),
            Some(o) => match member_str2(o, "handle_ref"@, "handleRef"@) {
                Some(h) => Ok(OpV::Fetch(h)),
                None => Err(ParseError::MissingField),
            },
        }
    } else if member(f, "apply_selector"@).is_some() {
        match obj_members(member(f, "apply_selector"@)) {
            None => Err(ParseError::OperandNotObject),
            Some(o) => match member_str2(o, "selector_ref"@, "selectorRef"@) {
                Some(s) => Ok(OpV::ApplySelector(s, params_of(member(o, "params"@)))),
                None => Err(ParseError::MissingField),
            },
        }
    } else if member(f, "resolve"@).is_some() {
        match obj_members(member(f, "resolve"@)) {
            None => Err(ParseError::OperandNotObject),
            Some(o) => match member_str2(o, "in_reg"@, "inReg"@) {
                Some(r) => Ok(OpV::Resolve(r, or_empty(member_str2(o, "policy_id"@, "policyId"@)))),
                None => Err(ParseError::MissingField),
            },
        }
    } else if member(f, "filter"@).is_some() {
        match obj_members(member(f, "filter"@)) {
            None => Err(ParseError::OperandNotObject),
            Some(o) => match member_str2(o, "in_reg"@, "inReg"@) {
                None => Err(ParseError::MissingField),
                Some(r) => match member_str2(o, "filter_ref"@, "filterRef"@) {
                    None => Err(ParseError::MissingField),
                    Some(x) => Ok(OpV::Filter(r, x, params_of(member(o, "params"@)))),
                },
            },
        }
    } else if member(f, "join"@).is_some() {
        match obj_members(member(f, "join"@)) {
            None => Err(ParseError::OperandNotObject),
            Some(o) => join_of(o, "left_reg"@, "leftReg"@, "right_reg"@, "rightReg"@, "edge_type"@, "edgeType"@),
        }
    } else if member(f, "project"@).is_some() {
        match obj_members(member(f, "project"@)) {
            None => Err(ParseError::OperandNotObject),
            Some(o) => match member_str2(o, "in_reg"@, "inReg"@) {
                None => Err(ParseError::MissingField),
                Some(r) => {
                    let paths = match member(o, "field_paths"@) {
                        Some(x) => Some(x),
                        None => member(o, "fieldPaths"@),
                    };
                    match arr_items(paths) {
                        Some(a) => Ok(OpV::Project(r, strs_from(a, 0))),
                        None => Err(ParseError::MissingField),
                    }
                },
            },
        }
    } else if member(f, "assert_op"@).is_some() {
        let v = member(f, "assert_op"@).unwrap();
        assert_of(
            opt_str(json_get(v, "assertion_type"@)),
            match json_get(v, "bindings"@) {
                None => Some(seq![]),
                Some(b) => obj_members(Some(b)),
            },
            arr_items(json_get(v, "citations"@)),
        )
    } else {
        Err(ParseError::MissingOperation)
    }
}

pub open spec fn step_of(v: Json) -> Result<StepV, ParseError> {
    match v {
        Json::Object(f) => match member_str(f@, "out"@) {
            None => Err(ParseError::StepMissingOut),
            Some(out) => {
                let op = match member(f@, "op"@) {
                    Some(u) => unified_op(u),
                    None => proto_op(f@),
                };
                match op {
                    Ok(o) => Ok(StepV { out, op: Some(o) }),
                    Err(e) => Err(e),
                }
            },
        },
        _ => Err(ParseError::StepNotObject),
    }
}

pub open spec fn steps_from(a: Seq<Json>, i: int) -> Result<Seq<StepV>, ParseError>
    decreases a.len() - i,
{
    if i < 0 || i >= a.len() {
        Ok(seq![])
    } else {
        match step_of(a[i]) {
            Err(e) => Err(e),
            Ok(s) => prefixed(seq![s], steps_from(a, i + 1)),
        }
    }
}

pub open spec fn outputs_from(a: Seq<Json>, i: int) -> Result<Seq<Seq<char>>, ParseError>
    decreases a.len() - i,
{
    if i < 0 || i >= a.len() {
        Ok(seq![])
    } else {
        match a[i] {
            Json::Str(s) => prefixed(seq![s@], outputs_from(a, i + 1)),
            Json::Object(o) => match member_str(o@, "reg"@) {
                Some(r) => prefixed(seq![r], outputs_from(a, i + 1)),
                None => Err(ParseError::OutputMissingReg),
            },
            _ => Err(ParseError::OutputNotStringOrObject),
        }
    }
}

/// The plan that a document describes. A missing request id is taken from
/// `fallback`.
pub open spec fn plan_of(root: Json, fallback: Seq<char>) -> Result<PlanV, ParseError> {
    match root {
        Json::Object(f) => {
            let rid = match member_str2(f@, "requestId"@, "request_id"@) {
                Some(r) => r,
                None => fallback,
            };
            match arr_items(member(f@, "steps"@)) {
                None => Err(ParseError::StepsNotArray),
                Some(a) => match steps_from(a, 0) {
                    Err(e) => Err(e),
                    Ok(steps) => match arr_items(member(f@, "outputs"@)) {
                        None => Err(ParseError::OutputsNotArray),
                        Some(o) => match outputs_from(o, 0) {
                            Err(e) => Err(e),
                            Ok(outs) => Ok(PlanV { request_id: rid, steps, outputs: outs }),
                        },
                    },
                },
            }
        },
        _ => Err(ParseError::RootNotObject),
    }
}

pub open spec fn opt_value_view(r: Option<ParamValue>) -> Option<ValueV> {
    match r {
        Some(x) => Some(x@),
        None => None,
    }
}

/// Decodes one parameter value.
pub fn json_to_rmvm_value(v: &Json) -> (r: Option<ParamValue>)
    ensures
        opt_value_view(r) == decode_value(*v),
{
    match v {
        Json::Object(f) => {
            if let Some(Json::Str(s)) = get(f, "s") {
                return Some(ParamValue::S(s.clone()));
            }
            if let Some(Json::Bool(b)) = get(f, "b") {
                return Some(ParamValue::B(*b));
            }
            if let Some(x) = get(f, "i64") {
                if let Some(i) = x.as_i64() {
                    return Some(ParamValue::I64(i));
                }
            }
            if let Some(Json::Number(n)) = get(f, "f64") {
                return Some(ParamValue::F64(copy_number(n)));
            }
            if let Some(Json::Str(e)) = get(f, "e") {
                return Some(ParamValue::E(e.clone()));
            }
            None
        },
        Json::Str(s) => Some(ParamValue::S(s.clone())),
        Json::Bool(b) => Some(ParamValue::B(*b)),
        Json::Number(n) => match v.as_i64() {
            Some(i) => Some(ParamValue::I64(i)),
            None => Some(ParamValue::F64(copy_number(n))),
        },
        _ => None,
    }
}

/// Decodes a parameter object; members that do not decode are dropped.
pub fn parse_param_map(value: Option<&Json>) -> (r: Vec<Param>)
    ensures
        params_view(r@) == params_of(
            match value {
                Some(v) => Some(*v),
                None => None,
            },
        ),
{
    let mut out: Vec<Param> = Vec::new();
    let f = match value {
        Some(Json::Object(f)) => f,
        _ => {
            return out;
        },
    };
    let mut i: usize = 0;
    while i < f.len()
        invariant
            i <= f@.len(),
            params_from(f@, 0) == params_view(out@) + params_from(f@, i as int),
        decreases f.len() - i,
    {
        let ghost before = out@;
        if let Some(v) = json_to_rmvm_value(&f[i].1) {
            out.push(Param { name: f[i].0.clone(), value: v });
            proof {
                assert(params_view(out@) =~= params_view(before).push(
                    (f@[i as int].0@, decode_value(f@[i as int].1).unwrap()),
                ));
            }
        }
        proof {
            assert(params_from(f@, 0) =~= params_view(out@) + params_from(f@, i + 1));
        }
        i += 1;
    }
    assert(params_view(out@) + params_from(f@, i as int) =~= params_view(out@));
    out
}

pub fn parse_edge_type(s: &str) -> (r: Option<EdgeType>)
    ensures
        r == edge_of(s@),
{
    if str_eq(s, "EDGE_CONFLICTS_WITH") {
        Some(EdgeType::ConflictsWith)
    } else if str_eq(s, "EDGE_SUPERSEDES") {
        Some(EdgeType::Supersedes)
    } else if str_eq(s, "EDGE_PROVENANCE") {
        Some(EdgeType::Provenance)
    } else if str_eq(s, "EDGE_SAME_ENTITY") {
        Some(EdgeType::SameEntity)
    } else {
        None
    }
}

pub fn parse_assertion_type(s: &str) -> (r: Option<AssertionType>)
    ensures
        r == assertion_of(s@),
{
    if str_eq(s, "ASSERT_USER_PREFERENCE") {
        Some(AssertionType::UserPreference)
    } else if str_eq(s, "ASSERT_WORLD_FACT") {
        Some(AssertionType::WorldFact)
    } else if str_eq(s, "ASSERT_DECISION") {
        Some(AssertionType::Decision)
    } else if str_eq(s, "ASSERT_PROCEDURE") {
        Some(AssertionType::Procedure)
    } else if str_eq(s, "ASSERT_CONFLICT_EXPLANATION") {
        Some(AssertionType::ConflictExplanation)
    } else {
        None
    }
}

fn string_items(a: &Vec<Json>) -> (r: Vec<String>)
    ensures
        strings_view(r@) == strs_from(a@, 0),
{
    let mut out: Vec<String> = Vec::new();
    let mut i: usize = 0;
    while i < a.len()
        invariant
            i <= a@.len(),
            strs_from(a@, 0) == strings_view(out@) + strs_from(a@, i as int),
        decreases a.len() - i,
    {
        let ghost before = out@;
        if let Json::Str(s) = &a[i] {
            out.push(s.clone());
            proof {
                assert(strings_view(out@) =~= strings_view(before).push(s@));
            }
        }
        proof {
            assert(strs_from(a@, 0) =~= strings_view(out@) + strs_from(a@, i + 1));
        }
        i += 1;
    }
    assert(strings_view(out@) + strs_from(a@, i as int) =~= strings_view(out@));
    out
}

fn parse_bindings(f: &Vec<(String, Json)>) -> (r: Result<Vec<Binding>, ParseError>)
    ensures
        match r {
            Ok(bs) => bindings_from(f@, 0) == Ok::<_, ParseError>(bindings_view(bs@)),
            Err(e) => bindings_from(f@, 0) == Err::<Seq<(Seq<char>, Seq<char>, Seq<char>)>, _>(e),
        },
{
    let mut out: Vec<Binding> = Vec::new();
    let mut i: usize = 0;
    while i < f.len()
        invariant
            i <= f@.len(),
            bindings_from(f@, 0) == prefixed(bindings_view(out@), bindings_from(f@, i as int)),
        decreases f.len() - i,
    {
        let b = match &f[i].1 {
            Json::Object(b) => b,
            _ => {
                return Err(ParseError::BindingNotObject);
            },
        };
        let reg = match get_str(b, "reg") {
            Some(r) => r,
            None => {
                return Err(ParseError::MissingField);
            },
        };
        let field_path = match get_str2(b, "fieldPath", "field_path") {
            Some(p) => p,
            None => {
                return Err(ParseError::MissingField);
            },
        };
        let ghost before = out@;
        out.push(Binding { name: f[i].0.clone(), value: ValueRef { reg, field_path } });
        proof {
            let x = (f@[i as int].0@, reg@, field_path@);
            assert(bindings_view(out@) =~= bindings_view(before).push(x));
            assert(bindings_view(before) + seq![x] =~= bindings_view(out@));
            match bindings_from(f@, i + 1) {
                Ok(rest) => {
                    assert(bindings_view(before) + (seq![x] + rest) =~= bindings_view(out@) + rest);
                },
                Err(_) => {},
            }
        }
        i += 1;
    }
    assert(bindings_view(out@) + seq![] =~= bindings_view(out@));
    Ok(out)
}

fn parse_citations(a: &Vec<Json>) -> (r: Result<Vec<Citation>, ParseError>)
    ensures
        match r {
            Ok(cs) => citations_from(a@, 0) == Ok::<_, ParseError>(
                cs@.map_values(|c: Citation| citation_view(c)),
            ),
            Err(e) => citations_from(a@, 0) == Err::<Seq<CitationV>, _>(e),
        },
{
    let mut out: Vec<Citation> = Vec::new();
    let mut i: usize = 0;
    while i < a.len()
        invariant
            i <= a@.len(),
            citations_from(a@, 0) == prefixed(
                out@.map_values(|c: Citation| citation_view(c)),
                citations_from(a@, i as int),
            ),
        decreases a.len() - i,
    {
        let c = match &a[i] {
            Json::Object(c) => c,
            _ => {
                return Err(ParseError::CitationNotObject);
            },
        };
        let ghost before = out@;
        let mut pushed = false;
        if let Some(h) = get_str2(c, "handleRef", "handle_ref") {
            out.push(Citation::HandleRef(h));
            pushed = true;
        } else if let Some(x) = get_str2(c, "anchorRef", "anchor_ref") {
            out.push(Citation::AnchorRef(x));
            pushed = true;
        }
        proof {
            let pv = before.map_values(|c: Citation| citation_view(c));
            let nv = out@.map_values(|c: Citation| citation_view(c));
            if pushed {
                let x = citation_view(out@.last());
                assert(nv =~= pv.push(x));
                match citations_from(a@, i + 1) {
                    Ok(rest) => {
                        assert(pv + (seq![x] + rest) =~= nv + rest);
                    },
                    Err(_) => {},
                }
            } else {
                assert(nv =~= pv);
            }
        }
        i += 1;
    }
    assert(out@.map_values(|c: Citation| citation_view(c)) + seq![] =~= out@.map_values(
        |c: Citation| citation_view(c),
    ));
    Ok(out)
}

fn parse_assert(
    at: Option<String>,
    bindings: Option<&Vec<(String, Json)>>,
    citations: Option<&Vec<Json>>,
) -> (r: Result<Op, ParseError>)
    ensures
        res_view(r) == assert_of(
            opt_string_view(at),
            match bindings {
                Some(b) => Some(b@),
                None => None,
            },
            match citations {
                Some(c) => Some(c@),
                None => None,
            },
        ),
{
    let t = match at {
        Some(t) => t,
        None => {
            return Err(ParseError::MissingField);
        },
    };
    let assertion_type = match parse_assertion_type(t.as_str()) {
        Some(a) => a,
        None => {
            return Err(ParseError::UnsupportedAssertionType);
        },
    };
    let bf = match bindings {
        Some(b) => b,
        None => {
            return Err(ParseError::BindingsNotObject);
        },
    };
    let bindings = match parse_bindings(bf) {
        Ok(b) => b,
        Err(e) => {
            return Err(e);
        },
    };
    let citations = match citations {
        Some(ca) => match parse_citations(ca) {
            Ok(c) => c,
            Err(e) => {
                return Err(e);
            },
        },
        None => {
            let c: Vec<Citation> = Vec::new();
            assert(c@.map_values(|c: Citation| citation_view(c)) =~= seq![]);
            c
        },
    };
    Ok(Op::Assert { assertion_type, bindings, citations })
}

fn parse_join(
    f: &Vec<(String, Json)>,
    l1: &str,
    l2: &str,
    r1: &str,
    r2: &str,
    e1: &str,
    e2: &str,
) -> (r: Result<Op, ParseError>)
    ensures
        res_view(r) == join_of(f@, l1@, l2@, r1@, r2@, e1@, e2@),
{
    let left_reg = match get_str2(f, l1, l2) {
        Some(x) => x,
        None => {
            return Err(ParseError::MissingField);
        },
    };
    let right_reg = match get_str2(f, r1, r2) {
        Some(x) => x,
        None => {
            return Err(ParseError::MissingField);
        },
    };
    let e = match get_str2(f, e1, e2) {
        Some(x) => x,
        None => {
            return Err(ParseError::MissingField);
        },
    };
    match parse_edge_type(e.as_str()) {
        Some(edge_type) => Ok(Op::Join { left_reg, right_reg, edge_type }),
        None => Err(ParseError::UnsupportedEdgeType),
    }
}

fn members_of(v: Option<&Json>) -> (r: Option<&Vec<(String, Json)>>)
    ensures
        match r {
            Some(f) => obj_members(
                match v {
                    Some(x) => Some(*x),
                    None => None,
                },
            ) == Some(f@),
            None => obj_members(
                match v {
                    Some(x) => Some(*x),
                    None => None,
                },
            ).is_none(),
        },
{
    match v {
        Some(Json::Object(f)) => Some(f),
        _ => None,
    }
}

fn items_of(v: Option<&Json>) -> (r: Option<&Vec<Json>>)
    ensures
        match r {
            Some(a) => arr_items(
                match v {
                    Some(x) => Some(*x),
                    None => None,
                },
            ) == Some(a@),
            None => arr_items(
                match v {
                    Some(x) => Some(*x),
                    None => None,
                },
            ).is_none(),
        },
{
    match v {
        Some(Json::Array(a)) => Some(a),
        _ => None,
    }
}

fn or_empty_string(s: Option<String>) -> (r: String)
    ensures
        r@ == or_empty(opt_string_view(s)),
{
    match s {
        Some(x) => x,
        None => String::new(),
    }
}

fn parse_project_paths(r: String, paths: Option<&Json>, missing: ParseError) -> (res: Result<
    Op,
    ParseError,
>)
    ensures
        res_view(res) == match arr_items(
            match paths {
                Some(x) => Some(*x),
                None => None,
            },
        ) {
            Some(a) => Ok(OpV::Project(r@, strs_from(a, 0))),
            None => Err(missing),
        },
{
    match items_of(paths) {
        Some(a) => Ok(Op::Project { in_reg: r, field_paths: string_items(a) }),
        None => Err(missing),
    }
}

fn first_of<'a>(a: Option<&'a Json>, b: Option<&'a Json>) -> (r: Option<&'a Json>)
    ensures
        r == match a {
            Some(x) => Some(x),
            None => b,
        },
{
    match a {
        Some(x) => Some(x),
        None => b,
    }
}

/// Reads an operation of the `op: {kind, ...}` shape.
pub fn parse_unified_op(v: &Json) -> (r: Result<Op, ParseError>)
    ensures
        res_view(r) == unified_op(*v),
{
    let f = match v {
        Json::Object(f) => f,
        _ => {
            return Err(ParseError::OpNotObject);
        },
    };
    let kind = match get_str(f, "kind") {
        Some(k) => k,
        None => {
            return Err(ParseError::MissingKind);
        },
    };
    let k = kind.as_str();
    if str_eq(k, "fetch") {
        match get_str2(f, "handleRef", "handle_ref") {
            Some(handle_ref) => Ok(Op::Fetch { handle_ref }),
            None => Err(ParseError::MissingField),
        }
    } else if str_eq(k, "applySelector") {
        match get_str2(f, "selectorRef", "selector_ref") {
            Some(selector_ref) => Ok(
                Op::ApplySelector { selector_ref, params: parse_param_map(get(f, "params")) },
            ),
            None => Err(ParseError::MissingField),
        }
    } else if str_eq(k, "resolve") {
        match get_str2(f, "inReg", "in_reg") {
            Some(in_reg) => Ok(
                Op::Resolve {
                    in_reg,
                    policy_id: or_empty_string(get_str2(f, "policyId", "policy_id")),
                },
            ),
            None => Err(ParseError::MissingField),
        }
    } else if str_eq(k, "filter") {
        let in_reg = match get_str2(f, "inReg", "in_reg") {
            Some(x) => x,
            None => {
                return Err(ParseError::MissingField);
            },
        };
        match get_str2(f, "filterRef", "filter_ref") {
            Some(filter_ref) => Ok(
                Op::Filter { in_reg, filter_ref, params: parse_param_map(get(f, "params")) },
            ),
            None => Err(ParseError::MissingField),
        }
    } else if str_eq(k, "join") {
        parse_join(f, "leftReg", "left_reg", "rightReg", "right_reg", "edgeType", "edge_type")
    } else if str_eq(k, "project") {
        let in_reg = match get_str2(f, "inReg", "in_reg") {
            Some(x) => x,
            None => {
                return Err(ParseError::MissingField);
            },
        };
        parse_project_paths(
            in_reg,
            first_of(get(f, "fieldPaths"), get(f, "field_paths")),
            ParseError::FieldPathsNotArray,
        )
    } else if str_eq(k, "assert") {
        parse_assert(
            get_str2(f, "assertionType", "assertion_type"),
            members_of(get(f, "bindings")),
            items_of(get(f, "citations")),
        )
    } else {
        Err(ParseError::UnsupportedKind)
    }
}

/// Reads an operation named by a key of the step.
pub fn parse_proto_style_op(f: &Vec<(String, Json)>) -> (r: Result<Op, ParseError>)
    ensures
        res_view(r) == proto_op(f@),
{
    if let Some(v) = get(f, "fetch") {
        let o = match members_of(Some(v)) {
            Some(o) => o,
            None => {
                return Err(ParseError::OperandNotObject);
            },
        };
        return match get_str2(o, "handle_ref", "handleRef") {
            Some(handle_ref) => Ok(Op::Fetch { handle_ref }),
            None => Err(ParseError::MissingField),
        };
    }
    if let Some(v) = get(f, "apply_selector") {
        let o = match members_of(Some(v)) {
            Some(o) => o,
            None => {
                return Err(ParseError::OperandNotObject);
            },
        };
        return match get_str2(o, "selector_ref", "selectorRef") {
            Some(selector_ref) => Ok(
                Op::ApplySelector { selector_ref, params: parse_param_map(get(o, "params")) },
            ),
            None => Err(ParseError::MissingField),
        };
    }
    if let Some(v) = get(f, "resolve") {
        let o = match members_of(Some(v)) {
            Some(o) => o,
            None => {
                return Err(ParseError::OperandNotObject);
            },
        };
        return match get_str2(o, "in_reg", "inReg") {
            Some(in_reg) => Ok(
                Op::Resolve {
                    in_reg,
                    policy_id: or_empty_string(get_str2(o, "policy_id", "policyId")),
                },
            ),
            None => Err(ParseError::MissingField),
        };
    }
    if let Some(v) = get(f, "filter") {
        let o = match members_of(Some(v)) {
            Some(o) => o,
            None => {
                return Err(ParseError::OperandNotObject);
            },
        };
        let in_reg = match get_str2(o, "in_reg", "inReg") {
            Some(x) => x,
            None => {
                return Err(ParseError::MissingField);
            },
        };
        return match get_str2(o, "filter_ref", "filterRef") {
            Some(filter_ref) => Ok(
                Op::Filter { in_reg, filter_ref, params: parse_param_map(get(o, "params")) },
            ),
            None => Err(ParseError::MissingField),
        };
    }
    if let Some(v) = get(f, "join") {
        return match members_of(Some(v)) {
            Some(o) => parse_join(
                o,
                "left_reg",
                "leftReg",
                "right_reg",
                "rightReg",
                "edge_type",
                "edgeType",
            ),
            None => Err(ParseError::OperandNotObject),
        };
    }
    if let Some(v) = get(f, "project") {
        let o = match members_of(Some(v)) {
            Some(o) => o,
            None => {
                return Err(ParseError::OperandNotObject);
            },
        };
        let in_reg = match get_str2(o, "in_reg", "inReg") {
            Some(x) => x,
            None => {
                return Err(ParseError::MissingField);
            },
        };
        return parse_project_paths(
            in_reg,
            first_of(get(o, "field_paths"), get(o, "fieldPaths")),
            ParseError::MissingField,
        );
    }
    if let Some(v) = get(f, "assert_op") {
        let empty: Vec<(String, Json)> = Vec::new();
        let (at, bindings, citations) = match v {
            Json::Object(o) => {
                let at = match get(o, "assertion_type") {
                    Some(Json::Str(t)) => Some(t.clone()),
                    _ => None,
                };
                let bindings = match get(o, "bindings") {
                    None => Some(&empty),
                    Some(b) => members_of(Some(b)),
                };
                (at, bindings, items_of(get(o, "citations")))
            },
            _ => (None, Some(&empty), None),
        };
        proof {
            assert(empty@ =~= seq![]);
        }
        return parse_assert(at, bindings, citations);
    }
    Err(ParseError::MissingOperation)
}

pub open spec fn step_res_view(r: Result<Step, ParseError>) -> Result<StepV, ParseError> {
    match r {
        Ok(s) => Ok(s@),
        Err(e) => Err(e),
    }
}

fn parse_step(v: &Json) -> (r: Result<Step, ParseError>)
    ensures
        step_res_view(r) == step_of(*v),
{
    let f = match v {
        Json::Object(f) => f,
        _ => {
            return Err(ParseError::StepNotObject);
        },
    };
    let out = match get_str(f, "out") {
        Some(o) => o,
        None => {
            return Err(ParseError::StepMissingOut);
        },
    };
    let op = match get(f, "op") {
        Some(u) => parse_unified_op(u),
        None => parse_proto_style_op(f),
    };
    match op {
        Ok(o) => Ok(Step { out, op: Some(o) }),
        Err(e) => Err(e),
    }
}

fn parse_steps(a: &Vec<Json>) -> (r: Result<Vec<Step>, ParseError>)
    ensures
        match r {
            Ok(st) => steps_from(a@, 0) == Ok::<_, ParseError>(st@.map_values(|s: Step| s@)),
            Err(e) => steps_from(a@, 0) == Err::<Seq<StepV>, _>(e),
        },
{
    let mut out: Vec<Step> = Vec::new();
    let mut i: usize = 0;
    while i < a.len()
        invariant
            i <= a@.len(),
            steps_from(a@, 0) == prefixed(out@.map_values(|s: Step| s@), steps_from(a@, i as int)),
        decreases a.len() - i,
    {
        let step = match parse_step(&a[i]) {
            Ok(s) => s,
            Err(e) => {
                return Err(e);
            },
        };
        let ghost before = out@;
        out.push(step);
        proof {
            let pv = before.map_values(|s: Step| s@);
            let nv = out@.map_values(|s: Step| s@);
            assert(nv =~= pv.push(step@));
            match steps_from(a@, i + 1) {
                Ok(rest) => {
                    assert(pv + (seq![step@] + rest) =~= nv + rest);
                },
                Err(_) => {},
            }
        }
        i += 1;
    }
    assert(out@.map_values(|s: Step| s@) + seq![] =~= out@.map_values(|s: Step| s@));
    Ok(out)
}

fn parse_outputs(a: &Vec<Json>) -> (r: Result<Vec<OutputSpec>, ParseError>)
    ensures
        match r {
            Ok(o) => outputs_from(a@, 0) == Ok::<_, ParseError>(
                o@.map_values(|x: OutputSpec| x.reg@),
            ),
            Err(e) => outputs_from(a@, 0) == Err::<Seq<Seq<char>>, _>(e),
        },
{
    let mut out: Vec<OutputSpec> = Vec::new();
    let mut i: usize = 0;
    while i < a.len()
        invariant
            i <= a@.len(),
            outputs_from(a@, 0) == prefixed(
                out@.map_values(|x: OutputSpec| x.reg@),
                outputs_from(a@, i as int),
            ),
        decreases a.len() - i,
    {
        let reg = match &a[i] {
            Json::Str(s) => s.clone(),
            Json::Object(o) => match get_str(o, "reg") {
                Some(r) => r,
                None => {
                    return Err(ParseError::OutputMissingReg);
                },
            },
            _ => {
                return Err(ParseError::OutputNotStringOrObject);
            },
        };
        let ghost before = out@;
        out.push(OutputSpec { reg });
        proof {
            let pv = before.map_values(|x: OutputSpec| x.reg@);
            let nv = out@.map_values(|x: OutputSpec| x.reg@);
            assert(nv =~= pv.push(reg@));
            match outputs_from(a@, i + 1) {
                Ok(rest) => {
                    assert(pv + (seq![reg@] + rest) =~= nv + rest);
                },
                Err(_) => {},
            }
        }
        i += 1;
    }
    assert(out@.map_values(|x: OutputSpec| x.reg@) + seq![] =~= out@.map_values(
        |x: OutputSpec| x.reg@,
    ));
    Ok(out)
}

/// Reads a plan from its JSON document; a document without a request id
/// takes `fallback_request_id`.
pub fn parse_plan_json(root: &Json, fallback_request_id: &str) -> (r: Result<RmvmPlan, ParseError>)
    ensures
        res_view(r) == plan_of(*root, fallback_request_id@),
{
    let f = match root {
        Json::Object(f) => f,
        _ => {
            return Err(ParseError::RootNotObject);
        },
    };
    let request_id = match get_str2(f, "requestId", "request_id") {
        Some(r) => r,
        None => String::from_str(fallback_request_id),
    };
    let steps_v = match items_of(get(f, "steps")) {
        Some(a) => a,
        None => {
            return Err(ParseError::StepsNotArray);
        },
    };
    let steps = match parse_steps(steps_v) {
        Ok(s) => s,
        Err(e) => {
            return Err(e);
        },
    };
    let outputs_v = match items_of(get(f, "outputs")) {
        Some(a) => a,
        None => {
            return Err(ParseError::OutputsNotArray);
        },
    };
    let outputs = match parse_outputs(outputs_v) {
        Ok(o) => o,
        Err(e) => {
            return Err(e);
        },
    };
    Ok(RmvmPlan { request_id, steps, outputs })
}

} // verus!
