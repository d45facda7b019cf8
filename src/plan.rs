//! Kernel plans, the manifest they are checked against, plan validation and
//! the deterministic fallback planner.

use vstd::prelude::*;
use crate::json::JsonNumber;
use crate::text::{is_blank, is_space_char, chars_of};

verus! {

/// A typed parameter value; a floating-point value is kept as the JSON number
/// that gave it.
#[derive(Debug, Clone)]
pub enum ParamValue {
    S(String),
    B(bool),
    I64(i64),
    F64(JsonNumber),
    E(String),
}

/// One named parameter; a parameter list holds each name once, sorted.
#[derive(Debug, Clone)]
pub struct Param {
    pub name: String,
    pub value: ParamValue,
}

#[derive(Debug, Clone, Copy, PartialEq, Eq, Structural)]
pub enum EdgeType {
    ConflictsWith,
    Supersedes,
    Provenance,
    SameEntity,
}

#[derive(Debug, Clone, Copy, PartialEq, Eq, Structural)]
pub enum AssertionType {
    UserPreference,
    WorldFact,
    Decision,
    Procedure,
    ConflictExplanation,
}

/// A field of a register's value.
#[derive(Debug, Clone)]
pub struct ValueRef {
    pub reg: String,
    pub field_path: String,
}

/// One binding of an assertion; an assertion holds each name once, sorted.
#[derive(Debug, Clone)]
pub struct Binding {
    pub name: String,
    pub value: ValueRef,
}

#[derive(Debug, Clone)]
pub enum Citation {
    HandleRef(String),
    AnchorRef(String),
}

#[derive(Debug, Clone)]
pub enum Op {
    Fetch { handle_ref: String },
    ApplySelector { selector_ref: String, params: Vec<Param> },
    Resolve { in_reg: String, policy_id: String },
    Filter { in_reg: String, filter_ref: String, params: Vec<Param> },
    Join { left_reg: String, right_reg: String, edge_type: EdgeType },
    Project { in_reg: String, field_paths: Vec<String> },
    Assert { assertion_type: AssertionType, bindings: Vec<Binding>, citations: Vec<Citation> },
}

/// One step: the register it defines and the operation that fills it.
#[derive(Debug, Clone)]
pub struct Step {
    pub out: String,
    pub op: Option<Op>,
}

#[derive(Debug, Clone)]
pub struct OutputSpec {
    pub reg: String,
}

#[derive(Debug, Clone)]
pub struct RmvmPlan {
    pub request_id: String,
    pub steps: Vec<Step>,
    pub outputs: Vec<OutputSpec>,
}

/// A handle the kernel offers for one request.
#[derive(Debug, Clone)]
pub struct HandleRef {
    pub handle_ref: String,
    pub type_id: String,
    pub signature_summary: String,
}

/// A selector the kernel offers for one request.
#[derive(Debug, Clone)]
pub struct SelectorRef {
    pub sel: String,
    pub description: String,
}

/// What the kernel accepts plans against for one request.
#[derive(Debug, Clone)]
pub struct PublicManifest {
    pub request_id: String,
    pub handles: Vec<HandleRef>,
    pub selectors: Vec<SelectorRef>,
}

/// Why a plan is refused, or cannot be made.
#[derive(Debug, Clone, PartialEq, Eq)]
pub enum PlanError {
    EmptyOut,
    RegisterRedefined(String),
    MissingOp,
    UnknownHandleRef(String),
    UnknownSelectorRef(String),
    UndefinedRegister(String),
    JoinRegistersUndefined,
    UndefinedBindingRegister(String),
    NoHandleOrSelector,
}

/// A parameter value as plain values.
pub enum ValueV {
    S(Seq<char>),
    B(bool),
    I64(i64),
    F64(JsonNumber),
    E(Seq<char>),
}

pub enum CitationV {
    Handle(Seq<char>),
    Anchor(Seq<char>),
}

/// An operation as plain values; parameter lists and bindings are kept in
/// order, bindings as (name, register, field path).
pub enum OpV {
    Fetch(Seq<char>),
    ApplySelector(Seq<char>, Seq<(Seq<char>, ValueV)>),
    Resolve(Seq<char>, Seq<char>),
    Filter(Seq<char>, Seq<char>, Seq<(Seq<char>, ValueV)>),
    Join(Seq<char>, Seq<char>, EdgeType),
    Project(Seq<char>, Seq<Seq<char>>),
    Assert(AssertionType, Seq<(Seq<char>, Seq<char>, Seq<char>)>, Seq<CitationV>),
}

pub struct StepV {
    pub out: Seq<char>,
    pub op: Option<OpV>,
}

pub struct PlanV {
    pub request_id: Seq<char>,
    pub steps: Seq<StepV>,
    pub outputs: Seq<Seq<char>>,
}

impl View for ParamValue {
    type V = ValueV;

    open spec fn view(&self) -> ValueV {
        match self {
            ParamValue::S(s) => ValueV::S(s@),
            ParamValue::B(b) => ValueV::B(*b),
            ParamValue::I64(i) => ValueV::I64(*i),
            ParamValue::F64(n) => ValueV::F64(*n),
            ParamValue::E(e) => ValueV::E(e@),
        }
    }
}

pub open spec fn params_view(ps: Seq<Param>) -> Seq<(Seq<char>, ValueV)> {
    ps.map_values(|p: Param| (p.name@, p.value@))
}

pub open spec fn bindings_view(bs: Seq<Binding>) -> Seq<(Seq<char>, Seq<char>, Seq<char>)> {
    bs.map_values(|b: Binding| (b.name@, b.value.reg@, b.value.field_path@))
}

pub open spec fn citation_view(c: Citation) -> CitationV {
    match c {
        Citation::HandleRef(h) => CitationV::Handle(h@),
        Citation::AnchorRef(a) => CitationV::Anchor(a@),
    }
}

pub open spec fn strings_view(v: Seq<String>) -> Seq<Seq<char>> {
    v.map_values(|s: String| s@)
}

impl View for Op {
    type V = OpV;

    open spec fn view(&self) -> OpV {
        match self {
            Op::Fetch { handle_ref } => OpV::Fetch(handle_ref@),
            Op::ApplySelector { selector_ref, params } => OpV::ApplySelector(
                selector_ref@,
                params_view(params@),
            ),
            Op::Resolve { in_reg, policy_id } => OpV::Resolve(in_reg@, policy_id@),
            Op::Filter { in_reg, filter_ref, params } => OpV::Filter(
                in_reg@,
                filter_ref@,
                params_view(params@),
            ),
            Op::Join { left_reg, right_reg, edge_type } => OpV::Join(
                left_reg@,
                right_reg@,
                *edge_type,
            ),
            Op::Project { in_reg, field_paths } => OpV::Project(in_reg@, strings_view(field_paths@)),
            Op::Assert { assertion_type, bindings, citations } => OpV::Assert(
                *assertion_type,
                bindings_view(bindings@),
                citations@.map_values(|c: Citation| citation_view(c)),
            ),
        }
    }
}

impl View for Step {
    type V = StepV;

    open spec fn view(&self) -> StepV {
        StepV {
            out: self.out@,
            op: match self.op {
                Some(op) => Some(op@),
                None => None,
            },
        }
    }
}

impl View for RmvmPlan {
    type V = PlanV;

    open spec fn view(&self) -> PlanV {
        PlanV {
            request_id: self.request_id@,
            steps: self.steps@.map_values(|s: Step| s@),
            outputs: self.outputs@.map_values(|o: OutputSpec| o.reg@),
        }
    }
}

/// Some step before step `i` defines register `reg`.
pub open spec fn defined_before(steps: Seq<Step>, i: int, reg: Seq<char>) -> bool {
    exists|j: int| 0 <= j < i && (#[trigger] steps[j]).out@ == reg
}

pub open spec fn has_handle(m: PublicManifest, r: Seq<char>) -> bool {
    exists|k: int| 0 <= k < m.handles@.len() && (#[trigger] m.handles@[k]).handle_ref@ == r
}

pub open spec fn has_selector(m: PublicManifest, r: Seq<char>) -> bool {
    exists|k: int| 0 <= k < m.selectors@.len() && (#[trigger] m.selectors@[k]).sel@ == r
}

/// The register of the first binding, from `k` on, that no step before
/// step `i` defines.
pub open spec fn first_unbound(steps: Seq<Step>, i: int, bs: Seq<Binding>, k: int) -> Option<
    String,
>
    decreases bs.len() - k,
{
    if k < 0 || k >= bs.len() {
        None
    } else if !defined_before(steps, i, bs[k].value.reg@) {
        Some(bs[k].value.reg)
    } else {
        first_unbound(steps, i, bs, k + 1)
    }
}

/// What is wrong with step `i`, read against the steps before it.
pub open spec fn step_error(steps: Seq<Step>, i: int, m: PublicManifest) -> Option<PlanError> {
    let s = steps[i];
    if is_blank(s.out@) {
        Some(PlanError::EmptyOut)
    } else if defined_before(steps, i, s.out@) {
        Some(PlanError::RegisterRedefined(s.out))
    } else {
        match s.op {
            None => Some(PlanError::MissingOp),
            Some(op) => match op {
                Op::Fetch { handle_ref } => if has_handle(m, handle_ref@) {
                    None
                } else {
                    Some(PlanError::UnknownHandleRef(handle_ref))
                },
                Op::ApplySelector { selector_ref, .. } => if has_selector(m, selector_ref@) {
                    None
                } else {
                    Some(PlanError::UnknownSelectorRef(selector_ref))
                },
                Op::Resolve { in_reg, .. } => if defined_before(steps, i, in_reg@) {
                    None
                } else {
                    Some(PlanError::UndefinedRegister(in_reg))
                },
                Op::Filter { in_reg, .. } => if defined_before(steps, i, in_reg@) {
                    None
                } else {
                    Some(PlanError::UndefinedRegister(in_reg))
                },
                Op::Project { in_reg, .. } => if defined_before(steps, i, in_reg@) {
                    None
                } else {
                    Some(PlanError::UndefinedRegister(in_reg))
                },
                Op::Join { left_reg, right_reg, .. } => if defined_before(steps, i, left_reg@)
                    && defined_before(steps, i, right_reg@) {
                    None
                } else {
                    Some(PlanError::JoinRegistersUndefined)
                },
                Op::Assert { bindings, .. } => match first_unbound(steps, i, bindings@, 0) {
                    Some(reg) => Some(PlanError::UndefinedBindingRegister(reg)),
                    None => None,
                },
            },
        }
    }
}

/// The outcome of checking steps `i..` in order: the first error found.
pub open spec fn check_from(steps: Seq<Step>, m: PublicManifest, i: int) -> Result<(), PlanError>
    decreases steps.len() - i,
{
    if i < 0 || i >= steps.len() {
        Ok(())
    } else {
        match step_error(steps, i, m) {
            Some(e) => Err(e),
            None => check_from(steps, m, i + 1),
        }
    }
}

/// Step `i` reads only registers defined before it, names only refs that the
/// manifest lists, and defines a fresh, non-blank register.
pub open spec fn step_ok(steps: Seq<Step>, i: int, m: PublicManifest) -> bool {
    let s = steps[i];
    &&& !is_blank(s.out@)
    &&& !defined_before(steps, i, s.out@)
    &&& s.op.is_some()
    &&& match s.op.unwrap() {
        Op::Fetch { handle_ref } => has_handle(m, handle_ref@),
        Op::ApplySelector { selector_ref, .. } => has_selector(m, selector_ref@),
        Op::Resolve { in_reg, .. } => defined_before(steps, i, in_reg@),
        Op::Filter { in_reg, .. } => defined_before(steps, i, in_reg@),
        Op::Project { in_reg, .. } => defined_before(steps, i, in_reg@),
        Op::Join { left_reg, right_reg, .. } => defined_before(steps, i, left_reg@)
            && defined_before(steps, i, right_reg@),
        Op::Assert { bindings, .. } => forall|k: int|
            0 <= k < bindings@.len() ==> defined_before(steps, i, (#[trigger] bindings@[k]).value.reg@),
    }
}

/// Every step of the plan is well formed against the manifest.
pub open spec fn plan_valid(p: RmvmPlan, m: PublicManifest) -> bool {
    forall|i: int| 0 <= i < p.steps@.len() ==> step_ok(p.steps@, i, m)
}

proof fn lemma_first_unbound(steps: Seq<Step>, i: int, bs: Seq<Binding>, k: int)
    requires
        0 <= k <= bs.len(),
    ensures
        first_unbound(steps, i, bs, k).is_none() <==> forall|n: int|
            k <= n < bs.len() ==> defined_before(steps, i, (#[trigger] bs[n]).value.reg@),
    decreases bs.len() - k,
{
    if k < bs.len() {
        lemma_first_unbound(steps, i, bs, k + 1);
    }
}

proof fn lemma_step_error_none(steps: Seq<Step>, i: int, m: PublicManifest)
    requires
        0 <= i < steps.len(),
    ensures
        step_error(steps, i, m).is_none() <==> step_ok(steps, i, m),
{
    match steps[i].op {
        Some(Op::Assert { bindings, .. }) => lemma_first_unbound(steps, i, bindings@, 0),
        _ => {},
    }
}

proof fn lemma_check_from(steps: Seq<Step>, m: PublicManifest, i: int)
    requires
        0 <= i <= steps.len(),
    ensures
        check_from(steps, m, i).is_ok() <==> forall|n: int|
            i <= n < steps.len() ==> step_ok(steps, n, m),
    decreases steps.len() - i,
{
    if i < steps.len() {
        lemma_step_error_none(steps, i, m);
        lemma_check_from(steps, m, i + 1);
    }
}

/// A plan passes validation exactly when every register it reads is defined
/// by an earlier step, every handle and selector it names is in the manifest,
/// and its step names are non-blank and unique.
pub proof fn lemma_validation_iff_valid(p: RmvmPlan, m: PublicManifest)
    ensures
        check_from(p.steps@, m, 0).is_ok() <==> plan_valid(p, m),
{
    lemma_check_from(p.steps@, m, 0);
}

fn is_blank_string(s: &String) -> (r: bool)
    ensures
        r == is_blank(s@),
{
    let v = chars_of(s.as_str());
    let mut i: usize = 0;
    while i < v.len()
        invariant
            v@ == s@,
            i <= v@.len(),
            forall|k: int| 0 <= k < i ==> crate::text::is_space(#[trigger] v@[k]),
        decreases v.len() - i,
    {
        if !is_space_char(v[i]) {
            return false;
        }
        i += 1;
    }
    true
}

fn is_defined_before(steps: &Vec<Step>, i: usize, reg: &String) -> (r: bool)
    requires
        i <= steps@.len(),
    ensures
        r == defined_before(steps@, i as int, reg@),
{
    let mut j: usize = 0;
    while j < i
        invariant
            i <= steps@.len(),
            j <= i,
            forall|k: int| 0 <= k < j ==> (#[trigger] steps@[k]).out@ != reg@,
        decreases i - j,
    {
        if steps[j].out == *reg {
            return true;
        }
        j += 1;
    }
    false
}

fn manifest_has_handle(m: &PublicManifest, r: &String) -> (b: bool)
    ensures
        b == has_handle(*m, r@),
{
    let mut k: usize = 0;
    while k < m.handles.len()
        invariant
            k <= m.handles@.len(),
            forall|n: int| 0 <= n < k ==> (#[trigger] m.handles@[n]).handle_ref@ != r@,
        decreases m.handles.len() - k,
    {
        if m.handles[k].handle_ref == *r {
            return true;
        }
        k += 1;
    }
    false
}

fn manifest_has_selector(m: &PublicManifest, r: &String) -> (b: bool)
    ensures
        b == has_selector(*m, r@),
{
    let mut k: usize = 0;
    while k < m.selectors.len()
        invariant
            k <= m.selectors@.len(),
            forall|n: int| 0 <= n < k ==> (#[trigger] m.selectors@[n]).sel@ != r@,
        decreases m.selectors.len() - k,
    {
        if m.selectors[k].sel == *r {
            return true;
        }
        k += 1;
    }
    false
}

fn find_unbound(steps: &Vec<Step>, i: usize, bs: &Vec<Binding>) -> (r: Option<String>)
    requires
        i <= steps@.len(),
    ensures
        r == first_unbound(steps@, i as int, bs@, 0),
{
    let mut k: usize = 0;
    while k < bs.len()
        invariant
            i <= steps@.len(),
            k <= bs@.len(),
            first_unbound(steps@, i as int, bs@, 0) == first_unbound(steps@, i as int, bs@, k as int),
        decreases bs.len() - k,
    {
        if !is_defined_before(steps, i, &bs[k].value.reg) {
            return Some(bs[k].value.reg.clone());
        }
        k += 1;
    }
    None
}

fn check_step(steps: &Vec<Step>, i: usize, m: &PublicManifest) -> (r: Option<PlanError>)
    requires
        i < steps@.len(),
    ensures
        r == step_error(steps@, i as int, *m),
{
    let s = &steps[i];
    if is_blank_string(&s.out) {
        return Some(PlanError::EmptyOut);
    }
    if is_defined_before(steps, i, &s.out) {
        return Some(PlanError::RegisterRedefined(s.out.clone()));
    }
    match &s.op {
        None => Some(PlanError::MissingOp),
        Some(Op::Fetch { handle_ref }) => {
            if manifest_has_handle(m, handle_ref) {
                None
            } else {
                Some(PlanError::UnknownHandleRef(handle_ref.clone()))
            }
        },
        Some(Op::ApplySelector { selector_ref, .. }) => {
            if manifest_has_selector(m, selector_ref) {
                None
            } else {
                Some(PlanError::UnknownSelectorRef(selector_ref.clone()))
            }
        },
        Some(Op::Resolve { in_reg, .. }) | Some(Op::Filter { in_reg, .. }) | Some(
            Op::Project { in_reg, .. },
        ) => {
            if is_defined_before(steps, i, in_reg) {
                None
            } else {
                Some(PlanError::UndefinedRegister(in_reg.clone()))
            }
        },
        Some(Op::Join { left_reg, right_reg, .. }) => {
            if is_defined_before(steps, i, left_reg) && is_defined_before(steps, i, right_reg) {
                None
            } else {
                Some(PlanError::JoinRegistersUndefined)
            }
        },
        Some(Op::Assert { bindings, .. }) => match find_unbound(steps, i, bindings) {
            Some(reg) => Some(PlanError::UndefinedBindingRegister(reg)),
            None => None,
        },
    }
}

/// Checks the steps in order and reports the first problem found.
pub fn validate_plan_against_manifest(plan: &RmvmPlan, manifest: &PublicManifest) -> (r: Result<
    (),
    PlanError,
>)
    ensures
        r == check_from(plan.steps@, *manifest, 0),
        r.is_ok() <==> plan_valid(*plan, *manifest),
{
    proof {
        lemma_validation_iff_valid(*plan, *manifest);
    }
    let mut i: usize = 0;
    while i < plan.steps.len()
        invariant
            i <= plan.steps@.len(),
            check_from(plan.steps@, *manifest, 0) == check_from(plan.steps@, *manifest, i as int),
        decreases plan.steps.len() - i,
    {
        if let Some(e) = check_step(&plan.steps, i, manifest) {
            assert(check_from(plan.steps@, *manifest, i as int) == Err::<(), PlanError>(e));
            proof {
                lemma_validation_iff_valid(*plan, *manifest);
            }
            return Err(e);
        }
        i += 1;
    }
    Ok(())
}

/// Steps `r1` and `r2` and the output of a fallback plan: project field
/// `path` of `r0`, then assert a world fact binding `subject` to it.
pub open spec fn fallback_tail(p: RmvmPlan, request_id: Seq<char>, path: Seq<char>) -> bool {
    &&& p.request_id@ == request_id
    &&& p.steps@.len() == 3
    &&& p.steps@[0].out@ == "r0"@
    &&& p.steps@[1].out@ == "r1"@
    &&& p.steps@[2].out@ == "r2"@
    &&& match p.steps@[1].op {
        Some(Op::Project { in_reg, field_paths }) => in_reg@ == "r0"@ && field_paths@.len() == 1
            && field_paths@[0]@ == path,
        _ => false,
    }
    &&& match p.steps@[2].op {
        Some(Op::Assert { assertion_type, bindings, citations }) => assertion_type
            == AssertionType::WorldFact && bindings@.len() == 1 && bindings@[0].name@ == "subject"@
            && bindings@[0].value.reg@ == "r1"@ && bindings@[0].value.field_path@ == path
            && citations@.len() == 0,
        _ => false,
    }
    &&& p.outputs@.len() == 1
    &&& p.outputs@[0].reg@ == "r2"@
}

/// The plan that the fallback planner makes for `m`: over the first handle
/// if there is one, else over the first selector with the caller's subject.
pub open spec fn fallback_plan(
    p: RmvmPlan,
    request_id: Seq<char>,
    subject: Seq<char>,
    m: PublicManifest,
) -> bool {
    if m.handles@.len() > 0 {
        &&& fallback_tail(p, request_id, "meta.subject"@)
        &&& match p.steps@[0].op {
            Some(Op::Fetch { handle_ref }) => handle_ref@ == m.handles@[0].handle_ref@,
            _ => false,
        }
    } else {
        &&& fallback_tail(p, request_id, "set_count"@)
        &&& match p.steps@[0].op {
            Some(Op::ApplySelector { selector_ref, params }) => selector_ref@ == m.selectors@[0].sel@
                && params@.len() == 1 && params@[0].name@ == "subject"@ && match params@[0].value {
                ParamValue::S(v) => v@ == subject,
                _ => false,
            },
            _ => false,
        }
    }
}

/// Every plan of the fallback planner's shape passes validation against the
/// manifest it was made from, whenever that manifest offers a handle or a
/// selector.
pub proof fn lemma_fallback_plan_valid(
    request_id: Seq<char>,
    subject: Seq<char>,
    m: PublicManifest,
    p: RmvmPlan,
)
    requires
        m.handles@.len() > 0 || m.selectors@.len() > 0,
        fallback_plan(p, request_id, subject, m),
    ensures
        plan_valid(p, m),
{
    reveal_strlit("r0");
    reveal_strlit("r1");
    reveal_strlit("r2");
    let steps = p.steps@;
    assert(!is_blank(steps[0].out@)) by {
        assert(!crate::text::is_space(steps[0].out@[0]));
    }
    assert(!is_blank(steps[1].out@)) by {
        assert(!crate::text::is_space(steps[1].out@[0]));
    }
    assert(!is_blank(steps[2].out@)) by {
        assert(!crate::text::is_space(steps[2].out@[0]));
    }
    assert(steps[0].out@ != steps[1].out@ && steps[0].out@ != steps[2].out@ && steps[1].out@
        != steps[2].out@) by {
        assert(steps[0].out@[1] != steps[1].out@[1]);
        assert(steps[0].out@[1] != steps[2].out@[1]);
        assert(steps[1].out@[1] != steps[2].out@[1]);
    }
    assert(defined_before(steps, 1, "r0"@));
    assert(defined_before(steps, 2, "r1"@));
    if m.handles@.len() > 0 {
        assert(has_handle(m, m.handles@[0].handle_ref@));
    } else {
        assert(has_selector(m, m.selectors@[0].sel@));
    }
    assert(step_ok(steps, 0, m));
    assert(step_ok(steps, 1, m));
    assert(step_ok(steps, 2, m));
}

/// Builds the plan `r0 = first; r1 = r0.{path}; r2 = assert world fact
/// {subject: r1.path}` with output `r2`.
fn fallback_with(request_id: &str, first: Op, path: &str) -> (p: RmvmPlan)
    ensures
        fallback_tail(p, request_id@, path@),
        p.steps@[0].op == Some(first),
{
    let steps = vec![
        Step { out: String::from_str("r0"), op: Some(first) },
        Step {
            out: String::from_str("r1"),
            op: Some(
                Op::Project {
                    in_reg: String::from_str("r0"),
                    field_paths: vec![String::from_str(path)],
                },
            ),
        },
        Step {
            out: String::from_str("r2"),
            op: Some(
                Op::Assert {
                    assertion_type: AssertionType::WorldFact,
                    bindings: vec![
                        Binding {
                            name: String::from_str("subject"),
                            value: ValueRef {
                                reg: String::from_str("r1"),
                                field_path: String::from_str(path),
                            },
                        },
                    ],
                    citations: Vec::new(),
                },
            ),
        },
    ];
    RmvmPlan {
        request_id: String::from_str(request_id),
        steps,
        outputs: vec![OutputSpec { reg: String::from_str("r2") }],
    }
}

/// The fallback plan over the manifest's first handle, or else its first
/// selector applied to the caller's subject.
pub fn deterministic_plan_from_manifest(
    request_id: &str,
    subject: &str,
    manifest: &PublicManifest,
) -> (r: Result<RmvmPlan, PlanError>)
    ensures
        r.is_err() <==> manifest.handles@.len() == 0 && manifest.selectors@.len() == 0,
        r matches Err(e) ==> e == PlanError::NoHandleOrSelector,
        r matches Ok(p) ==> fallback_plan(p, request_id@, subject@, *manifest) && plan_valid(
            p,
            *manifest,
        ),
{
    if manifest.handles.len() > 0 {
        let first = Op::Fetch { handle_ref: manifest.handles[0].handle_ref.clone() };
        let p = fallback_with(request_id, first, "meta.subject");
        proof {
            lemma_fallback_plan_valid(request_id@, subject@, *manifest, p);
        }
        return Ok(p);
    }
    if manifest.selectors.len() == 0 {
        return Err(PlanError::NoHandleOrSelector);
    }
    let params = vec![
        Param { name: String::from_str("subject"), value: ParamValue::S(String::from_str(subject)) },
    ];
    let first = Op::ApplySelector { selector_ref: manifest.selectors[0].sel.clone(), params };
    let p = fallback_with(request_id, first, "set_count");
    proof {
        lemma_fallback_plan_valid(request_id@, subject@, *manifest, p);
    }
    Ok(p)
}

} // verus!
