//! The order of one chat request's outside calls, as a step function: from
//! the stage the request is in and the outcome of the call it waited on, to
//! the next stage and the action to perform.

use vstd::prelude::*;
use crate::kernel::ExecuteResponse;
use crate::plan::{PublicManifest, RmvmPlan, plan_valid, validate_plan_against_manifest};
use crate::proxy::{PlannerMode, api_error, select_plan_source};
use crate::response::ApiError;

verus! {

#[derive(Debug, Clone, Copy, PartialEq, Eq, Structural)]
pub enum ChatStage {
    /// The user's event was sent to the kernel.
    AwaitAppend,
    /// The request's manifest was asked for.
    AwaitManifest,
    /// A plan is being obtained from the chosen source.
    AwaitPlan,
    /// The validated plan was sent for execution.
    AwaitExecute,
    /// A reply or an error was produced.
    Finished,
}

/// The outcome of the call a request waited on.
pub enum ChatEvent {
    Appended,
    ManifestReceived(PublicManifest),
    ManifestMissing,
    PlanReady(RmvmPlan),
    PlanFailed(ApiError),
    Executed(ExecuteResponse),
    /// The kernel call of the current stage failed in transport.
    CallFailed(String),
}

pub enum ChatAction {
    /// Ask the kernel for the request's manifest.
    GetManifest,
    /// Obtain a plan from this source: the plan header, the fallback planner
    /// or the external planner.
    ObtainPlan(PlannerMode),
    /// Execute this plan, which is valid against the manifest.
    Execute(RmvmPlan),
    /// Map the kernel's answer to the reply.
    Respond(ExecuteResponse),
    /// Stop with this error.
    Fail(ApiError),
}

/// One request on its way through the pipeline.
pub struct ChatFlow {
    pub stage: ChatStage,
    pub has_plan_header: bool,
    pub mode: PlannerMode,
    pub manifest: Option<PublicManifest>,
}

impl ChatFlow {
    /// A request whose event has just been sent to the kernel.
    pub fn new(has_plan_header: bool, mode: PlannerMode) -> (r: ChatFlow)
        ensures
            r.stage == ChatStage::AwaitAppend,
            r.has_plan_header == has_plan_header,
            r.mode == mode,
            r.manifest.is_none(),
    {
        ChatFlow { stage: ChatStage::AwaitAppend, has_plan_header, mode, manifest: None }
    }
}

/// The action fails with `status` and `code`.
pub open spec fn fails_with(a: ChatAction, status: u16, code: Seq<char>) -> bool {
    a matches ChatAction::Fail(e) && e.status == status && e.code@ == code
}

/// Advances a request by the outcome of the call it waited on. Every failure
/// ends the request; a plan is executed only once it is valid against the
/// manifest; an event that does not belong to the stage ends it with 500.
pub fn chat_step(flow: &mut ChatFlow, event: ChatEvent) -> (a: ChatAction)
    ensures
        final(flow).has_plan_header == old(flow).has_plan_header,
        final(flow).mode == old(flow).mode,
        a matches ChatAction::Fail(_) <==> final(flow).stage == ChatStage::Finished && !(
        a matches ChatAction::Respond(_)),
        match (old(flow).stage, event) {
            (ChatStage::AwaitAppend, ChatEvent::Appended) => a matches ChatAction::GetManifest
                && final(flow).stage == ChatStage::AwaitManifest,
            (ChatStage::AwaitAppend, ChatEvent::CallFailed(_)) => fails_with(a, 502, "append_event_failed"@),
            (ChatStage::AwaitManifest, ChatEvent::ManifestReceived(m)) => if old(flow).has_plan_header {
                a == ChatAction::ObtainPlan(PlannerMode::ByoHeader) && final(flow).stage
                    == ChatStage::AwaitPlan && final(flow).manifest == Some(m)
            } else if old(flow).mode == PlannerMode::ByoHeader {
                fails_with(a, 400, "plan_header_required"@)
            } else {
                a == ChatAction::ObtainPlan(old(flow).mode) && final(flow).stage == ChatStage::AwaitPlan
                    && final(flow).manifest == Some(m)
            },
            (ChatStage::AwaitManifest, ChatEvent::ManifestMissing) => fails_with(a, 502, "manifest_missing"@),
            (ChatStage::AwaitManifest, ChatEvent::CallFailed(_)) => fails_with(a, 502, "get_manifest_failed"@),
            (ChatStage::AwaitPlan, ChatEvent::PlanReady(p)) => match old(flow).manifest {
                Some(m) => if plan_valid(p, m) {
                    a == ChatAction::Execute(p) && final(flow).stage == ChatStage::AwaitExecute
                        && final(flow).manifest == old(flow).manifest
                } else {
                    fails_with(a, 400, "invalid_plan"@)
                },
                None => fails_with(a, 500, "pipeline_out_of_order"@),
            },
            (ChatStage::AwaitPlan, ChatEvent::PlanFailed(e)) => a == ChatAction::Fail(e),
            (ChatStage::AwaitExecute, ChatEvent::Executed(x)) => a == ChatAction::Respond(x)
                && final(flow).stage == ChatStage::Finished,
            (ChatStage::AwaitExecute, ChatEvent::CallFailed(_)) => fails_with(a, 502, "execute_failed"@),
            _ => fails_with(a, 500, "pipeline_out_of_order"@),
        },
{
    let stage = flow.stage;
    let (next, action) = match (stage, event) {
        (ChatStage::AwaitAppend, ChatEvent::Appended) => (ChatStage::AwaitManifest, ChatAction::GetManifest),
        (ChatStage::AwaitAppend, ChatEvent::CallFailed(_)) => (
            ChatStage::Finished,
            ChatAction::Fail(api_error(502, "append_event_failed", "append_event RPC failed")),
        ),
        (ChatStage::AwaitManifest, ChatEvent::ManifestReceived(m)) => {
            match select_plan_source(flow.has_plan_header, flow.mode) {
                Ok(source) => {
                    flow.manifest = Some(m);
                    (ChatStage::AwaitPlan, ChatAction::ObtainPlan(source))
                },
                Err(e) => (ChatStage::Finished, ChatAction::Fail(e)),
            }
        },
        (ChatStage::AwaitManifest, ChatEvent::ManifestMissing) => (
            ChatStage::Finished,
            ChatAction::Fail(api_error(502, "manifest_missing", "rmvm returned no manifest")),
        ),
        (ChatStage::AwaitManifest, ChatEvent::CallFailed(_)) => (
            ChatStage::Finished,
            ChatAction::Fail(api_error(502, "get_manifest_failed", "get_manifest RPC failed")),
        ),
        (ChatStage::AwaitPlan, ChatEvent::PlanReady(p)) => match &flow.manifest {
            Some(m) => match validate_plan_against_manifest(&p, m) {
                Ok(()) => (ChatStage::AwaitExecute, ChatAction::Execute(p)),
                Err(_) => (
                    ChatStage::Finished,
                    ChatAction::Fail(api_error(400, "invalid_plan", "plan is not valid against the manifest")),
                ),
            },
            None => (
                ChatStage::Finished,
                ChatAction::Fail(api_error(500, "pipeline_out_of_order", "no manifest for the plan")),
            ),
        },
        (ChatStage::AwaitPlan, ChatEvent::PlanFailed(e)) => (ChatStage::Finished, ChatAction::Fail(e)),
        (ChatStage::AwaitExecute, ChatEvent::Executed(x)) => (ChatStage::Finished, ChatAction::Respond(x)),
        (ChatStage::AwaitExecute, ChatEvent::CallFailed(_)) => (
            ChatStage::Finished,
            ChatAction::Fail(api_error(502, "execute_failed", "execute RPC failed")),
        ),
        _ => (
            ChatStage::Finished,
            ChatAction::Fail(api_error(500, "pipeline_out_of_order", "event does not belong to this stage")),
        ),
    };
    flow.stage = next;
    action
}

} // verus!
