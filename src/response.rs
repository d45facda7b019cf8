//! Turning the kernel's answer into the proxy's HTTP reply.

use vstd::prelude::*;
use crate::kernel::{ExecuteResponse, ExecutionStatus, status_name};

verus! {

#[derive(Debug, Clone)]
pub struct AssistantMessage {
    pub role: String,
    pub content: String,
}

#[derive(Debug, Clone)]
pub struct Choice {
    pub index: usize,
    pub message: AssistantMessage,
    pub finish_reason: String,
}

#[derive(Debug, Clone, Copy)]
pub struct Usage {
    pub prompt_tokens: u32,
    pub completion_tokens: u32,
    pub total_tokens: u32,
}

/// What the proxy adds to an OpenAI-shaped completion: the kernel's status
/// and proof roots, and where the plan came from.
#[derive(Debug, Clone)]
pub struct CortexEnvelope {
    pub status: String,
    pub semantic_root: Option<String>,
    pub trace_root: Option<String>,
    pub error_code: Option<String>,
    pub plan_prompt: Option<String>,
    pub plan_source: Option<String>,
}

#[derive(Debug, Clone)]
pub struct ChatCompletionResponse {
    pub id: String,
    pub object: String,
    pub created: i64,
    pub model: String,
    pub choices: Vec<Choice>,
    pub usage: Usage,
    pub cortex: CortexEnvelope,
}

#[derive(Debug, Clone)]
pub struct OpenAiError {
    pub message: String,
    pub error_type: String,
    pub code: String,
}

#[derive(Debug, Clone)]
pub struct OpenAiErrorResponse {
    pub error: OpenAiError,
}

/// A refused request: HTTP status, error code and message, and the headers
/// to send with it.
#[derive(Debug, Clone)]
pub struct ApiError {
    pub status: u16,
    pub code: String,
    pub message: String,
    pub headers: Vec<(String, String)>,
}

pub enum ReplyBody {
    Completion(ChatCompletionResponse),
    Error(OpenAiErrorResponse),
}

/// An HTTP reply of the proxy.
pub struct HttpReply {
    pub status: u16,
    pub headers: Vec<(String, String)>,
    pub body: ReplyBody,
}

/// The HTTP status that answers a kernel status.
pub open spec fn http_status_of(s: ExecutionStatus) -> u16 {
    match s {
        ExecutionStatus::Success => 200,
        ExecutionStatus::Rejected => 400,
        ExecutionStatus::Stall => 503,
        ExecutionStatus::AuthDenied => 403,
        ExecutionStatus::RangeExceeded => 429,
        ExecutionStatus::Unspecified => 502,
    }
}

/// A header value may hold tab and visible ASCII only.
pub open spec fn header_value_ok(v: Seq<char>) -> bool {
    forall|i: int| 0 <= i < v.len() ==> (#[trigger] v[i] == '\t' || (' ' <= v[i] && v[i] <= '~'))
}

pub open spec fn headers_view(h: Seq<(String, String)>) -> Seq<(Seq<char>, Seq<char>)> {
    h.map_values(|p: (String, String)| (p.0@, p.1@))
}

/// The header `(name, value)`, or nothing when `value` cannot be sent.
pub open spec fn header_if_ok(name: Seq<char>, value: Seq<char>) -> Seq<(Seq<char>, Seq<char>)> {
    if header_value_ok(value) {
        seq![(name, value)]
    } else {
        seq![]
    }
}

/// The `x-cortex-*` headers that go with every mapped reply.
pub open spec fn cortex_headers_of(e: ExecuteResponse, plan_source: Seq<char>) -> Seq<
    (Seq<char>, Seq<char>),
> {
    header_if_ok("x-cortex-status"@, status_name(e.status)) + header_if_ok(
        "x-cortex-plan-source"@,
        plan_source,
    ) + match e.proof {
        Some(p) => header_if_ok("x-cortex-semantic-root"@, p.semantic_root@) + header_if_ok(
            "x-cortex-trace-root"@,
            p.trace_root@,
        ),
        None => seq![],
    } + match e.error {
        Some(err) => header_if_ok("x-cortex-error-code"@, err.code@),
        None => seq![],
    } + match e.stall {
        Some(st) => header_if_ok("x-cortex-stall-handle"@, st.handle_ref@) + header_if_ok(
            "x-cortex-stall-availability"@,
            st.availability@,
        ),
        None => seq![],
    }
}

fn is_header_value(v: &String) -> (r: bool)
    ensures
        r == header_value_ok(v@),
{
    let cs = crate::text::chars_of(v.as_str());
    let mut i: usize = 0;
    while i < cs.len()
        invariant
            cs@ == v@,
            i <= cs@.len(),
            forall|k: int| 0 <= k < i ==> (#[trigger] cs@[k] == '\t' || (' ' <= cs@[k] && cs@[k] <= '~')),
        decreases cs.len() - i,
    {
        let c = cs[i];
        if !(c == '\t' || (' ' <= c && c <= '~')) {
            return false;
        }
        i += 1;
    }
    true
}

/// Appends the header when its value can be sent.
pub fn push_header(headers: &mut Vec<(String, String)>, name: &str, value: &String)
    ensures
        headers_view(final(headers)@) == headers_view(old(headers)@) + header_if_ok(name@, value@),
{
    let ghost before = headers@;
    if is_header_value(value) {
        headers.push((String::from_str(name), value.clone()));
        assert(headers_view(headers@) =~= headers_view(before) + seq![(name@, value@)]);
    } else {
        assert(headers_view(before) + seq![] =~= headers_view(before));
    }
}

/// The `x-cortex-*` headers for a kernel answer.
pub fn cortex_headers(execute: &ExecuteResponse, plan_source: &String) -> (r: Vec<(String, String)>)
    ensures
        headers_view(r@) == cortex_headers_of(*execute, plan_source@),
{
    let mut headers: Vec<(String, String)> = Vec::new();
    let status = String::from_str(execute.status.as_str_name());
    push_header(&mut headers, "x-cortex-status", &status);
    push_header(&mut headers, "x-cortex-plan-source", plan_source);
    let ghost h2 = headers_view(headers@);
    if let Some(p) = &execute.proof {
        push_header(&mut headers, "x-cortex-semantic-root", &p.semantic_root);
        push_header(&mut headers, "x-cortex-trace-root", &p.trace_root);
    }
    let ghost h3 = headers_view(headers@);
    if let Some(err) = &execute.error {
        push_header(&mut headers, "x-cortex-error-code", &err.code);
    }
    let ghost h4 = headers_view(headers@);
    if let Some(st) = &execute.stall {
        push_header(&mut headers, "x-cortex-stall-handle", &st.handle_ref);
        push_header(&mut headers, "x-cortex-stall-availability", &st.availability);
    }
    proof {
        let e = *execute;
        let a = header_if_ok("x-cortex-status"@, status_name(e.status)) + header_if_ok(
            "x-cortex-plan-source"@,
            plan_source@,
        );
        assert(h2 =~= a) by {
            assert(headers_view(Seq::<(String, String)>::empty()) =~= seq![]);
        }
        let pr = match e.proof {
            Some(p) => header_if_ok("x-cortex-semantic-root"@, p.semantic_root@) + header_if_ok(
                "x-cortex-trace-root"@,
                p.trace_root@,
            ),
            None => seq![],
        };
        assert(h3 =~= a + pr);
        let er = match e.error {
            Some(err) => header_if_ok("x-cortex-error-code"@, err.code@),
            None => Seq::<(Seq<char>, Seq<char>)>::empty(),
        };
        assert(h4 =~= a + pr + er);
    }
    headers
}

/// The verified blocks joined by blank lines.
pub open spec fn join_blocks(b: Seq<Seq<char>>) -> Seq<char>
    decreases b.len(),
{
    if b.len() == 0 {
        seq![]
    } else if b.len() == 1 {
        b[0]
    } else {
        join_blocks(b.drop_last()) + "\n\n"@ + b.last()
    }
}

/// The assistant's content: the verified blocks, or a fixed notice when there
/// are none.
pub open spec fn content_of(blocks: Option<Seq<Seq<char>>>) -> Seq<char> {
    match blocks {
        Some(b) => if b.len() > 0 {
            join_blocks(b)
        } else {
            "No verified output."@
        },
        None => "No verified output."@,
    }
}

fn join_strings(b: &Vec<String>) -> (r: String)
    requires
        b@.len() > 0,
    ensures
        r@ == join_blocks(b@.map_values(|s: String| s@)),
{
    let ghost bv = b@.map_values(|s: String| s@);
    let mut out = b[0].clone();
    let mut i: usize = 1;
    assert(bv.subrange(0, 1).len() == 1);
    while i < b.len()
        invariant
            bv == b@.map_values(|s: String| s@),
            1 <= i <= b@.len(),
            out@ == join_blocks(bv.subrange(0, i as int)),
        decreases b.len() - i,
    {
        out.append("\n\n");
        out.append(b[i].as_str());
        assert(bv.subrange(0, i + 1).drop_last() =~= bv.subrange(0, i as int));
        i += 1;
    }
    assert(bv.subrange(0, b@.len() as int) =~= bv);
    out
}

pub open spec fn opt_strings_view(b: Option<Vec<String>>) -> Option<Seq<Seq<char>>> {
    match b {
        Some(v) => Some(v@.map_values(|s: String| s@)),
        None => None,
    }
}

pub fn verified_content(blocks: &Option<Vec<String>>) -> (r: String)
    ensures
        r@ == content_of(opt_strings_view(*blocks)),
{
    match blocks {
        Some(b) => {
            if b.len() > 0 {
                join_strings(b)
            } else {
                String::from_str("No verified output.")
            }
        },
        None => String::from_str("No verified output."),
    }
}

/// The error code that a refusal carries: the kernel's, or a fixed one per
/// status.
pub open spec fn refusal_code(e: ExecuteResponse) -> Seq<char> {
    match e.error {
        Some(err) => err.code@,
        None => match e.status {
            ExecutionStatus::Rejected => "rejected"@,
            ExecutionStatus::Stall => "stall"@,
            ExecutionStatus::AuthDenied => "auth_denied"@,
            ExecutionStatus::RangeExceeded => "range_exceeded"@,
            _ => "unknown_status"@,
        },
    }
}

/// The message that a refusal carries.
pub open spec fn refusal_message(e: ExecuteResponse) -> Seq<char> {
    if e.status == ExecutionStatus::Unspecified {
        "RMVM returned unspecified status"@
    } else {
        match e.error {
            Some(err) => err.message@,
            None => match e.status {
                ExecutionStatus::Rejected => "request rejected by RMVM"@,
                ExecutionStatus::Stall => "execution stalled; dependency not ready"@,
                ExecutionStatus::AuthDenied => "auth denied"@,
                _ => "range exceeded"@,
            },
        }
    }
}

pub open spec fn opt_view(o: Option<String>) -> Option<Seq<char>> {
    match o {
        Some(s) => Some(s@),
        None => None,
    }
}

/// Maps the kernel's answer to the reply: a completion carrying the verified
/// blocks for `OK`, and an error with the status of `http_status_of` for every
/// other status. `headers_out` goes with either.
pub fn map_execute_response(
    execute: &ExecuteResponse,
    model: Option<String>,
    plan_prompt: String,
    plan_source: String,
    headers_out: Vec<(String, String)>,
    completion_id: String,
    created: i64,
) -> (r: Result<(ChatCompletionResponse, Vec<(String, String)>), ApiError>)
    ensures
        r.is_ok() <==> execute.status == ExecutionStatus::Success,
        r matches Ok((resp, h)) ==> {
            &&& h@ == headers_out@
            &&& resp.id@ == completion_id@
            &&& resp.object@ == "chat.completion"@
            &&& resp.created == created
            &&& resp.model@ == match model {
                Some(m) => m@,
                None => "cortex-rmvm-proxy"@,
            }
            &&& resp.choices@.len() == 1
            &&& resp.choices@[0].index == 0
            &&& resp.choices@[0].message.role@ == "assistant"@
            &&& resp.choices@[0].message.content@ == content_of(
                opt_strings_view(execute.verified_blocks),
            )
            &&& resp.choices@[0].finish_reason@ == "stop"@
            &&& resp.usage.prompt_tokens == 0 && resp.usage.completion_tokens == 0
                && resp.usage.total_tokens == 0
            &&& resp.cortex.status@ == status_name(execute.status)
            &&& opt_view(resp.cortex.semantic_root) == match execute.proof {
                Some(p) => Some(p.semantic_root@),
                None => None,
            }
            &&& opt_view(resp.cortex.trace_root) == match execute.proof {
                Some(p) => Some(p.trace_root@),
                None => None,
            }
            &&& resp.cortex.error_code.is_none()
            &&& opt_view(resp.cortex.plan_prompt) == Some(plan_prompt@)
            &&& opt_view(resp.cortex.plan_source) == Some(plan_source@)
        },
        r matches Err(e) ==> {
            &&& e.status == http_status_of(execute.status)
            &&& e.code@ == refusal_code(*execute)
            &&& e.message@ == refusal_message(*execute)
            &&& e.headers@ == headers_out@
        },
{
    match execute.status {
        ExecutionStatus::Success => {
            let content = verified_content(&execute.verified_blocks);
            let model = match model {
                Some(m) => m,
                None => String::from_str("cortex-rmvm-proxy"),
            };
            let cortex = CortexEnvelope {
                status: String::from_str(execute.status.as_str_name()),
                semantic_root: match &execute.proof {
                    Some(p) => Some(p.semantic_root.clone()),
                    None => None,
                },
                trace_root: match &execute.proof {
                    Some(p) => Some(p.trace_root.clone()),
                    None => None,
                },
                error_code: None,
                plan_prompt: Some(plan_prompt),
                plan_source: Some(plan_source),
            };
            let response = ChatCompletionResponse {
                id: completion_id,
                object: String::from_str("chat.completion"),
                created,
                model,
                choices: vec![
                    Choice {
                        index: 0,
                        message: AssistantMessage {
                            role: String::from_str("assistant"),
                            content,
                        },
                        finish_reason: String::from_str("stop"),
                    },
                ],
                usage: Usage { prompt_tokens: 0, completion_tokens: 0, total_tokens: 0 },
                cortex,
            };
            Ok((response, headers_out))
        },
        _ => {
            let (status, default_code, default_message): (u16, &str, &str) = match execute.status {
                ExecutionStatus::Rejected => (400, "rejected", "request rejected by RMVM"),
                ExecutionStatus::Stall => (503, "stall", "execution stalled; dependency not ready"),
                ExecutionStatus::AuthDenied => (403, "auth_denied", "auth denied"),
                ExecutionStatus::RangeExceeded => (429, "range_exceeded", "range exceeded"),
                _ => (502, "unknown_status", "RMVM returned unspecified status"),
            };
            let code = match &execute.error {
                Some(err) => err.code.clone(),
                None => String::from_str(default_code),
            };
            let message = if execute.status == ExecutionStatus::Unspecified {
                String::from_str(default_message)
            } else {
                match &execute.error {
                    Some(err) => err.message.clone(),
                    None => String::from_str(default_message),
                }
            };
            Err(ApiError { status, code, message, headers: headers_out })
        },
    }
}

impl ApiError {
    /// The reply that carries this error as an OpenAI error body.
    pub fn into_response(self) -> (r: HttpReply)
        ensures
            r.status == self.status,
            r.headers@ == self.headers@,
            r.body matches ReplyBody::Error(b) && b.error.code@ == self.code@ && b.error.message@
                == self.message@ && b.error.error_type@ == "invalid_request_error"@,
    {
        HttpReply {
            status: self.status,
            headers: self.headers,
            body: ReplyBody::Error(
                OpenAiErrorResponse {
                    error: OpenAiError {
                        message: self.message,
                        error_type: String::from_str("invalid_request_error"),
                        code: self.code,
                    },
                },
            ),
        }
    }
}

/// The HTTP status of a mapped reply is the one of `http_status_of`, its
/// `x-cortex-status` header is the status's enum name, and with a proof, its
/// root headers carry the kernel's roots (values that can be sent as headers).
pub proof fn lemma_status_mapping(
    e: ExecuteResponse,
    plan_source: Seq<char>,
    r: Result<(ChatCompletionResponse, Vec<(String, String)>), ApiError>,
)
    requires
        header_value_ok(plan_source),
        e.proof matches Some(p) ==> header_value_ok(p.semantic_root@) && header_value_ok(
            p.trace_root@,
        ),
        r.is_ok() <==> e.status == ExecutionStatus::Success,
        r matches Err(x) ==> x.status == http_status_of(e.status),
    ensures
        (match r {
            Ok(_) => 200u16,
            Err(x) => x.status,
        }) == http_status_of(e.status),
        cortex_headers_of(e, plan_source)[0] == ("x-cortex-status"@, status_name(e.status)),
        e.proof matches Some(p) ==> cortex_headers_of(e, plan_source)[2] == (
            "x-cortex-semantic-root"@,
            p.semantic_root@,
        ) && cortex_headers_of(e, plan_source)[3] == ("x-cortex-trace-root"@, p.trace_root@),
{
    reveal_strlit("UNSPECIFIED");
    reveal_strlit("OK");
    reveal_strlit("REJECTED");
    reveal_strlit("STALL");
    reveal_strlit("AUTH_DENIED");
    reveal_strlit("RANGE_EXCEEDED");
    assert(header_value_ok(status_name(e.status)));
}

} // verus!
