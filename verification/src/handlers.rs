//! Answers to HTTP requests.
//!
//! Each request is read by a function that gives what is to be done, or the answer that refuses
//! it; what the store or a model gave back then goes to a function that gives the answer.

use vstd::prelude::*;

use crate::json::{Json, JsonObject, JsonView};
use crate::response::{ok, ok_json};

pub use crate::chat::{
    handle_chat, handle_chat_for_tenant, handle_chat_stream, handle_chat_stream_for_tenant,
    handle_get_session, handle_get_session_for_tenant, handle_list_sessions,
    handle_list_sessions_for_tenant, handle_session_message, handle_session_message_for_tenant,
};
pub use crate::documents::{
    handle_get, handle_get_for_tenant, handle_put, handle_put_for_tenant, handle_search,
    handle_search_for_tenant,
};
pub use crate::observe::{
    handle_dashboard, handle_dashboard_for_tenant, handle_get_run, handle_get_run_for_tenant,
    handle_list_runs, handle_list_runs_for_tenant, handle_logs, handle_logs_for_tenant,
    handle_metrics, handle_metrics_for_tenant,
};
pub use crate::tenant::{
    handle_create_tenant, handle_delete_tenant, handle_get_tenant, handle_list_tenants,
};
pub use crate::tools::{
    build_default_registry, build_tenant_registry, handle_list_tools, handle_tool_call,
    handle_tool_call_for_tenant,
};
pub use crate::workflows::{
    handle_list_workflows, handle_list_workflows_for_tenant, handle_register_workflow,
    handle_register_workflow_for_tenant, handle_run, handle_run_for_tenant, handle_run_named,
    handle_run_named_for_tenant, handle_run_stream, handle_run_stream_for_tenant,
};

verus! {

/// The language model that is configured.
#[derive(Debug, Clone)]
pub struct LlmInfo {
    pub provider: String,
    pub model: String,
}

/// What the answers tell about the gateway itself.
#[derive(Debug, Clone)]
pub struct AppState {
    pub version: String,
    pub llm: Option<LlmInfo>,
    pub tool_count: usize,
    pub resource_count: usize,
}

impl AppState {
    /// The model in the form `provider:model`; null where none is configured.
    pub open spec fn llm_json(self) -> JsonView {
        match self.llm {
            Some(l) => JsonView::Str(l.provider@ + ":"@ + l.model@),
            None => JsonView::Null,
        }
    }

    /// The model in the form `provider:model`; null where none is configured.
    pub fn llm_label(&self) -> (r: Json)
        ensures
            r@ == self.llm_json(),
    {
        match &self.llm {
            Some(l) => Json::text(
                l.provider.clone().concat(":").concat(l.model.as_str()).as_str(),
            ),
            None => Json::null(),
        }
    }
}

/// `GET /v1/health`: how the gateway is, after `uptime` seconds.
pub fn handle_health(state: &AppState, uptime: u64) -> (r: String)
    ensures
        r@ == ok_json(
            JsonView::Object(
                map![
                    "status"@ => JsonView::Str("ok"@),
                    "version"@ => JsonView::Str(state.version@),
                    "uptime_seconds"@ => JsonView::Int(uptime as int),
                    "tools"@ => JsonView::Int(state.tool_count as int),
                    "resources"@ => JsonView::Int(state.resource_count as int),
                    "llm"@ => state.llm_json(),
                ],
            ),
        ),
{
    let body = JsonObject::new().text("status", "ok").text(
        "version",
        state.version.as_str(),
    ).number("uptime_seconds", uptime).number("tools", state.tool_count as u64).number(
        "resources",
        state.resource_count as u64,
    ).with("llm", state.llm_label()).build();
    ok(body.to_text().as_str())
}

} // verus!
