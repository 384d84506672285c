use std::collections::BTreeMap;
use ulgate::bridge::{msg_record, new_payload, obs_record, AgentPayload};
use ulgate::chat::{
    chat_reply, chat_stream_end, chat_stream_rest, error_event, session_end, session_key, session_turn, token_event,
    LlmReply, Role, StoredSession,
};
use ulgate::degradation::DegradationMode;
use ulgate::documents::{can_show_hits, document_text, put_reply, SearchHit};
use ulgate::handlers::{
    build_default_registry, build_tenant_registry, handle_chat, handle_chat_for_tenant,
    handle_chat_stream, handle_chat_stream_for_tenant, handle_create_tenant, handle_dashboard,
    handle_dashboard_for_tenant, handle_delete_tenant, handle_get, handle_get_for_tenant,
    handle_get_run, handle_get_run_for_tenant, handle_get_session, handle_get_session_for_tenant,
    handle_get_tenant, handle_health, handle_list_runs, handle_list_runs_for_tenant,
    handle_list_sessions, handle_list_sessions_for_tenant, handle_list_tenants, handle_list_tools,
    handle_list_workflows, handle_list_workflows_for_tenant, handle_logs, handle_logs_for_tenant,
    handle_metrics, handle_metrics_for_tenant, handle_put, handle_put_for_tenant,
    handle_register_workflow, handle_register_workflow_for_tenant, handle_run,
    handle_run_for_tenant, handle_run_named, handle_run_named_for_tenant, handle_run_stream,
    handle_run_stream_for_tenant, handle_search, handle_search_for_tenant, handle_session_message,
    handle_session_message_for_tenant, handle_tool_call, handle_tool_call_for_tenant, AppState,
    LlmInfo,
};
use ulgate::json::{Json, JsonObject};
use ulgate::observe::StoredRun;
use ulgate::tenant::{
    create_tenant_end, create_tenant_reply, prefix_end_bytes, tenant_exists_reply, tenant_tool_allowlist, NewTenant,
    Tenant, TenantQuota, TenantUsage,
};
use ulgate::tools::{
    can_plan, can_tell, plan_tool, read_result, search_result, tool_call_at, tool_call_reply, tool_refusal,
    tool_result, write_result, FoundDoc, StoreReply, StoreRequest, ToolAction, ToolArgs, ToolCall,
    ToolInfo, ToolReply,
};
use ulgate::workflows::{
    default_flow, flow_build_failed, invalid_workflow, named_build_failed, named_run_input,
    named_run_reply, output_event, register_reply, run_done_event, run_end, run_start_event,
    register_plan, run_stream_rest, settle_named_run, settle_run, settle_run_stream,
    settle_tenant_run, settle_tenant_run_stream, tenant_run_end, tenant_run_stream_rest,
    workflow_failed, workflow_key, ModelCost, RunFault, RunOutcome, StoredWorkflow,
};

/// A small store that stands behind the handlers.
struct Store {
    docs: BTreeMap<Vec<u8>, Vec<u8>>,
    tenants: BTreeMap<String, Tenant>,
}

const GRANTED: Result<(), String> = Ok(());

fn refused(msg: &str) -> Result<(), String> {
    Err(msg.to_string())
}

impl Store {
    fn new() -> Store {
        Store { docs: BTreeMap::new(), tenants: BTreeMap::new() }
    }

    fn put(&mut self, body: &str) -> String {
        match handle_put(body) {
            Ok(p) => {
                self.docs.insert(p.key.as_bytes().to_vec(), p.value.as_bytes().to_vec());
                put_reply(&p.key, None, &GRANTED).response
            }
            Err(r) => r,
        }
    }

    fn get(&self, key: &str) -> String {
        handle_get(key, self.docs.get(key.as_bytes()).map(|v| v.as_slice()))
    }

    fn put_for(&mut self, t: &Tenant, body: &str) -> String {
        let permit = require(t, "db:write");
        match handle_put_for_tenant(&t.id, &permit, body) {
            Ok((p, scoped)) => {
                self.docs.insert(scoped.into_bytes(), p.value.as_bytes().to_vec());
                put_reply(&p.key, Some(&t.id), &GRANTED).response
            }
            Err(r) => r,
        }
    }

    fn get_for(&self, t: &Tenant, key: &str) -> String {
        let scoped = t.doc_key(key);
        let found = self.docs.get(scoped.as_bytes()).map(|v| v.as_slice());
        handle_get_for_tenant(&t.id, &require(t, "db:read"), key, found).response
    }

    fn hits(&self, query: &str) -> Vec<SearchHit> {
        self.docs
            .iter()
            .filter(|(_, v)| query.split(' ').any(|w| document_text(v).contains(w)))
            .map(|(k, v)| SearchHit {
                key: document_text(k),
                score: Json::number(1),
                content: document_text(v),
            })
            .collect()
    }

    fn create_tenant(&mut self, body: &str) -> String {
        match handle_create_tenant(body) {
            Ok(n) => {
                let known = self.tenants.contains_key(&n.id);
                if let Some(answer) = create_tenant_end(&n, known) {
                    return answer;
                }
                let t = tenant_of(&n);
                self.tenants.insert(t.id.clone(), t.clone());
                create_tenant_reply(&t, &GRANTED)
            }
            Err(r) => r,
        }
    }

    fn get_tenant(&self, id: &str) -> String {
        let usage = usage();
        handle_get_tenant(id, self.tenants.get(id).map(|t| (t, &usage)))
    }

    fn delete_tenant(&mut self, id: &str) -> String {
        let removed = self.tenants.remove(id).is_some();
        handle_delete_tenant(id, removed, &GRANTED)
    }
}

fn require(t: &Tenant, cap: &str) -> Result<(), String> {
    if t.capabilities.iter().any(|c| c == cap) {
        Ok(())
    } else {
        Err(format!("capability denied: {}", cap))
    }
}

fn quota() -> TenantQuota {
    TenantQuota {
        max_tokens_per_day: 1,
        max_requests_per_hour: 2,
        max_storage_bytes: 3,
        max_sessions: 4,
        max_workflows: 5,
    }
}

fn usage() -> TenantUsage {
    TenantUsage {
        tokens_today: 6,
        requests_this_hour: 7,
        storage_bytes: 8,
        active_sessions: 9,
        registered_workflows: 10,
        total_runs: 11,
        total_tokens: 12,
    }
}

fn tenant_of(n: &NewTenant) -> Tenant {
    Tenant {
        id: n.id.clone(),
        name: n.name.clone(),
        plan: n.plan.clone().unwrap_or_else(|| "starter".into()),
        namespace_id: 1,
        capabilities: n
            .capabilities
            .clone()
            .unwrap_or_else(|| vec!["db:read".into(), "db:write".into(), "db:search".into()]),
        quota: quota(),
    }
}

fn tenant(id: &str, name: &str, key: &str) -> Tenant {
    tenant_of(&NewTenant {
        id: id.into(),
        name: name.into(),
        api_key: key.into(),
        plan: None,
        capabilities: None,
    })
}

fn state() -> AppState {
    AppState { version: "0.1.0".into(), llm: None, tool_count: 3, resource_count: 0 }
}

fn body(r: &str) -> String {
    r[r.find("\r\n\r\n").unwrap() + 4..].to_string()
}

fn status(r: &str) -> String {
    r[9..12].to_string()
}

fn bytes(v: &[&str]) -> Vec<Vec<u8>> {
    v.iter().map(|s| s.as_bytes().to_vec()).collect()
}

fn reply(content: &str) -> LlmReply {
    LlmReply {
        content: content.into(),
        model: "m".into(),
        input_tokens: 2,
        output_tokens: 3,
        finish_reason: "stop".into(),
    }
}

#[test]
fn health_check() {
    let resp = handle_health(&state(), 0);
    assert!(resp.contains("200"));
    assert!(resp.contains("ok"));
}

#[test]
fn list_tools() {
    let tools: Vec<ToolInfo> = build_default_registry()
        .into_iter()
        .map(|t| ToolInfo {
            name: t.name,
            description: t.description,
            tags: vec![t.tag],
            timeout_ms: Some(30000),
            params: t.params,
        })
        .collect();
    let resp = handle_list_tools(&tools);
    assert!(resp.contains("code_search"));
    assert!(resp.contains("file_read"));
    assert!(resp.contains("file_write"));
    assert!(resp.contains("{\"description\":\"Document key\",\"name\":\"key\",\"required\":true}"));
    assert!(resp.contains("\"timeout_ms\":30000"));
    assert!(resp.contains("\"count\":3"));
}

#[test]
fn put_and_get() {
    let mut store = Store::new();
    let put = store.put(r#"{"key":"test/key","value":"hello world"}"#);
    assert!(put.contains("ok"));

    let get = store.get("test/key");
    assert!(get.contains("hello world"));
}

#[test]
fn get_missing() {
    let store = Store::new();
    let resp = store.get("nonexistent");
    assert!(resp.contains("404"));
}

#[test]
fn search_returns_results() {
    let mut store = Store::new();
    store.put(r#"{"key":"auth/jwt.py","value":"def validate_token jwt auth"}"#);
    let resp = handle_search("validate jwt", &store.hits("validate jwt"));
    assert!(resp.contains("auth/jwt.py") || resp.contains("count"));
}

#[test]
fn tool_call_code_search() {
    let mut store = Store::new();
    store.put(r#"{"key":"src/main.rs","value":"fn main() hello world rust"}"#);
    let call =
        handle_tool_call(r#"{"tool":"code_search","arguments":{"query":"main rust"}}"#).unwrap();
    assert_eq!(call.tool_name, "code_search");
    assert!(call.call_id.starts_with("gate_"));
    let args = ToolArgs {
        query: call.arguments[0].1.as_text(),
        limit: None,
        key: None,
        content: None,
    };
    let docs: Vec<FoundDoc> = match plan_tool(ToolAction::Search, None, &args) {
        StoreRequest::Search(q, n) => store
            .hits(&q)
            .into_iter()
            .take(n)
            .map(|h| FoundDoc { key: h.key, content: h.content })
            .collect(),
        other => panic!("{:?}", other),
    };
    let r = tool_result(
        ToolAction::Search,
        None,
        &call.call_id,
        &args,
        &StoreReply::Found(docs),
    );
    assert_eq!(r.output.as_deref(), Some("[src/main.rs]\nfn main() hello world rust"));
    let resp = tool_call_reply(&ToolReply {
        call_id: r.call_id,
        status: "success".into(),
        is_error: false,
        output: Json::optional_text(&r.output),
        error: r.error,
        tokens_used: r.tokens_used,
        latency_ms: None,
    });
    assert!(resp.contains("200") || resp.contains("output"));
    assert!(resp.contains("\"tokens_used\":50"));
}

#[test]
fn tool_call_invalid_json() {
    let resp = handle_tool_call("not json").err().unwrap();
    assert!(resp.contains("400"));
}

#[test]
fn chat_no_llm() {
    let resp = handle_chat(false, r#"{"message":"hello"}"#).err().unwrap();
    assert!(resp.contains("400") || resp.contains("no LLM"));
}

#[test]
fn create_and_list_tenants() {
    let mut store = Store::new();
    let resp = store.create_tenant(
        r#"{"id":"acme","name":"Acme Corp","api_key":"sk-acme-123","plan":"starter"}"#,
    );
    assert!(resp.contains("201"));
    assert!(resp.contains("acme"));

    let all: Vec<Tenant> = store.tenants.values().cloned().collect();
    let list = handle_list_tenants(&all);
    assert!(list.contains("acme"));
    assert!(list.contains("Acme Corp"));
}

#[test]
fn create_tenant_duplicate_rejected() {
    let mut store = Store::new();
    store.create_tenant(r#"{"id":"dup","name":"D","api_key":"sk-d"}"#);
    let resp = store.create_tenant(r#"{"id":"dup","name":"D2","api_key":"sk-d2"}"#);
    assert!(resp.contains("400"));
    assert!(resp.contains("already exists"));
}

#[test]
fn get_tenant_details() {
    let mut store = Store::new();
    store.create_tenant(r#"{"id":"info","name":"Info Co","api_key":"sk-info","plan":"pro"}"#);
    let resp = store.get_tenant("info");
    assert!(resp.contains("Info Co"));
    assert!(resp.contains("pro"));
    assert!(resp.contains("usage"));
    assert!(resp.contains("\"max_sessions\":4"));
    assert!(resp.contains("\"total_tokens\":12"));
}

#[test]
fn get_tenant_missing() {
    let store = Store::new();
    let resp = store.get_tenant("nonexistent");
    assert!(resp.contains("404"));
}

#[test]
fn delete_tenant_works() {
    let mut store = Store::new();
    store.create_tenant(r#"{"id":"gone","name":"Gone","api_key":"sk-gone"}"#);
    let resp = store.delete_tenant("gone");
    assert!(resp.contains("deleted"));

    let check = store.get_tenant("gone");
    assert!(check.contains("404"));
    assert!(store.delete_tenant("gone").contains("tenant not found: gone"));
    assert!(handle_delete_tenant("x", true, &refused("disk")).contains("delete tenant failed: disk"));
}

#[test]
fn tenant_scoped_put_and_get() {
    let mut store = Store::new();
    let t = tenant("t1", "T1", "sk-t1");

    let put = store.put_for(&t, r#"{"key":"auth.py","value":"def validate(): pass"}"#);
    assert!(put.contains("ok"));

    let get = store.get_for(&t, "auth.py");
    assert!(get.contains("validate"));
    assert!(get.contains("t1"));
}

#[test]
fn tenant_scoped_isolation() {
    let mut store = Store::new();
    let t1 = tenant("iso_a", "A", "sk-a");
    let t2 = tenant("iso_b", "B", "sk-b");

    store.put_for(&t1, r#"{"key":"secret.py","value":"a_secret"}"#);
    store.put_for(&t2, r#"{"key":"secret.py","value":"b_secret"}"#);

    let get_a = store.get_for(&t1, "secret.py");
    assert!(get_a.contains("a_secret"));
    assert!(!get_a.contains("b_secret"));

    let get_b = store.get_for(&t2, "secret.py");
    assert!(get_b.contains("b_secret"));
    assert!(!get_b.contains("a_secret"));
}

#[test]
fn tenant_search_scoped() {
    let mut store = Store::new();
    let t = tenant("srch", "S", "sk-s");

    store.put_for(&t, r#"{"key":"jwt.py","value":"def validate_jwt token auth"}"#);
    store.put(r#"{"key":"other.py","value":"def validate_jwt too"}"#);

    let hits = store.hits("validate jwt");
    assert_eq!(hits.len(), 2);
    let resp =
        handle_search_for_tenant(&t.id, &require(&t, "db:search"), "validate jwt", &hits).response;
    assert!(resp.contains("srch"));
    assert!(resp.contains("\"key\":\"jwt.py\""));
    assert!(!resp.contains("other.py"));
    assert!(resp.contains("\"count\":1"));
}

#[test]
fn tenant_capability_denied() {
    let mut store = Store::new();
    let mut t = tenant("limited", "L", "sk-l");
    t.capabilities = vec!["db:read".into()];
    let resp = store.put_for(&t, r#"{"key":"x","value":"y"}"#);
    assert!(resp.contains("403"));
}

#[test]
fn health_body() {
    let mut s = state();
    assert_eq!(
        body(&handle_health(&s, 7)),
        "{\"llm\":null,\"resources\":0,\"status\":\"ok\",\"tools\":3,\"uptime_seconds\":7,\"version\":\"0.1.0\"}"
    );
    s.llm = Some(LlmInfo { provider: "groq".into(), model: "l".into() });
    assert!(handle_health(&s, 7).contains("\"llm\":\"groq:l\""));
}

#[test]
fn put_requests() {
    assert!(body(&handle_put("{").err().unwrap()).starts_with("{\"error\":\"invalid JSON: EOF"));
    assert!(handle_put("{}").err().unwrap().contains("missing 'key'"));
    assert!(handle_put("{\"key\":1}").err().unwrap().contains("missing 'key'"));
    assert!(handle_put("{\"key\":\"k\"}").err().unwrap().contains("missing 'value'"));
    assert!(handle_put("[]").err().unwrap().contains("missing 'key'"));
    let p = handle_put("{\"key\":\"k\",\"value\":\"v\"}").unwrap();
    assert_eq!((p.key.as_str(), p.value.as_str()), ("k", "v"));
    let r = put_reply("k", None, &GRANTED);
    assert_eq!(body(&r.response), "{\"key\":\"k\",\"status\":\"ok\"}");
    assert_eq!(r.usage, None);
    let r = put_reply("k", Some("t"), &GRANTED);
    assert_eq!(body(&r.response), "{\"key\":\"k\",\"status\":\"ok\",\"tenant_id\":\"t\"}");
    assert_eq!(r.usage, Some(0));
    let r = put_reply("k", Some("t"), &refused("full"));
    assert_eq!(status(&r.response), "500");
    assert_eq!(r.usage, None);
}

#[test]
fn documents_are_read_as_text() {
    assert_eq!(document_text(b"abc"), "abc");
    assert_eq!(document_text(&[0x61, 0xff, 0x62]), "a\u{fffd}b");
    assert_eq!(
        body(&handle_get("k", Some(&[0xff, 0x61]))),
        "{\"key\":\"k\",\"size\":2,\"value\":\"\u{fffd}a\"}"
    );
    let r = handle_get_for_tenant("t", &GRANTED, "k", Some(b"v"));
    assert_eq!(body(&r.response), "{\"key\":\"k\",\"size\":1,\"tenant_id\":\"t\",\"value\":\"v\"}");
    assert_eq!(r.usage, Some(0));
    let r = handle_get_for_tenant("t", &GRANTED, "k", None);
    assert_eq!((status(&r.response).as_str(), r.usage), ("404", None));
    let r = handle_get_for_tenant("t", &refused("no"), "k", Some(b"v"));
    assert_eq!((status(&r.response).as_str(), r.usage), ("403", None));
}

fn hit(key: &str, content: &str) -> SearchHit {
    SearchHit { key: key.into(), score: Json::number(2), content: content.into() }
}

#[test]
fn search_results_are_clipped() {
    let long = "x".repeat(300);
    let r = handle_search("q", &vec![hit("a", &long), hit("b", "short")]);
    assert!(r.contains(&format!("\"content\":\"{}\"", "x".repeat(200))));
    assert!(!r.contains(&"x".repeat(201)));
    assert!(body(&r).starts_with("{\"count\":2,\"query\":\"q\",\"results\":[{\"content\":"));
    assert!(r.contains("\"score\":2"));
}

#[test]
fn tenant_search_gives_ten_at_most() {
    let hits: Vec<SearchHit> = (0..25)
        .map(|i| hit(&format!("t:{}:doc:k{}", if i % 2 == 0 { "a" } else { "b" }, i), "c"))
        .collect();
    let r = handle_search_for_tenant("a", &GRANTED, "q", &hits);
    assert!(r.response.contains("\"count\":10"));
    assert!(r.response.contains("\"key\":\"k18\"") && !r.response.contains("\"key\":\"k20\""));
    assert!(!r.response.contains("k1\""));
    assert_eq!(r.usage, Some(0));
    let r = handle_search_for_tenant("a", &refused("no search"), "q", &hits);
    assert!(r.response.contains("no search"));
    assert_eq!(r.usage, None);
}

#[test]
fn tool_calls_are_read() {
    assert!(tool_call_at("{}", 1).err().unwrap().contains("missing 'tool' field"));
    let c = tool_call_at("{\"tool\":\"t\",\"arguments\":{\"b\":1,\"a\":\"x\"}}", 99).ok().unwrap();
    assert_eq!(c.call_id, "gate_99");
    assert_eq!(c.arguments.len(), 2);
    assert_eq!(c.arguments[0].0, "a");
    assert_eq!(c.arguments[1].1.to_text(), "1");
    let c = tool_call_at("{\"tool\":\"t\",\"arguments\":[1]}", 0).ok().unwrap();
    assert!(c.arguments.is_empty());
}

fn tool_reply(is_error: bool, error: Option<&str>, tokens: Option<u64>) -> ToolReply {
    ToolReply {
        call_id: "c".into(),
        status: if is_error { "error".into() } else { "success".into() },
        is_error,
        output: Json::null(),
        error: error.map(|s| s.into()),
        tokens_used: tokens,
        latency_ms: Some(4),
    }
}

#[test]
fn tenant_tool_calls() {
    let r = handle_tool_call_for_tenant("t", &tool_reply(true, Some("capability denied: x"), None));
    assert_eq!((status(&r.response).as_str(), r.usage), ("403", None));
    assert!(r.response.contains("capability denied: x"));
    let r = handle_tool_call_for_tenant("t", &tool_reply(true, Some("boom"), None));
    assert_eq!((status(&r.response).as_str(), r.usage), ("200", Some(0)));
    let r = handle_tool_call_for_tenant("t", &tool_reply(false, Some("capability denied"), Some(9)));
    assert_eq!(r.usage, Some(9));
    assert_eq!(
        body(&r.response),
        "{\"call_id\":\"c\",\"error\":\"capability denied\",\"latency_ms\":4,\"output\":null,\"status\":\"success\",\"tenant_id\":\"t\",\"tokens_used\":9}"
    );
}

fn args() -> ToolArgs {
    ToolArgs { query: None, limit: None, key: Some("k".into()), content: Some("c".into()) }
}

#[test]
fn tools_ask_the_store() {
    match plan_tool(ToolAction::Search, Some("t"), &args()) {
        StoreRequest::Search(q, n) => assert_eq!((q.as_str(), n), ("", 40)),
        other => panic!("{:?}", other),
    }
    match plan_tool(ToolAction::Read, Some("t"), &args()) {
        StoreRequest::Get(k) => assert_eq!(k, "t:t:doc:k"),
        other => panic!("{:?}", other),
    }
    match plan_tool(ToolAction::Write, None, &args()) {
        StoreRequest::Put(k, c) => assert_eq!((k.as_str(), c.as_str()), ("k", "c")),
        other => panic!("{:?}", other),
    }
    let (defs, prefix) = build_tenant_registry("t");
    assert_eq!(defs.len(), 3);
    assert_eq!(prefix, "t:t:doc:");
}

#[test]
fn tools_give_results() {
    let docs = vec![
        FoundDoc { key: "t:a:doc:x".into(), content: "1".into() },
        FoundDoc { key: "t:b:doc:y".into(), content: "2".into() },
        FoundDoc { key: "t:a:doc:z".into(), content: "3".repeat(600) },
    ];
    let r = search_result("c", Some("a"), 5, &docs);
    assert_eq!(r.output.unwrap(), format!("[x]\n1\n\n[z]\n{}", "3".repeat(500)));
    assert_eq!(r.tokens_used, Some(100));
    let r = search_result("c", Some("a"), 1, &docs);
    assert_eq!(r.output.as_deref(), Some("[x]\n1"));
    assert_eq!(search_result("c", None, 1, &docs).tokens_used, Some(150));
    assert_eq!(search_result("c", None, 1, &Vec::new()).output.as_deref(), Some(""));
    let r = read_result("c", "k", Some("12345678\u{e9}"));
    assert_eq!(r.tokens_used, Some(2));
    assert_eq!(r.output.as_deref(), Some("12345678\u{e9}"));
    assert_eq!(read_result("c", "k", None).error.as_deref(), Some("not found: k"));
    let r = write_result("c", "k", "h\u{e9}", &GRANTED);
    assert_eq!(r.output.as_deref(), Some("wrote 3 bytes to k"));
    assert_eq!(r.tokens_used, Some(5));
    let r = write_result("c", "k", "x", &refused("full"));
    assert_eq!((r.output, r.error.as_deref()), (None, Some("full")));
}

#[test]
fn tenant_keys_and_allowlists() {
    let mut t = tenant("acme", "A", "k");
    assert_eq!(t.doc_key("a/b"), "t:acme:doc:a/b");
    assert_eq!(t.run_key(""), "t:acme:run:");
    assert_eq!(t.session_key("s"), "t:acme:session:s");
    assert_eq!(t.workflow_key("w"), "t:acme:workflow:w");
    t.capabilities = vec!["tool:a".into(), "db:read".into(), "tool:b".into()];
    assert_eq!(tenant_tool_allowlist(&t), ["a", "b"]);
    t.capabilities.push("tool:*".into());
    assert_eq!(tenant_tool_allowlist(&t), ["*"]);
    assert_eq!(prefix_end_bytes("ab"), vec![0x61, 0x62, 0xff]);
}

#[test]
fn tenant_names_with_colons_can_collide() {
    let a = tenant("a", "A", "k");
    let b = tenant("a:doc", "B", "k");
    assert_eq!(a.doc_key("doc:x"), b.doc_key("x"));
    assert_ne!(a.doc_key("x"), tenant("b", "B", "k").doc_key("x"));
}

#[test]
fn scan_range_covers_the_prefix() {
    let mut store = BTreeMap::new();
    for k in ["t:a:run:", "t:a:run:1", "t:a:run:\u{10ffff}", "t:a:run", "t:a:ruo", "t:b:run:1"] {
        store.insert(k.as_bytes().to_vec(), ());
    }
    let from = b"t:a:run:".to_vec();
    let n = store.range(from..prefix_end_bytes("t:a:run:")).count();
    assert_eq!(n, 3);
}

#[test]
fn create_tenant_requests() {
    assert!(handle_create_tenant("x").err().unwrap().contains("invalid JSON"));
    assert!(handle_create_tenant("{\"id\":\"\"}").err().unwrap().contains("missing 'id'"));
    assert!(handle_create_tenant("{\"id\":\"a\"}").err().unwrap().contains("missing 'api_key'"));
    let n = handle_create_tenant("{\"id\":\"a\",\"api_key\":\"k\",\"capabilities\":[1,\"x\",\"y\"]}").unwrap();
    assert_eq!((n.name.as_str(), n.plan), ("a", None));
    assert_eq!(n.capabilities, Some(vec!["x".to_string(), "y".to_string()]));
    let n = handle_create_tenant("{\"id\":\"a\",\"api_key\":\"k\",\"capabilities\":[]}").unwrap();
    assert_eq!(n.capabilities, None);
    let t = tenant("a", "A", "k");
    assert!(create_tenant_reply(&t, &refused("disk")).contains("persist tenant failed: disk"));
    assert_eq!(
        body(&create_tenant_reply(&t, &GRANTED)),
        "{\"capabilities\":[\"db:read\",\"db:write\",\"db:search\"],\"id\":\"a\",\"name\":\"A\",\"namespace_id\":1,\"plan\":\"starter\"}"
    );
}

#[test]
fn chat_requests() {
    assert!(handle_chat(true, "{}").err().unwrap().contains("missing 'message' or 'prompt' field"));
    let q = handle_chat(true, "{\"prompt\":\"p\",\"system\":\"s\"}").unwrap();
    assert_eq!((q.prompt.as_str(), q.system.as_deref()), ("p", Some("s")));
    let q = handle_chat(true, "{\"prompt\":\"p\",\"message\":\"m\"}").unwrap();
    assert_eq!(q.prompt, "m");
    let r = handle_chat_for_tenant(true, &refused("no llm"), "{}").err().unwrap();
    assert_eq!(status(&r), "403");
    let r = handle_chat_for_tenant(false, &refused("no llm"), "{}").err().unwrap();
    assert_eq!(status(&r), "400");
    assert!(handle_chat_for_tenant(true, &GRANTED, "{\"message\":\"m\"}").is_ok());
}

#[test]
fn chat_answers() {
    let r = chat_reply(&Ok(reply("hi")), 8, None);
    assert_eq!(
        body(&r.response),
        "{\"content\":\"hi\",\"finish_reason\":\"stop\",\"input_tokens\":2,\"latency_ms\":8,\"model\":\"m\",\"output_tokens\":3}"
    );
    assert_eq!(r.usage, None);
    assert_eq!(chat_reply(&Ok(reply("hi")), 8, Some("t")).usage, Some(5));
    let r = chat_reply(&Err("down".into()), 8, Some("t"));
    assert_eq!((status(&r.response).as_str(), r.usage), ("500", None));
}

#[test]
fn chat_streams() {
    assert!(handle_chat_stream(None, "x").err().unwrap().contains("no LLM configured"));
    assert!(handle_chat_stream(Some("m"), "x").err().unwrap().contains("invalid JSON"));
    assert!(handle_chat_stream(Some("m"), "{}").err().unwrap().contains("missing 'message' field"));
    let s = handle_chat_stream(Some("m"), "{\"message\":\"q\",\"system\":\"s\"}").unwrap();
    assert!(s.head.starts_with("HTTP/1.1 200 OK\r\nContent-Type: text/event-stream\r\n"));
    assert_eq!(s.start, "data: {\"model\":\"m\",\"type\":\"start\"}\n\n");
    assert_eq!(s.messages.len(), 2);
    assert_eq!((s.messages[0].role, s.messages[0].content.as_str()), (Role::System, "s"));
    assert_eq!((s.messages[1].role, s.messages[1].content.as_str()), (Role::User, "q"));
    let s = handle_chat_stream_for_tenant("t", Some("m"), &GRANTED, "{\"message\":\"q\"}").unwrap();
    assert_eq!(s.start, "data: {\"model\":\"m\",\"tenant_id\":\"t\",\"type\":\"start\"}\n\n");
    assert_eq!(s.messages.len(), 1);
    let r = handle_chat_stream_for_tenant("t", Some("m"), &refused("no"), "{").err().unwrap();
    assert_eq!(status(&r), "403");
    assert_eq!(token_event("a\n"), "data: {\"content\":\"a\\n\",\"type\":\"token\"}\n\n");
    let e = chat_stream_end(&Ok(reply("x")), 1, Some("t"));
    assert_eq!(
        e.response,
        "data: {\"finish_reason\":\"stop\",\"input_tokens\":2,\"latency_ms\":1,\"model\":\"m\",\"output_tokens\":3,\"tenant_id\":\"t\",\"type\":\"done\"}\n\ndata: [DONE]\n\n"
    );
    assert_eq!(e.usage, Some(5));
    let rest = chat_stream_rest(&vec!["a".into(), "b".into()], &Ok(reply("x")), 1, Some("t"));
    assert_eq!(rest.events, vec![token_event("a"), token_event("b"), e.response.clone()]);
    assert_eq!(rest.usage, Some(5));
    let e = chat_stream_end(&Err("bad".into()), 1, Some("t"));
    assert_eq!(e.response, error_event("bad"));
    assert_eq!(
        error_event("bad"),
        "data: {\"message\":\"bad\",\"type\":\"error\"}\n\ndata: [DONE]\n\n"
    );
}

#[test]
fn session_messages() {
    assert!(handle_session_message(true, "{").err().unwrap().contains("invalid JSON"));
    assert!(handle_session_message(false, "{}").err().unwrap().contains("missing 'message' field"));
    assert!(handle_session_message(false, "{\"message\":\"m\"}").err().unwrap().contains("no LLM configured"));
    assert_eq!(handle_session_message(true, "{\"message\":\"m\"}").unwrap(), "m");
    let no = refused("no");
    let body = "{\"message\":\"m\"}";
    assert_eq!(status(&handle_session_message_for_tenant(true, &no, &GRANTED, body).err().unwrap()), "403");
    assert_eq!(status(&handle_session_message_for_tenant(true, &GRANTED, &no, body).err().unwrap()), "403");
    assert_eq!(status(&handle_session_message_for_tenant(false, &GRANTED, &no, body).err().unwrap()), "400");
    assert!(handle_session_message_for_tenant(true, &GRANTED, &GRANTED, body).is_ok());
}

#[test]
fn session_turns_remember() {
    let first = session_turn("s", None, "my number is 7777", 5);
    assert_eq!((first.step, first.history_len, first.messages.len()), (1, 0, 1));
    assert_eq!(first.user_record.id, "msg_5");
    let end = session_end("s", first, &Ok(reply("noted")), 9, 6, None);
    assert!(end.reply.response.contains("\"history_length\":2"));
    assert_eq!(end.records.len(), 2);
    assert_eq!((end.records[0].step, end.records[1].step), (1, 2));
    let mut payload: AgentPayload = new_payload("s", Some("s"));
    payload.records.push(end.records[0].clone());
    payload.records.push(obs_record("o", "s", 1, "x", "y", 0));
    payload.records.push(end.records[1].clone());
    let second = session_turn("s", Some(&payload), "which?", 7);
    assert_eq!((second.step, second.history_len), (4, 3));
    let said: Vec<(Role, &str)> =
        second.messages.iter().map(|m| (m.role, m.content.as_str())).collect();
    assert_eq!(
        said,
        vec![
            (Role::User, "my number is 7777"),
            (Role::Assistant, "noted"),
            (Role::User, "which?"),
        ]
    );
    let end = session_end("s", second.clone(), &Err("down".into()), 9, 8, Some("t"));
    assert!(end.records.is_empty());
    assert_eq!(end.reply.usage, None);
    let end = session_end("s", second, &Ok(reply("7777")), 9, 8, Some("t"));
    assert_eq!(end.reply.usage, Some(5));
    assert_eq!(
        body(&end.reply.response),
        "{\"content\":\"7777\",\"history_length\":5,\"input_tokens\":2,\"latency_ms\":9,\"model\":\"m\",\"output_tokens\":3,\"session_id\":\"s\",\"tenant_id\":\"t\"}"
    );
    assert_eq!(session_key(None, "s"), "session:s");
    assert_eq!(session_key(Some("t"), "s"), "t:t:session:s");
}

#[test]
fn sessions_are_shown() {
    let mut p = new_payload("s", None);
    p.records.push(msg_record("m", "s", 1, "user", "hi", 1));
    assert_eq!(
        body(&handle_get_session("s", Some(&p))),
        "{\"length\":1,\"messages\":[{\"content\":\"hi\",\"role\":\"user\"}],\"session_id\":\"s\"}"
    );
    assert!(handle_get_session("s", None).contains("session not found: s"));
    let r = handle_get_session_for_tenant("t", &GRANTED, "s", Some(&p));
    assert_eq!(r.usage, Some(0));
    assert!(r.response.contains("\"tenant_id\":\"t\""));
    let r = handle_get_session_for_tenant("t", &GRANTED, "s", None);
    assert_eq!((status(&r.response).as_str(), r.usage), ("404", None));
    assert_eq!(status(&handle_get_session_for_tenant("t", &refused("no"), "s", None).response), "403");
    let stored = vec![
        StoredSession { key: "session:a".into(), records: 2 },
        StoredSession { key: "t:t:session:b".into(), records: 3 },
        StoredSession { key: "run:c".into(), records: 4 },
    ];
    assert_eq!(
        body(&handle_list_sessions(&stored)),
        "{\"count\":1,\"sessions\":[{\"id\":\"a\",\"messages\":2}]}"
    );
    let r = handle_list_sessions_for_tenant("t", &GRANTED, &stored);
    assert_eq!(
        body(&r.response),
        "{\"count\":1,\"sessions\":[{\"id\":\"b\",\"messages\":3}],\"tenant_id\":\"t\"}"
    );
    assert_eq!(handle_list_sessions_for_tenant("t", &refused("no"), &stored).usage, None);
}

#[test]
fn run_requests() {
    assert!(handle_run("nope").err().unwrap().contains("invalid JSON"));
    let q = handle_run("{\"input\":{\"task\":\"t\",\"n\":1,\"a\":\"b\"},\"context_budget\":4096,\"capabilities\":[\"x\",2]}").unwrap();
    assert_eq!(q.vars, vec![("a".to_string(), "b".to_string()), ("task".to_string(), "t".to_string())]);
    assert_eq!(q.context_budget, 4096);
    assert_eq!(q.capabilities, Some(vec!["x".to_string()]));
    let q = handle_run("{\"context_budget\":-1}").unwrap();
    assert_eq!((q.context_budget, q.capabilities), (8192, None));
    assert_eq!(status(&handle_run_for_tenant(&refused("no"), "{").err().unwrap()), "403");
    assert!(handle_run_for_tenant(&GRANTED, "{}").is_ok());
    let q = named_run_input("not json");
    assert!(q.vars.is_empty());
    assert_eq!(named_run_input("{\"input\":{\"k\":\"v\"}}").vars.len(), 1);
    let f = default_flow();
    assert_eq!((f.name.as_str(), f.search_tool.as_str(), f.search_variable.as_str()), ("gate_run", "code_search", "task"));
    assert!(f.agent_prompt.contains("{{search.output}}"));
}

#[test]
fn named_workflows() {
    assert!(handle_run_named("w", None).err().unwrap().contains("workflow not found: w"));
    assert!(handle_run_named("w", Some(b"{")).err().unwrap().contains("corrupt workflow: EOF"));
    assert_eq!(handle_run_named("w", Some(b"{\"a\":1}")).ok().unwrap().to_text(), "{\"a\":1}");
    assert_eq!(status(&handle_run_named_for_tenant(&refused("no"), "w", None).err().unwrap()), "403");
    assert_eq!(workflow_key(None, "w"), "workflow:w");
    assert_eq!(workflow_key(Some("t"), "w"), "t:t:workflow:w");
    assert!(flow_build_failed("e").contains("flow build failed: e"));
    assert!(named_build_failed("e").contains("build flow: e"));
    assert!(workflow_failed("e").contains("workflow failed: e"));
}

fn outcome() -> RunOutcome {
    RunOutcome {
        run_id: "r1".into(),
        status: "succeeded".into(),
        steps_completed: 2,
        tokens_used: 40,
        outputs: vec![("z".into(), "last".into()), ("a".into(), "x".repeat(5000))],
        recording: None,
    }
}

#[test]
fn runs_are_reported_and_kept() {
    let cost = vec![ModelCost {
        model: "m".into(),
        calls: 1,
        input_tokens: 2,
        output_tokens: 3,
        total_tokens: 5,
    }];
    let mut o = outcome();
    o.recording = Some(Json::boolean(true));
    let e = run_end(&o, 12, "tr", &cost, 1000, 1500);
    assert_eq!(e.store_key, "run:r1");
    assert!(e.reply.response.contains("\"cost\":{\"m\":{\"calls\":1,\"input_tokens\":2,\"output_tokens\":3,\"total_tokens\":5}}"));
    assert!(e.reply.response.contains("\"recording\":true"));
    assert!(e.reply.response.contains("\"trace_id\":\"tr\""));
    assert!(e.reply.response.contains("\"timestamp\":1000"));
    assert_eq!(e.reply.usage, None);
    let p = &e.payload;
    assert_eq!(p.header.thread_id.as_deref(), Some("r1"));
    assert_eq!(p.header.record_count, 3);
    assert_eq!(p.records.len(), 3);
    assert_eq!(ulgate::bridge::obs_source(&p.records[0]), Some("default"));
    assert_eq!(
        ulgate::bridge::obs_content(&p.records[0]),
        Some("status=succeeded steps=2 tokens=40 latency=12ms")
    );
    assert_eq!(p.header.agent_id, None);
    assert_eq!(p.records[0].id, "run_1500");
    assert_eq!((p.records[1].id.as_str(), p.records[1].step), ("obs_1501", 2));
    assert_eq!(p.records[2].id, "obs_1502");
    assert_eq!(ulgate::bridge::obs_source(&p.records[1]), Some("a"));
    assert_eq!(ulgate::bridge::obs_content(&p.records[1]).unwrap().len(), 4000);
    assert_eq!((p.records[2].step, ulgate::bridge::obs_source(&p.records[2])), (3, Some("z")));
    assert_eq!(p.records[0].fields[2], ulgate::bridge::FieldValue::Float(1.0f64.to_bits()));
}

#[test]
fn tenant_runs_are_reported_and_kept() {
    let mut o = outcome();
    o.status = "failed".into();
    let e = tenant_run_end("acme", &o, 12, "nightly", 7, 7);
    assert_eq!(e.store_key, "t:acme:run:r1");
    assert_eq!(e.reply.usage, Some(40));
    assert!(e.reply.response.contains("\"workflow\":\"nightly\""));
    assert!(!e.reply.response.contains("trace_id"));
    assert_eq!(
        ulgate::bridge::obs_content(&e.payload.records[0]),
        Some("status=failed steps=2 tokens=40 latency=12ms tenant=acme")
    );
    assert_eq!(e.payload.records[0].fields[2], ulgate::bridge::FieldValue::Float(0.0f64.to_bits()));
    let r = named_run_reply(&outcome(), 3);
    assert!(r.contains("\"latency_ms\":3") && !r.contains("workflow"));
}

#[test]
fn known_tenants_are_refused() {
    let n = handle_create_tenant("{\"id\":\"a\",\"api_key\":\"k\"}").ok().unwrap();
    assert_eq!(create_tenant_end(&n, false), None);
    let answer = create_tenant_end(&n, true).unwrap();
    assert_eq!(answer, tenant_exists_reply("a"));
    assert_eq!(status(&answer), "400");
    assert!(answer.contains("tenant already exists: a"));
}

#[test]
fn tool_results_go_by_their_arguments() {
    let doc = |n: usize| FoundDoc { key: format!("t:a:doc:{}", n), content: "x".into() };
    let mut a = ToolArgs { query: None, limit: Some(2), key: Some("k".into()), content: None };
    let found = StoreReply::Found((0..40).map(doc).collect());
    let r = tool_result(ToolAction::Search, Some("a"), "c", &a, &found);
    assert_eq!(r.output.as_deref(), Some("[0]\nx\n\n[1]\nx"));
    a.limit = None;
    let r = tool_result(ToolAction::Search, Some("a"), "c", &a, &found);
    assert_eq!((r.call_id.as_str(), r.tokens_used), ("c", Some(500)));
    let r = tool_result(ToolAction::Read, None, "c", &a, &StoreReply::Document(None));
    assert_eq!(r.error.as_deref(), Some("not found: k"));
    let r = tool_result(ToolAction::Write, None, "c", &a, &StoreReply::Stored(Ok(())));
    assert_eq!(r.output.as_deref(), Some("wrote 0 bytes to k"));
    assert!(can_plan(ToolAction::Search, Some("a"), &a));
    let broken = |key: &str| FoundDoc {
        key: key.into(),
        content: format!("{}\u{e9}", "x".repeat(499)),
    };
    let tell = |who, docs| can_tell(ToolAction::Search, who, &a, &StoreReply::Found(docs));
    assert!(tell(Some("a"), vec![doc(1), broken("t:b:doc:k")]));
    assert!(!tell(Some("a"), vec![doc(1), broken("t:a:doc:k")]));
    assert!(!tell(None, vec![broken("t:b:doc:k")]));
    assert!(!can_tell(ToolAction::Search, None, &a, &StoreReply::Document(None)));
    assert!(can_tell(ToolAction::Read, None, &a, &StoreReply::Document(None)));
    a.limit = Some(-1);
    assert!(!can_plan(ToolAction::Search, Some("a"), &a));
    assert!(can_plan(ToolAction::Search, None, &a) && can_plan(ToolAction::Read, Some("a"), &a));
}

#[test]
fn hits_that_can_be_shown() {
    let hit = |key: &str, content: String| SearchHit {
        key: key.into(),
        score: Json::number(1),
        content,
    };
    let broken = || format!("{}\u{e9}", "x".repeat(199));
    let others = vec![hit("t:b:doc:k", broken()), hit("t:a:doc:k", "fine".into())];
    assert!(can_show_hits(Some("a"), &others) && !can_show_hits(Some("b"), &others));
    assert!(!can_show_hits(None, &others));
    let mut many: Vec<SearchHit> = (0..10).map(|_| hit("t:a:doc:k", "fine".into())).collect();
    assert!(can_show_hits(None, &many));
    many.push(hit("t:a:doc:k", broken()));
    assert!(can_show_hits(Some("a"), &many));
    let r = handle_search_for_tenant("b", &refused("no"), "q", &others);
    assert_eq!(status(&r.response), "403");
}

#[test]
fn tools_that_write_are_refused_where_writes_are() {
    let call = |name: &str| ToolCall {
        call_id: "c".into(),
        tool_name: name.into(),
        arguments: Vec::new(),
    };
    for mode in [DegradationMode::ReadOnly, DegradationMode::Emergency] {
        let answer = tool_refusal(mode, &call("file_write")).unwrap();
        assert_eq!(status(&answer), "503");
        for name in ["file_read", "code_search", "other"] {
            assert_eq!(tool_refusal(mode, &call(name)), None);
        }
    }
    for mode in [DegradationMode::Normal, DegradationMode::Degraded] {
        assert_eq!(tool_refusal(mode, &call("file_write")), None);
    }
}

#[test]
fn tried_runs_are_settled() {
    let build: Result<RunOutcome, RunFault> = Err(RunFault::Build("b".into()));
    let run: Result<RunOutcome, RunFault> = Err(RunFault::Run("r".into()));
    let done: Result<RunOutcome, RunFault> = Ok(outcome());
    let none = Vec::new();

    let end = settle_run(&done, 12, "tr", &none, 1000, 1500);
    let same = run_end(&outcome(), 12, "tr", &none, 1000, 1500);
    assert_eq!(end.reply.response, same.reply.response);
    assert_eq!(end.stored, Some((same.store_key, same.payload)));
    let end = settle_run(&build, 12, "tr", &none, 1000, 1500);
    assert_eq!(end.reply.response, flow_build_failed("b"));
    assert_eq!((end.reply.usage, end.stored), (None, None));
    assert_eq!(settle_run(&run, 1, "tr", &none, 1, 1).reply.response, workflow_failed("r"));

    let end = settle_tenant_run("t", Some("n"), &done, 12, 7, 8);
    let same = tenant_run_end("t", &outcome(), 12, "n", 7, 8);
    assert_eq!(end.reply.response, same.reply.response);
    assert_eq!(end.reply.usage, Some(40));
    assert_eq!(end.stored, Some((same.store_key, same.payload)));
    let end = settle_tenant_run("t", None, &done, 12, 7, 8);
    assert!(end.reply.response.contains("\"workflow\":\"default\""));
    let end = settle_tenant_run("t", Some("n"), &build, 12, 7, 8);
    assert_eq!(end.reply.response, named_build_failed("b"));
    assert_eq!((end.reply.usage, end.stored), (None, None));
    let end = settle_tenant_run("t", None, &build, 12, 7, 8);
    assert_eq!(end.reply.response, flow_build_failed("b"));

    assert_eq!(settle_named_run(&done, 3), named_run_reply(&outcome(), 3));
    assert_eq!(settle_named_run(&build, 3), named_build_failed("b"));
    assert_eq!(settle_named_run(&run, 3), workflow_failed("r"));

    assert_eq!(settle_run_stream(&done, 5), run_stream_rest(&outcome(), 5, None));
    assert_eq!(settle_run_stream(&build, 5), vec![error_event("b")]);
    let end = settle_tenant_run_stream("t", &run, 5, 8, 9);
    assert_eq!(end.stream.events, vec![error_event("r")]);
    assert_eq!((end.stream.usage, end.stored), (None, None));
    let end = settle_tenant_run_stream("t", &done, 5, 8, 9);
    assert_eq!(end.stream.events.len(), 3);
    assert_eq!(end.stream.usage, Some(40));
    assert_eq!(end.stored.unwrap().0, "t:t:run:r1");

    let flow: Result<(String, usize), String> = Ok(("w".into(), 2));
    assert_eq!(register_plan(&flow, Some("t")), Ok(workflow_key(Some("t"), "w")));
    assert_eq!(register_plan(&Err("no".into()), None), Err(invalid_workflow("no")));
}

#[test]
fn run_streams() {
    let (head, q) = handle_run_stream("{\"input\":{\"task\":\"x\"}}").ok().unwrap();
    assert!(head.contains("text/event-stream"));
    assert_eq!(q.vars.len(), 1);
    assert!(handle_run_stream("x").is_err());
    assert_eq!(status(&handle_run_stream_for_tenant(&refused("no"), "{}").err().unwrap()), "403");
    assert!(handle_run_stream_for_tenant(&GRANTED, "{}").is_ok());
    assert_eq!(run_start_event(None), "data: {\"type\":\"start\",\"workflow\":\"gate_run\"}\n\n");
    assert!(run_start_event(Some("t")).contains("\"tenant_id\":\"t\""));
    let e = output_event("k", &"y".repeat(2500));
    assert!(e.contains(&"y".repeat(2000)) && !e.contains(&"y".repeat(2001)));
    let rest = tenant_run_stream_rest("t", &outcome(), 5, 8, 8);
    assert_eq!(rest.stream.events.len(), 3);
    assert_eq!(rest.stream.events[0], output_event("z", "last"));
    assert_eq!(rest.stream.events[2], run_done_event(&outcome(), 5, Some("t")));
    assert_eq!((rest.stream.usage, rest.store_key.as_str()), (Some(40), "t:t:run:r1"));
    assert_eq!(rest.payload.records.len(), 3);
    assert_eq!(run_stream_rest(&outcome(), 5, None)[2], run_done_event(&outcome(), 5, None));
    assert_eq!(
        run_done_event(&outcome(), 5, Some("t")),
        "data: {\"latency_ms\":5,\"status\":\"succeeded\",\"steps_completed\":2,\"tenant_id\":\"t\",\"tokens_used\":40,\"type\":\"done\"}\n\ndata: [DONE]\n\n"
    );
}

#[test]
fn workflows_are_registered_and_listed() {
    assert!(handle_register_workflow("x").err().unwrap().contains("invalid JSON"));
    assert!(handle_register_workflow("{}").is_ok());
    assert_eq!(status(&handle_register_workflow_for_tenant(&refused("no"), "{}").err().unwrap()), "403");
    assert!(invalid_workflow("no steps").contains("invalid workflow: no steps"));
    let r = register_reply("w", 2, &GRANTED, Some("t"));
    assert_eq!(
        body(&r.response),
        "{\"name\":\"w\",\"status\":\"registered\",\"steps\":2,\"tenant_id\":\"t\"}"
    );
    assert_eq!(r.usage, Some(0));
    assert_eq!(register_reply("w", 2, &refused("e"), Some("t")).usage, None);
    let stored = vec![
        StoredWorkflow { key: "workflow:a".into(), value: b"{\"steps\":[1,2]}".to_vec() },
        StoredWorkflow { key: "workflow:bad".into(), value: b"{".to_vec() },
        StoredWorkflow { key: "other".into(), value: b"{}".to_vec() },
        StoredWorkflow { key: "workflow:c".into(), value: b"7".to_vec() },
        StoredWorkflow { key: "t:t:workflow:d".into(), value: b"{}".to_vec() },
    ];
    assert_eq!(
        body(&handle_list_workflows(&stored)),
        "{\"count\":2,\"workflows\":[{\"name\":\"a\",\"steps\":2},{\"name\":\"c\",\"steps\":0}]}"
    );
    let r = handle_list_workflows_for_tenant("t", &stored);
    assert_eq!(
        body(&r.response),
        "{\"count\":1,\"tenant_id\":\"t\",\"workflows\":[{\"name\":\"d\",\"steps\":0}]}"
    );
}

#[test]
fn runs_are_listed_newest_first() {
    let values = bytes(&[
        "{\"run_id\":\"a\",\"tokens_used\":1}",
        "garbage",
        "{\"run_id\":\"b\",\"status\":\"failed\"}",
    ]);
    let r = body(&handle_list_runs(&values));
    assert!(r.starts_with("{\"count\":2,\"runs\":[{\"latency_ms\":null,\"run_id\":\"b\""));
    let many: Vec<Vec<u8>> = (0..150).map(|i| format!("{{\"run_id\":{}}}", i).into_bytes()).collect();
    let r = handle_list_runs(&many);
    assert!(r.contains("\"count\":100") && r.contains("\"run_id\":50,") && !r.contains("\"run_id\":49,"));
    assert_eq!(body(&handle_get_run("a", Some(b"{\"x\": 1}"))), "{\"x\":1}");
    assert_eq!(body(&handle_get_run("a", Some(b"?"))), "{}");
    assert!(handle_get_run("a", None).contains("run not found: a"));
}

#[test]
fn tenant_runs_are_listed() {
    let mut p = new_payload("r", None);
    p.records.push(obs_record("o", "r", 1, "w", "status=ok", 0));
    let stored = vec![
        StoredRun { key: "t:a:run:1".into(), payload: Some(p.clone()) },
        StoredRun { key: "t:b:run:2".into(), payload: Some(p.clone()) },
        StoredRun { key: "t:a:run:3".into(), payload: None },
        StoredRun { key: "t:a:run:4".into(), payload: Some(new_payload("x", None)) },
        StoredRun { key: "t:a:run:5".into(), payload: Some(p.clone()) },
    ];
    let r = handle_list_runs_for_tenant("a", &stored);
    assert_eq!(
        body(&r.response),
        "{\"count\":2,\"runs\":[{\"record_count\":1,\"run_id\":\"5\",\"summary\":\"status=ok\"},{\"record_count\":1,\"run_id\":\"1\",\"summary\":\"status=ok\"}],\"tenant_id\":\"a\"}"
    );
    let r = handle_get_run_for_tenant("a", "1", Some(&p));
    assert_eq!(
        body(&r.response),
        "{\"record_count\":1,\"records\":[{\"content\":\"status=ok\",\"source\":\"w\"}],\"run_id\":\"1\",\"tenant_id\":\"a\"}"
    );
    assert_eq!(handle_get_run_for_tenant("a", "1", None).usage, None);
}

#[test]
fn metrics() {
    let values = bytes(&[
        "{\"status\":\"succeeded\",\"tokens_used\":100,\"latency_ms\":30}",
        "{\"status\":\"failed\",\"tokens_used\":50,\"latency_ms\":10}",
        "x",
        "{\"status\":\"succeeded\",\"latency_ms\":20}",
    ]);
    let r = handle_metrics(&values, 120, &state()).unwrap();
    assert_eq!(
        body(&r),
        "{\"avg_tokens_per_run\":37,\"failed\":1,\"latency\":{\"avg_ms\":15,\"p50_ms\":20,\"p95_ms\":30,\"p99_ms\":30},\"llm\":null,\"runs_per_minute\":\"2.0\",\"succeeded\":2,\"success_rate\":\"50.0%\",\"tokens_per_minute\":75,\"tools\":3,\"total_runs\":4,\"total_tokens\":150,\"uptime_seconds\":120}"
    );
    let r = handle_metrics(&Vec::new(), 0, &state()).unwrap();
    assert!(r.contains("\"success_rate\":\"N/A\"") && r.contains("\"runs_per_minute\":\"0.0\""));
    let t = handle_metrics_for_tenant("a", &values).unwrap();
    assert_eq!(
        body(&t.response),
        "{\"avg_tokens_per_run\":37,\"failed\":1,\"latency\":{\"avg_ms\":15,\"p50_ms\":20,\"p95_ms\":30,\"p99_ms\":30},\"succeeded\":2,\"success_rate\":\"50.0%\",\"tenant_id\":\"a\",\"total_runs\":4,\"total_tokens\":150}"
    );
    let huge = bytes(&[
        "{\"tokens_used\":18446744073709551615}",
        "{\"tokens_used\":1}",
    ]);
    assert!(handle_metrics(&huge, 1, &state()).is_none());
    assert!(handle_metrics_for_tenant("a", &huge).is_none());
}

#[test]
fn dashboard_and_log() {
    let values: Vec<Vec<u8>> = (0..60)
        .map(|i| format!("{{\"run_id\":\"r{}\",\"tokens_used\":{},\"timestamp\":9}}", i, i).into_bytes())
        .collect();
    let r = handle_dashboard(&state(), 5, &values, 2, 3).unwrap();
    assert!(r.contains("\"stats\":{\"active_sessions\":2,\"registered_workflows\":3,\"total_runs\":60,\"total_tokens\":545}"));
    assert!(r.contains("\"run_id\":\"r59\"") && r.contains("\"run_id\":\"r50\"") && !r.contains("\"run_id\":\"r49\""));
    assert!(r.contains("\"uptime_seconds\":5"));
    let t = handle_dashboard_for_tenant("a", &state(), &values, 2, 3).unwrap();
    assert!(t.response.contains("\"tenant_id\":\"a\"") && !t.response.contains("uptime"));
    let log = handle_logs(&values);
    assert!(log.contains("\"count\":50") && log.contains("\"run_id\":\"r10\"") && !log.contains("\"run_id\":\"r9\""));
    assert!(log.contains("\"timestamp\":9"));
    let t = handle_logs_for_tenant("a", &values);
    assert_eq!(t.usage, Some(0));
    assert!(t.response.contains("\"tenant_id\":\"a\""));
}

#[test]
fn json_values() {
    let o = JsonObject::new().text("b", "x").number("a", 1).with("b", Json::null()).build();
    assert_eq!(o.to_text(), "{\"a\":1,\"b\":null}");
    assert_eq!(o.number_at("a", 9), 1);
    assert_eq!(o.number_at("b", 9), 9);
    assert_eq!(o.member("c").to_text(), "null");
    assert_eq!(o.copy().to_text(), o.to_text());
    assert_eq!(Json::texts(&vec!["p".into(), "q".into()]).to_text(), "[\"p\",\"q\"]");
    assert_eq!(Json::parse_bytes(&[0xff]).is_err(), true);
    assert_eq!(Json::from_value(o.into_value()).to_text(), "{\"a\":1,\"b\":null}");
    assert_eq!(Json::optional_number(Some(4)).to_text(), "4");
}
