use ulgate::bridge::{
    count_tokens, err_record, field_str, format_run_summary, gen_id, gen_id_at, mem_record, IdSource,
    msg_content, msg_record, msg_role, new_payload, obs_content, obs_record, obs_source,
    parse_run_summary, payload_to_chat_json, payload_to_run_json, res_record, tool_record,
    AgentPayload, AgentRecord, FieldValue, MetaFields, RecordType, RunSummary,
};

fn to_core_field(f: &FieldValue) -> ulmen_core::FieldValue {
    match f {
        FieldValue::Null => ulmen_core::FieldValue::Null,
        FieldValue::Bool(b) => ulmen_core::FieldValue::Bool(*b),
        FieldValue::Int(n) => ulmen_core::FieldValue::Int(*n),
        FieldValue::Float(b) => ulmen_core::FieldValue::Float(f64::from_bits(*b)),
        FieldValue::Str(s) => ulmen_core::FieldValue::Str(s.clone()),
    }
}

fn from_core_field(f: &ulmen_core::FieldValue) -> FieldValue {
    match f {
        ulmen_core::FieldValue::Null => FieldValue::Null,
        ulmen_core::FieldValue::Bool(b) => FieldValue::Bool(*b),
        ulmen_core::FieldValue::Int(n) => FieldValue::Int(*n),
        ulmen_core::FieldValue::Float(x) => FieldValue::Float(x.to_bits()),
        ulmen_core::FieldValue::Str(s) => FieldValue::Str(s.clone()),
    }
}

fn to_core(p: &AgentPayload) -> ulmen_core::AgentPayload {
    ulmen_core::AgentPayload {
        header: ulmen_core::AgentHeader {
            thread_id: p.header.thread_id.clone(),
            session_id: p.header.session_id.clone(),
            record_count: p.header.record_count,
            ..Default::default()
        },
        records: p
            .records
            .iter()
            .map(|r| ulmen_core::AgentRecord {
                record_type: match r.record_type {
                    RecordType::Msg => ulmen_core::RecordType::Msg,
                    RecordType::Tool => ulmen_core::RecordType::Tool,
                    RecordType::Res => ulmen_core::RecordType::Res,
                    RecordType::Plan => ulmen_core::RecordType::Plan,
                    RecordType::Obs => ulmen_core::RecordType::Obs,
                    RecordType::Error => ulmen_core::RecordType::Err,
                    RecordType::Mem => ulmen_core::RecordType::Mem,
                    RecordType::Rag => ulmen_core::RecordType::Rag,
                    RecordType::Hyp => ulmen_core::RecordType::Hyp,
                    RecordType::Cot => ulmen_core::RecordType::Cot,
                },
                id: r.id.clone(),
                thread_id: r.thread_id.clone(),
                step: r.step,
                fields: r.fields.iter().map(to_core_field).collect(),
                meta: ulmen_core::MetaFields::default(),
            })
            .collect(),
    }
}

fn from_core_record(r: &ulmen_core::AgentRecord) -> AgentRecord {
    AgentRecord {
        record_type: match r.record_type {
            ulmen_core::RecordType::Msg => RecordType::Msg,
            ulmen_core::RecordType::Tool => RecordType::Tool,
            ulmen_core::RecordType::Res => RecordType::Res,
            ulmen_core::RecordType::Plan => RecordType::Plan,
            ulmen_core::RecordType::Obs => RecordType::Obs,
            ulmen_core::RecordType::Err => RecordType::Error,
            ulmen_core::RecordType::Mem => RecordType::Mem,
            ulmen_core::RecordType::Rag => RecordType::Rag,
            ulmen_core::RecordType::Hyp => RecordType::Hyp,
            ulmen_core::RecordType::Cot => RecordType::Cot,
        },
        id: r.id.clone(),
        thread_id: r.thread_id.clone(),
        step: r.step,
        fields: r.fields.iter().map(from_core_field).collect(),
        meta: MetaFields::default(),
    }
}

#[test]
fn msg_record_roundtrip() {
    let rec = msg_record("m1", "t1", 1, "user", "hello world", 5);
    assert_eq!(rec.record_type, RecordType::Msg);
    assert_eq!(msg_role(&rec), Some("user"));
    assert_eq!(msg_content(&rec), Some("hello world"));
}

#[test]
fn tool_record_fields() {
    let rec = tool_record("t1", "t1", 2, "code_search", "{\"query\":\"auth\"}", "success");
    assert_eq!(rec.record_type, RecordType::Tool);
    assert_eq!(field_str(&rec.fields[0]), Some("code_search"));
}

#[test]
fn obs_record_fields() {
    let rec = obs_record("o1", "t1", 3, "search_step", "found 3 results", 0.95f64.to_bits());
    assert_eq!(obs_source(&rec), Some("search_step"));
    assert_eq!(obs_content(&rec), Some("found 3 results"));
}

#[test]
fn mem_record_with_ttl() {
    let rec = mem_record("m1", "t1", 1, "auth:token", "valid", 0.9f64.to_bits(), Some(3600));
    assert_eq!(rec.record_type, RecordType::Mem);
    assert_eq!(rec.fields[3], FieldValue::Int(3600));
}

#[test]
fn mem_record_without_ttl() {
    let rec = mem_record("m1", "t1", 1, "auth:token", "valid", 0.9f64.to_bits(), None);
    assert_eq!(rec.fields[3], FieldValue::Null);
}

#[test]
fn err_record_fields() {
    let rec = err_record("e1", "t1", 1, "TOOL_FAIL", "not found", "search", true);
    assert_eq!(rec.record_type, RecordType::Error);
    assert_eq!(rec.fields[3], FieldValue::Bool(true));
}

#[test]
fn new_payload_creates_empty() {
    let p = new_payload("thread_1", Some("session_1"));
    assert_eq!(p.header.thread_id.as_deref(), Some("thread_1"));
    assert_eq!(p.header.session_id.as_deref(), Some("session_1"));
    assert_eq!(p.records.len(), 0);
}

#[test]
fn payload_to_chat_json_converts() {
    let mut p = new_payload("t1", None);
    p.records.push(msg_record("m1", "t1", 1, "user", "hello", 3));
    p.records.push(msg_record("m2", "t1", 2, "assistant", "hi there", 5));
    p.header.record_count = 2;

    let json = payload_to_chat_json(&p);
    assert_eq!(json.len(), 2);
    assert_eq!(json[0].text_at("role").as_deref(), Some("user"));
    assert_eq!(json[1].text_at("content").as_deref(), Some("hi there"));
}

#[test]
fn payload_to_run_json_converts() {
    let mut p = new_payload("t1", None);
    p.records.push(obs_record("o1", "t1", 1, "search", "found stuff", 0.9f64.to_bits()));
    p.header.record_count = 1;

    let json = payload_to_run_json(&p);
    assert_eq!(json.len(), 1);
    assert_eq!(json[0].text_at("source").as_deref(), Some("search"));
}

#[test]
fn ulmen_encode_decode_roundtrip() {
    let mut p = new_payload("t1", Some("sess_1"));
    p.records.push(msg_record("m1", "t1", 1, "user", "test message", 5));
    p.records.push(obs_record("o1", "t1", 2, "step_a", "output data", 0.85f64.to_bits()));
    p.header.record_count = 2;

    let encoded = to_core(&p).encode();
    let decoded = ulmen_core::AgentPayload::decode(&encoded).unwrap();
    assert_eq!(decoded.records.len(), 2);
    let first = from_core_record(&decoded.records[0]);
    let second = from_core_record(&decoded.records[1]);
    assert_eq!(msg_content(&first), Some("test message"));
    assert_eq!(obs_content(&second), Some("output data"));
}

#[test]
fn parse_run_summary_full() {
    let s = parse_run_summary("status=succeeded steps=3 tokens=500 latency=120ms tenant=acme");
    assert_eq!(s.status, "succeeded");
    assert_eq!(s.steps, 3);
    assert_eq!(s.tokens, 500);
    assert_eq!(s.latency_ms, 120);
    assert_eq!(s.tenant.as_deref(), Some("acme"));
}

#[test]
fn parse_run_summary_partial() {
    let s = parse_run_summary("status=failed tokens=0");
    assert_eq!(s.status, "failed");
    assert_eq!(s.tokens, 0);
    assert_eq!(s.latency_ms, 0);
}

#[test]
fn summary_is_read_back() {
    let s = RunSummary {
        status: "a=b".into(),
        steps: 7,
        tokens: u64::MAX,
        latency_ms: 0,
        tenant: Some("".into()),
    };
    let text = format_run_summary(&s);
    assert_eq!(text, "status=a=b steps=7 tokens=18446744073709551615 latency=0ms tenant=");
    let back = parse_run_summary(&text);
    assert_eq!(back.status, "a=b");
    assert_eq!((back.steps, back.tokens, back.latency_ms), (7, u64::MAX, 0));
    assert_eq!(back.tenant.as_deref(), Some(""));
}

#[test]
fn odd_summaries() {
    let s = parse_run_summary("steps=x tokens=-1 latency=5msms other=1 status status=a status=b");
    assert_eq!((s.steps, s.tokens, s.latency_ms), (0, 0, 5));
    assert_eq!(s.status, "b");
    assert_eq!(s.tenant, None);
    let d = RunSummary::default();
    assert_eq!(format_run_summary(&d), "status= steps=0 tokens=0 latency=0ms");
}

#[test]
fn records_of_other_kinds_are_not_read() {
    let msg = msg_record("m", "t", 1, "user", "x", 0);
    let obs = obs_record("o", "t", 1, "s", "c", 0);
    assert_eq!(obs_source(&msg), None);
    assert_eq!(obs_content(&msg), None);
    assert_eq!(msg_role(&obs), None);
    assert_eq!(msg_content(&obs), None);
    let mut short = msg_record("m", "t", 1, "user", "x", 0);
    short.fields.truncate(1);
    assert_eq!(msg_content(&short), None);
    short.fields[0] = FieldValue::Null;
    assert_eq!(msg_role(&short), None);
    let mut p = new_payload("t", None);
    p.records = vec![short, obs];
    let chat = payload_to_chat_json(&p);
    assert_eq!(chat.len(), 1);
    assert_eq!(chat[0].to_text(), "{\"content\":\"\",\"role\":\"unknown\"}");
}

#[test]
fn record_layouts() {
    let m = msg_record("i", "t", 4, "r", "c", 9);
    assert_eq!((m.id.as_str(), m.thread_id.as_str(), m.step), ("i", "t", 4));
    assert_eq!(
        m.fields,
        vec![
            FieldValue::Str("r".into()),
            FieldValue::Int(4),
            FieldValue::Str("c".into()),
            FieldValue::Int(9),
            FieldValue::Bool(false),
        ]
    );
    assert_eq!(m.meta, MetaFields::default());
    let r = res_record("i", "t", 1, "n", "d", "s", 12);
    assert_eq!(r.record_type, RecordType::Res);
    assert_eq!(r.fields[1], FieldValue::Str("d".into()));
    assert_eq!(r.fields[3], FieldValue::Int(12));
    let o = obs_record("i", "t", 1, "n", "d", 1.0f64.to_bits());
    assert_eq!(o.fields[2], FieldValue::Float(0x3ff0_0000_0000_0000));
}

#[test]
fn identifiers() {
    assert_eq!(gen_id_at("msg", 1234), "msg_1234");
    let mut ids = IdSource::new();
    let id = gen_id(&mut ids, "run");
    assert!(id.strip_prefix("run_").unwrap().parse::<u64>().unwrap() > 1_600_000_000_000);
}

#[test]
fn identifiers_are_unique() {
    let mut ids = IdSource::new();
    let all: Vec<String> = (0..1000).map(|_| gen_id(&mut ids, "msg")).collect();
    let distinct: std::collections::BTreeSet<&String> = all.iter().collect();
    assert_eq!(distinct.len(), 1000);
    assert!(ids.has_room());
}

#[test]
fn numbers_are_handed_out_once() {
    let mut ids = IdSource::new();
    assert_eq!(ids.reserve(100, 3), Some(100));
    assert_eq!(ids.reserve(100, 1), Some(103));
    assert_eq!(ids.reserve(50, 2), Some(104));
    assert_eq!(ids.reserve(200, 1), Some(200));
    assert_eq!(ids.reserve(u64::MAX, 1), None);
    assert_eq!(ids.reserve(200, 1), Some(201));
}

#[test]
fn tokens_are_counted() {
    assert_eq!(count_tokens(""), 0);
    let text = "def validate_token(token: str) -> bool: return jwt.decode(token)";
    assert_eq!(count_tokens(text), ulmen_core::count_tokens(text));
    assert!(count_tokens(text) > 5);
}
