//! Bridge between the HTTP interface and stored records.
//!
//! External input arrives as JSON; sessions and runs are stored as payloads of typed records.
//! This module builds records, reads them, and turns them into JSON.

use std::time::SystemTime;
use vstd::prelude::*;

use crate::clock::{millis_at, unix_millis};
use crate::json::{json_views, Json, JsonObject, JsonView};
use crate::text::{
    cut, cut_at, dec, is_digit, lemma_dec_value, opt_str_view, opt_view, parse_u64, parse_unsigned,
    split_words, str_eq, str_views, trim_end_str, trim_suffix, u128_text, u64_text, words,
};

verus! {

/// The kind of a record.
#[derive(Debug, Clone, Copy, PartialEq, Eq, Structural)]
pub enum RecordType {
    Msg,
    Tool,
    Res,
    Plan,
    Obs,
    Error,
    Mem,
    Rag,
    Hyp,
    Cot,
}

/// The value of a field. A fraction is held by the bits of its binary form.
#[derive(Debug, Clone, PartialEq, Eq)]
pub enum FieldValue {
    Null,
    Bool(bool),
    Int(i64),
    Float(u64),
    Str(String),
}

/// The value of a field, as a value.
pub enum FieldView {
    Null,
    Bool(bool),
    Int(i64),
    Float(u64),
    Str(Seq<char>),
}

impl View for FieldValue {
    type V = FieldView;

    open spec fn view(&self) -> FieldView {
        match self {
            FieldValue::Null => FieldView::Null,
            FieldValue::Bool(b) => FieldView::Bool(*b),
            FieldValue::Int(n) => FieldView::Int(*n),
            FieldValue::Float(b) => FieldView::Float(*b),
            FieldValue::Str(s) => FieldView::Str(s@),
        }
    }
}

/// What links a record to others.
#[derive(Debug, Clone, PartialEq, Eq)]
pub struct MetaFields {
    pub parent_id: Option<String>,
    pub from_agent: Option<String>,
    pub to_agent: Option<String>,
    pub priority: Option<i64>,
}

/// Meta fields without a value.
pub open spec fn no_meta() -> MetaFields {
    MetaFields { parent_id: None, from_agent: None, to_agent: None, priority: None }
}

impl Default for MetaFields {
    fn default() -> (r: MetaFields)
        ensures
            r == no_meta(),
    {
        MetaFields { parent_id: None, from_agent: None, to_agent: None, priority: None }
    }
}

/// One record of a session or run.
#[derive(Debug, Clone, PartialEq, Eq)]
pub struct AgentRecord {
    pub record_type: RecordType,
    pub id: String,
    pub thread_id: String,
    pub step: i64,
    pub fields: Vec<FieldValue>,
    pub meta: MetaFields,
}

/// One record, as a value.
#[verifier::ext_equal]
pub struct RecordView {
    pub record_type: RecordType,
    pub id: Seq<char>,
    pub thread_id: Seq<char>,
    pub step: i64,
    pub fields: Seq<FieldView>,
    pub meta: MetaFields,
}

/// The values of fields.
pub open spec fn field_views(v: Seq<FieldValue>) -> Seq<FieldView> {
    Seq::new(v.len(), |i: int| v[i]@)
}

impl View for AgentRecord {
    type V = RecordView;

    open spec fn view(&self) -> RecordView {
        RecordView {
            record_type: self.record_type,
            id: self.id@,
            thread_id: self.thread_id@,
            step: self.step,
            fields: field_views(self.fields@),
            meta: self.meta,
        }
    }
}

/// The header of a payload.
#[derive(Debug, Clone, PartialEq, Eq)]
pub struct AgentHeader {
    pub thread_id: Option<String>,
    pub context_window: Option<i64>,
    pub context_used: Option<i64>,
    pub payload_id: Option<String>,
    pub parent_payload_id: Option<String>,
    pub agent_id: Option<String>,
    pub session_id: Option<String>,
    pub schema_version: Option<String>,
    pub meta_fields: Vec<String>,
    pub record_count: usize,
}

/// The records of a session or run.
#[derive(Debug, Clone, PartialEq, Eq)]
pub struct AgentPayload {
    pub header: AgentHeader,
    pub records: Vec<AgentRecord>,
}

/// The values of records.
pub open spec fn record_views(v: Seq<AgentRecord>) -> Seq<RecordView> {
    Seq::new(v.len(), |i: int| v[i]@)
}

// ---------------------------------------------------------------------------
// Building records

/// A record of the given kind, without meta fields.
pub open spec fn plain_record(
    record_type: RecordType,
    id: Seq<char>,
    thread_id: Seq<char>,
    step: i64,
    fields: Seq<FieldView>,
) -> RecordView {
    RecordView { record_type, id, thread_id, step, fields, meta: no_meta() }
}

/// A record of the given kind, without meta fields.
fn build_record(
    record_type: RecordType,
    id: &str,
    thread_id: &str,
    step: i64,
    fields: Vec<FieldValue>,
) -> (r: AgentRecord)
    ensures
        r@ == plain_record(record_type, id@, thread_id@, step, field_views(fields@)),
{
    AgentRecord {
        record_type,
        id: id.to_owned(),
        thread_id: thread_id.to_owned(),
        step,
        fields,
        meta: MetaFields { parent_id: None, from_agent: None, to_agent: None, priority: None },
    }
}

/// A record of a chat message.
pub open spec fn msg_view(
    id: Seq<char>,
    thread_id: Seq<char>,
    step: i64,
    role: Seq<char>,
    content: Seq<char>,
    tokens: i64,
) -> RecordView {
    plain_record(
        RecordType::Msg,
        id,
        thread_id,
        step,
        seq![
            FieldView::Str(role),
            FieldView::Int(step),
            FieldView::Str(content),
            FieldView::Int(tokens),
            FieldView::Bool(false),
        ],
    )
}

/// Builds a record of a chat message.
pub fn msg_record(
    id: &str,
    thread_id: &str,
    step: i64,
    role: &str,
    content: &str,
    tokens: i64,
) -> (r: AgentRecord)
    ensures
        r@ == msg_view(id@, thread_id@, step, role@, content@, tokens),
{
    let fields: Vec<FieldValue> = vec![
        FieldValue::Str(role.to_owned()),
        FieldValue::Int(step),
        FieldValue::Str(content.to_owned()),
        FieldValue::Int(tokens),
        FieldValue::Bool(false),
    ];
    assert(field_views(fields@) =~= msg_view(id@, thread_id@, step, role@, content@, tokens).fields);
    build_record(RecordType::Msg, id, thread_id, step, fields)
}

/// Builds a record of a tool call.
pub fn tool_record(
    id: &str,
    thread_id: &str,
    step: i64,
    name: &str,
    args: &str,
    status: &str,
) -> (r: AgentRecord)
    ensures
        r@ == plain_record(
            RecordType::Tool,
            id@,
            thread_id@,
            step,
            seq![FieldView::Str(name@), FieldView::Str(args@), FieldView::Str(status@)],
        ),
{
    let fields: Vec<FieldValue> = vec![
        FieldValue::Str(name.to_owned()),
        FieldValue::Str(args.to_owned()),
        FieldValue::Str(status.to_owned()),
    ];
    assert(field_views(fields@) =~= seq![
        FieldView::Str(name@),
        FieldView::Str(args@),
        FieldView::Str(status@),
    ]);
    build_record(RecordType::Tool, id, thread_id, step, fields)
}

/// Builds a record of a tool response.
pub fn res_record(
    id: &str,
    thread_id: &str,
    step: i64,
    name: &str,
    data: &str,
    status: &str,
    latency_ms: i64,
) -> (r: AgentRecord)
    ensures
        r@ == plain_record(
            RecordType::Res,
            id@,
            thread_id@,
            step,
            seq![
                FieldView::Str(name@),
                FieldView::Str(data@),
                FieldView::Str(status@),
                FieldView::Int(latency_ms),
            ],
        ),
{
    let fields: Vec<FieldValue> = vec![
        FieldValue::Str(name.to_owned()),
        FieldValue::Str(data.to_owned()),
        FieldValue::Str(status.to_owned()),
        FieldValue::Int(latency_ms),
    ];
    assert(field_views(fields@) =~= seq![
        FieldView::Str(name@),
        FieldView::Str(data@),
        FieldView::Str(status@),
        FieldView::Int(latency_ms),
    ]);
    build_record(RecordType::Res, id, thread_id, step, fields)
}

/// A record of a workflow step's result.
pub open spec fn obs_view(
    id: Seq<char>,
    thread_id: Seq<char>,
    step: i64,
    source: Seq<char>,
    content: Seq<char>,
    confidence: u64,
) -> RecordView {
    plain_record(
        RecordType::Obs,
        id,
        thread_id,
        step,
        seq![FieldView::Str(source), FieldView::Str(content), FieldView::Float(confidence)],
    )
}

/// Builds a record of a workflow step's result. The confidence is given by the bits of its binary
/// form.
pub fn obs_record(
    id: &str,
    thread_id: &str,
    step: i64,
    source: &str,
    content: &str,
    confidence: u64,
) -> (r: AgentRecord)
    ensures
        r@ == obs_view(id@, thread_id@, step, source@, content@, confidence),
{
    let fields: Vec<FieldValue> = vec![
        FieldValue::Str(source.to_owned()),
        FieldValue::Str(content.to_owned()),
        FieldValue::Float(confidence),
    ];
    assert(field_views(fields@) =~= obs_view(
        id@,
        thread_id@,
        step,
        source@,
        content@,
        confidence,
    ).fields);
    build_record(RecordType::Obs, id, thread_id, step, fields)
}

/// Builds a record of a memory entry. The confidence is given by the bits of its binary form.
pub fn mem_record(
    id: &str,
    thread_id: &str,
    step: i64,
    key: &str,
    value: &str,
    confidence: u64,
    ttl: Option<i64>,
) -> (r: AgentRecord)
    ensures
        r@ == plain_record(
            RecordType::Mem,
            id@,
            thread_id@,
            step,
            seq![
                FieldView::Str(key@),
                FieldView::Str(value@),
                FieldView::Float(confidence),
                match ttl {
                    Some(n) => FieldView::Int(n),
                    None => FieldView::Null,
                },
            ],
        ),
{
    let last = match ttl {
        Some(n) => FieldValue::Int(n),
        None => FieldValue::Null,
    };
    let ghost last_view = last@;
    let fields: Vec<FieldValue> = vec![
        FieldValue::Str(key.to_owned()),
        FieldValue::Str(value.to_owned()),
        FieldValue::Float(confidence),
        last,
    ];
    assert(field_views(fields@) =~= seq![
        FieldView::Str(key@),
        FieldView::Str(value@),
        FieldView::Float(confidence),
        last_view,
    ]);
    build_record(RecordType::Mem, id, thread_id, step, fields)
}

/// Builds a record of an error.
pub fn err_record(
    id: &str,
    thread_id: &str,
    step: i64,
    code: &str,
    message: &str,
    source: &str,
    recoverable: bool,
) -> (r: AgentRecord)
    ensures
        r@ == plain_record(
            RecordType::Error,
            id@,
            thread_id@,
            step,
            seq![
                FieldView::Str(code@),
                FieldView::Str(message@),
                FieldView::Str(source@),
                FieldView::Bool(recoverable),
            ],
        ),
{
    let fields: Vec<FieldValue> = vec![
        FieldValue::Str(code.to_owned()),
        FieldValue::Str(message.to_owned()),
        FieldValue::Str(source.to_owned()),
        FieldValue::Bool(recoverable),
    ];
    assert(field_views(fields@) =~= seq![
        FieldView::Str(code@),
        FieldView::Str(message@),
        FieldView::Str(source@),
        FieldView::Bool(recoverable),
    ]);
    build_record(RecordType::Error, id, thread_id, step, fields)
}

/// A new payload of a session or run, without records.
pub fn new_payload(thread_id: &str, session_id: Option<&str>) -> (r: AgentPayload)
    ensures
        opt_view(r.header.thread_id) == Some(thread_id@),
        opt_view(r.header.session_id) == opt_str_view(session_id),
        r.header == (AgentHeader {
            thread_id: r.header.thread_id,
            session_id: r.header.session_id,
            meta_fields: r.header.meta_fields,
            context_window: None,
            context_used: None,
            payload_id: None,
            parent_payload_id: None,
            agent_id: None,
            schema_version: None,
            record_count: 0,
        }),
        r.header.meta_fields@.len() == 0,
        r.records@.len() == 0,
{
    AgentPayload {
        header: AgentHeader {
            thread_id: Some(thread_id.to_owned()),
            context_window: None,
            context_used: None,
            payload_id: None,
            parent_payload_id: None,
            agent_id: None,
            session_id: match session_id {
                Some(s) => Some(s.to_owned()),
                None => None,
            },
            schema_version: None,
            meta_fields: Vec::new(),
            record_count: 0,
        },
        records: Vec::new(),
    }
}

// ---------------------------------------------------------------------------
// Reading records

impl RecordView {
    /// The text of the `i`-th field, where the record is of kind `t`, has that field and it holds
    /// a text.
    pub open spec fn text_field(self, t: RecordType, i: int) -> Option<Seq<char>> {
        if self.record_type == t && i < self.fields.len() {
            match self.fields[i] {
                FieldView::Str(s) => Some(s),
                _ => None,
            }
        } else {
            None
        }
    }
}

/// The text of a field, where it holds one.
pub fn field_str<'a>(f: &'a FieldValue) -> (r: Option<&'a str>)
    ensures
        opt_str_view(r) == (match f@ {
            FieldView::Str(s) => Some(s),
            _ => None,
        }),
{
    match f {
        FieldValue::Str(s) => Some(s.as_str()),
        _ => None,
    }
}

/// The text of the `i`-th field of a record of kind `t`.
fn record_text<'a>(record: &'a AgentRecord, t: RecordType, i: usize) -> (r: Option<&'a str>)
    ensures
        opt_str_view(r) == record@.text_field(t, i as int),
{
    if record.record_type == t && i < record.fields.len() {
        field_str(&record.fields[i])
    } else {
        None
    }
}

/// The content of a message.
pub fn msg_content<'a>(record: &'a AgentRecord) -> (r: Option<&'a str>)
    ensures
        opt_str_view(r) == record@.text_field(RecordType::Msg, 2),
{
    record_text(record, RecordType::Msg, 2)
}

/// The role of a message.
pub fn msg_role<'a>(record: &'a AgentRecord) -> (r: Option<&'a str>)
    ensures
        opt_str_view(r) == record@.text_field(RecordType::Msg, 0),
{
    record_text(record, RecordType::Msg, 0)
}

/// The source of an observation.
pub fn obs_source<'a>(record: &'a AgentRecord) -> (r: Option<&'a str>)
    ensures
        opt_str_view(r) == record@.text_field(RecordType::Obs, 0),
{
    record_text(record, RecordType::Obs, 0)
}

/// The content of an observation.
pub fn obs_content<'a>(record: &'a AgentRecord) -> (r: Option<&'a str>)
    ensures
        opt_str_view(r) == record@.text_field(RecordType::Obs, 1),
{
    record_text(record, RecordType::Obs, 1)
}

/// A message as JSON.
pub open spec fn chat_json(rec: RecordView) -> JsonView {
    JsonView::Object(
        map![
            "role"@ => JsonView::Str(rec.text_field(RecordType::Msg, 0).unwrap_or("unknown"@)),
            "content"@ => JsonView::Str(rec.text_field(RecordType::Msg, 2).unwrap_or(""@)),
        ],
    )
}

/// An observation as JSON.
pub open spec fn run_json(rec: RecordView) -> JsonView {
    JsonView::Object(
        map![
            "source"@ => JsonView::Str(rec.text_field(RecordType::Obs, 0).unwrap_or("unknown"@)),
            "content"@ => JsonView::Str(rec.text_field(RecordType::Obs, 1).unwrap_or(""@)),
        ],
    )
}

/// The messages among records, as JSON, in order.
pub open spec fn chat_list(records: Seq<RecordView>) -> Seq<JsonView>
    decreases records.len(),
{
    if records.len() == 0 {
        Seq::empty()
    } else if records.last().record_type == RecordType::Msg {
        chat_list(records.drop_last()).push(chat_json(records.last()))
    } else {
        chat_list(records.drop_last())
    }
}

/// The observations among records, as JSON, in order.
pub open spec fn run_list(records: Seq<RecordView>) -> Seq<JsonView>
    decreases records.len(),
{
    if records.len() == 0 {
        Seq::empty()
    } else if records.last().record_type == RecordType::Obs {
        run_list(records.drop_last()).push(run_json(records.last()))
    } else {
        run_list(records.drop_last())
    }
}

/// The text, or `otherwise`.
fn str_or<'a>(o: Option<&'a str>, otherwise: &'a str) -> (r: &'a str)
    ensures
        r@ == opt_str_view(o).unwrap_or(otherwise@),
{
    match o {
        Some(s) => s,
        None => otherwise,
    }
}

/// The messages of a payload as JSON.
pub fn payload_to_chat_json(payload: &AgentPayload) -> (r: Vec<Json>)
    ensures
        json_views(r@) == chat_list(record_views(payload.records@)),
{
    let mut out: Vec<Json> = Vec::new();
    let mut i: usize = 0;
    let ghost all = record_views(payload.records@);
    assert(json_views(out@) =~= chat_list(all.take(0)));
    while i < payload.records.len()
        invariant
            i <= payload.records@.len(),
            all == record_views(payload.records@),
            json_views(out@) == chat_list(all.take(i as int)),
        decreases payload.records@.len() - i,
    {
        assert(all.take(i + 1).drop_last() =~= all.take(i as int));
        let ghost before = json_views(out@);
        let rec = &payload.records[i];
        if rec.record_type == RecordType::Msg {
            let role = str_or(msg_role(rec), "unknown");
            let content = str_or(msg_content(rec), "");
            let item = JsonObject::new().text("role", role).text("content", content).build();
            out.push(item);
            assert(json_views(out@) =~= before.push(item@));
        }
        i = i + 1;
    }
    assert(all.take(all.len() as int) =~= all);
    out
}

/// The observations of a payload as JSON.
pub fn payload_to_run_json(payload: &AgentPayload) -> (r: Vec<Json>)
    ensures
        json_views(r@) == run_list(record_views(payload.records@)),
{
    let mut out: Vec<Json> = Vec::new();
    let mut i: usize = 0;
    let ghost all = record_views(payload.records@);
    assert(json_views(out@) =~= run_list(all.take(0)));
    while i < payload.records.len()
        invariant
            i <= payload.records@.len(),
            all == record_views(payload.records@),
            json_views(out@) == run_list(all.take(i as int)),
        decreases payload.records@.len() - i,
    {
        assert(all.take(i + 1).drop_last() =~= all.take(i as int));
        let ghost before = json_views(out@);
        let rec = &payload.records[i];
        if rec.record_type == RecordType::Obs {
            let source = str_or(obs_source(rec), "unknown");
            let content = str_or(obs_content(rec), "");
            let item = JsonObject::new().text("source", source).text("content", content).build();
            out.push(item);
            assert(json_views(out@) =~= before.push(item@));
        }
        i = i + 1;
    }
    assert(all.take(all.len() as int) =~= all);
    out
}

// ---------------------------------------------------------------------------
// Identifiers and tokens

/// The identifier made of a prefix and a number.
pub open spec fn id_text(prefix: Seq<char>, n: nat) -> Seq<char> {
    prefix + "_"@ + dec(n)
}

/// The identifier made of a prefix and a number.
pub fn gen_id_at(prefix: &str, n: u128) -> (r: String)
    ensures
        r@ == id_text(prefix@, n as nat),
{
    prefix.to_owned().concat("_").concat(u128_text(n).as_str())
}

/// Source of the numbers in identifiers. Numbers follow the time in milliseconds, and none is
/// handed out twice.
pub struct IdSource {
    next: u128,
}

impl IdSource {
    /// The lowest number that was not handed out yet: all lower ones are used up.
    pub closed spec fn free(self) -> nat {
        self.next as nat
    }

    /// The first number that is handed out at time `ms`, in Unix milliseconds.
    pub open spec fn first(self, ms: nat) -> nat {
        if self.free() < ms {
            ms
        } else {
            self.free()
        }
    }

    /// A source that has handed out nothing.
    pub fn new() -> (r: IdSource)
        ensures
            r.free() == 0,
    {
        IdSource { next: 0 }
    }

    /// Whether there are numbers left.
    pub fn has_room(&self) -> (r: bool)
        ensures
            r == (self.free() < u128::MAX),
    {
        self.next < u128::MAX
    }

    /// Hands out `n` numbers at time `ms`, in Unix milliseconds, and gives the first of them;
    /// `None`, and nothing is handed out, where they do not fit in 64 bits.
    pub fn reserve(&mut self, ms: u64, n: usize) -> (r: Option<u64>)
        ensures
            match r {
                Some(first) => first == old(self).first(ms as nat) && first + n <= u64::MAX
                    && final(self).free() == first + n,
                None => old(self).first(ms as nat) + n > u64::MAX && *final(self) == *old(self),
            },
    {
        let first: u128 = if self.next < ms as u128 {
            ms as u128
        } else {
            self.next
        };
        if first > u64::MAX as u128 || first + n as u128 > u64::MAX as u128 {
            return None;
        }
        self.next = first + n as u128;
        Some(first as u64)
    }
}

/// A new identifier: it differs from all whose numbers were handed out before. Its number follows
/// the present time.
pub fn gen_id(ids: &mut IdSource, prefix: &str) -> (r: String)
    requires
        old(ids).free() < u128::MAX,
    ensures
        exists|t: SystemTime|
            {
                let n = old(ids).first(#[trigger] millis_at(t) as nat);
                r@ == id_text(prefix@, n) && final(ids).free() == n + 1
            },
        forall|p: Seq<char>, n: nat| n < old(ids).free() ==> r@ != #[trigger] id_text(p, n),
{
    let ms: u64 = unix_millis();
    let n: u128 = if ids.next < ms as u128 {
        ms as u128
    } else {
        ids.next
    };
    ids.next = n + 1;
    let r = gen_id_at(prefix, n);
    proof {
        let t = choose|t: SystemTime| ms == #[trigger] millis_at(t);
        assert(n == old(ids).first(millis_at(t) as nat));
        assert forall|p: Seq<char>, k: nat| k < old(ids).free() implies r@ != #[trigger] id_text(
            p,
            k,
        ) by {
            if r@ == id_text(p, k) {
                ids_tell_their_numbers(prefix@, n as nat, p, k);
            }
        }
    }
    r
}

proof fn lemma_no_underscore(n: nat)
    ensures
        forall|i: int| 0 <= i < dec(n).len() ==> #[trigger] dec(n)[i] != '_',
{
    lemma_dec_value(n);
    assert forall|i: int| 0 <= i < dec(n).len() implies #[trigger] dec(n)[i] != '_' by {
        assert(is_digit(dec(n)[i]));
    }
}

/// Two identifiers are the same only where their prefixes and their numbers are.
pub proof fn ids_tell_their_numbers(p: Seq<char>, n: nat, q: Seq<char>, m: nat)
    requires
        id_text(p, n) == id_text(q, m),
    ensures
        p == q,
        n == m,
{
    reveal_strlit("_");
    let a = id_text(p, n);
    let b = id_text(q, m);
    lemma_no_underscore(n);
    lemma_no_underscore(m);
    assert("_"@.len() == 1);
    assert(a.len() == p.len() + 1 + dec(n).len());
    assert(b.len() == q.len() + 1 + dec(m).len());
    assert(a[p.len() as int] == '_');
    assert(b[q.len() as int] == '_');
    if p.len() < q.len() {
        let i = q.len() - p.len() - 1;
        assert(0 <= i < dec(n).len());
        assert(a[q.len() as int] == dec(n)[i]);
    } else if q.len() < p.len() {
        let i = p.len() - q.len() - 1;
        assert(0 <= i < dec(m).len());
        assert(b[p.len() as int] == dec(m)[i]);
    }
    assert(p =~= a.take(p.len() as int));
    assert(q =~= b.take(p.len() as int));
    assert(dec(n) =~= a.skip(p.len() as int + 1));
    assert(dec(m) =~= b.skip(p.len() as int + 1));
    lemma_dec_value(n);
    lemma_dec_value(m);
}

/// Identifiers of numbers that were handed out at different times differ, whatever their prefixes:
/// numbers below `ids.free()` were handed out before, those from `ids.first(ms)` on after.
pub proof fn ids_are_unique(
    ids: IdSource,
    ms: nat,
    p: Seq<char>,
    earlier: nat,
    q: Seq<char>,
    later: nat,
)
    requires
        earlier < ids.free(),
        ids.first(ms) <= later,
    ensures
        id_text(p, earlier) != id_text(q, later),
{
    if id_text(p, earlier) == id_text(q, later) {
        ids_tell_their_numbers(p, earlier, q, later);
    }
}

/// How many tokens a text takes.
pub uninterp spec fn token_count(text: Seq<char>) -> nat;

/// `ulmen_core::count_tokens` estimates how many tokens a text takes. Claimed: the estimate
/// depends on the text alone.
#[verifier::external_body]
fn tokens_of(text: &str) -> (r: usize)
    ensures
        r == token_count(text@),
{
    ulmen_core::count_tokens(text)
}

/// How many tokens a text takes.
pub fn count_tokens(text: &str) -> (r: usize)
    ensures
        r == token_count(text@),
{
    tokens_of(text)
}

// ---------------------------------------------------------------------------
// Run summaries

/// What the summary of a run says.
#[derive(Debug, Clone)]
pub struct RunSummary {
    pub status: String,
    pub steps: u64,
    pub tokens: u64,
    pub latency_ms: u64,
    pub tenant: Option<String>,
}

/// What the summary of a run says, as values.
pub struct SummaryView {
    pub status: Seq<char>,
    pub steps: nat,
    pub tokens: nat,
    pub latency_ms: nat,
    pub tenant: Option<Seq<char>>,
}

impl View for RunSummary {
    type V = SummaryView;

    open spec fn view(&self) -> SummaryView {
        SummaryView {
            status: self.status@,
            steps: self.steps as nat,
            tokens: self.tokens as nat,
            latency_ms: self.latency_ms as nat,
            tenant: opt_view(self.tenant),
        }
    }
}

/// A summary that says nothing.
pub open spec fn blank_summary() -> SummaryView {
    SummaryView { status: Seq::empty(), steps: 0, tokens: 0, latency_ms: 0, tenant: None }
}

impl Default for RunSummary {
    fn default() -> (r: RunSummary)
        ensures
            r@ == blank_summary(),
    {
        RunSummary { status: String::new(), steps: 0, tokens: 0, latency_ms: 0, tenant: None }
    }
}

/// The number that a text denotes; zero where it denotes none.
pub open spec fn number_or_zero(s: Seq<char>) -> nat {
    parse_unsigned(s, u64::MAX as nat).unwrap_or(0)
}

/// The summary `s` with what one word `key=value` says; a word that says nothing known is passed
/// over.
pub open spec fn with_word(s: SummaryView, word: Seq<char>) -> SummaryView {
    match cut(word, '=') {
        Some((k, v)) => if k == "status"@ {
            SummaryView { status: v, ..s }
        } else if k == "steps"@ {
            SummaryView { steps: number_or_zero(v), ..s }
        } else if k == "tokens"@ {
            SummaryView { tokens: number_or_zero(v), ..s }
        } else if k == "latency"@ {
            SummaryView { latency_ms: number_or_zero(trim_suffix(v, "ms"@)), ..s }
        } else if k == "tenant"@ {
            SummaryView { tenant: Some(v), ..s }
        } else {
            s
        },
        None => s,
    }
}

/// What the words of a summary say together; of two with one name the later counts.
pub open spec fn summary_of(ws: Seq<Seq<char>>) -> SummaryView
    decreases ws.len(),
{
    if ws.len() == 0 {
        blank_summary()
    } else {
        with_word(summary_of(ws.drop_last()), ws.last())
    }
}

/// The number that a text denotes; zero where it denotes none.
fn parse_or_zero(s: &str) -> (r: u64)
    ensures
        r == number_or_zero(s@),
{
    match parse_u64(s, u64::MAX) {
        Some(n) => n,
        None => 0,
    }
}

/// Reads the summary of a run, of the form `status=X steps=Y tokens=Z latency=Nms tenant=T`.
pub fn parse_run_summary(content: &str) -> (r: RunSummary)
    ensures
        r@ == summary_of(words(content@)),
{
    let mut summary = RunSummary {
        status: String::new(),
        steps: 0,
        tokens: 0,
        latency_ms: 0,
        tenant: None,
    };
    let parts = split_words(content);
    let ghost all = str_views(parts@);
    let mut i: usize = 0;
    assert(all.take(0) =~= Seq::<Seq<char>>::empty());
    while i < parts.len()
        invariant
            i <= parts@.len(),
            all == str_views(parts@),
            summary@ == summary_of(all.take(i as int)),
        decreases parts@.len() - i,
    {
        assert(all.take(i + 1).drop_last() =~= all.take(i as int));
        assert(all.take(i + 1).last() == parts@[i as int]@);
        match cut_at(parts[i], '=') {
            Some((k, v)) => {
                if str_eq(k, "status") {
                    summary.status = v.to_owned();
                } else if str_eq(k, "steps") {
                    summary.steps = parse_or_zero(v);
                } else if str_eq(k, "tokens") {
                    summary.tokens = parse_or_zero(v);
                } else if str_eq(k, "latency") {
                    summary.latency_ms = parse_or_zero(trim_end_str(v, "ms"));
                } else if str_eq(k, "tenant") {
                    summary.tenant = Some(v.to_owned());
                }
            },
            None => {},
        }
        i = i + 1;
    }
    assert(all.take(all.len() as int) =~= all);
    summary
}

/// The summary of a run, with the tenant where there is one.
pub open spec fn summary_text(s: SummaryView) -> Seq<char> {
    let base = "status="@ + s.status + " steps="@ + dec(s.steps) + " tokens="@ + dec(s.tokens)
        + " latency="@ + dec(s.latency_ms) + "ms"@;
    match s.tenant {
        Some(t) => base + " tenant="@ + t,
        None => base,
    }
}

/// Writes the summary of a run.
pub fn format_run_summary(s: &RunSummary) -> (r: String)
    ensures
        r@ == summary_text(s@),
{
    let base = "status=".to_owned().concat(s.status.as_str()).concat(" steps=").concat(
        u64_text(s.steps).as_str(),
    ).concat(" tokens=").concat(u64_text(s.tokens).as_str()).concat(" latency=").concat(
        u64_text(s.latency_ms).as_str(),
    ).concat("ms");
    match &s.tenant {
        Some(t) => base.concat(" tenant=").concat(t.as_str()),
        None => base,
    }
}

} // verus!
