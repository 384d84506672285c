//! What is written into records and summaries is what is read from them.

use vstd::prelude::*;

use crate::bridge::{
    blank_summary, chat_json, chat_list, msg_view, no_meta, obs_view, run_json, run_list, summary_of,
    summary_text, with_word, FieldView, RecordType, RecordView, SummaryView,
};
use crate::json::JsonView;
use crate::text::{
    cut, dec, ends, has_char, is_digit, is_white, lemma_cut_join, lemma_dec_value,
    lemma_parse_dec, lemma_word_len, parse_unsigned, trim_suffix, words,
};

verus! {

/// The role and the content of a message are read back as they were written.
pub proof fn message_round_trip(
    id: Seq<char>,
    thread_id: Seq<char>,
    step: i64,
    role: Seq<char>,
    content: Seq<char>,
    tokens: i64,
)
    ensures
        ({
            let rec = msg_view(id, thread_id, step, role, content, tokens);
            &&& rec.text_field(RecordType::Msg, 0) == Some(role)
            &&& rec.text_field(RecordType::Msg, 2) == Some(content)
            &&& rec.text_field(RecordType::Obs, 0) is None
            &&& rec.text_field(RecordType::Obs, 1) is None
        }),
{
}

/// The source and the content of an observation are read back as they were written.
pub proof fn observation_round_trip(
    id: Seq<char>,
    thread_id: Seq<char>,
    step: i64,
    source: Seq<char>,
    content: Seq<char>,
    confidence: u64,
)
    ensures
        ({
            let rec = obs_view(id, thread_id, step, source, content, confidence);
            &&& rec.text_field(RecordType::Obs, 0) == Some(source)
            &&& rec.text_field(RecordType::Obs, 1) == Some(content)
            &&& rec.text_field(RecordType::Msg, 0) is None
            &&& rec.text_field(RecordType::Msg, 2) is None
        }),
{
}

/// Whether no character of `s` is white space.
pub open spec fn unbroken(s: Seq<char>) -> bool {
    forall|i: int| 0 <= i < s.len() ==> !is_white(#[trigger] s[i])
}

proof fn lemma_one_word(w: Seq<char>)
    requires
        unbroken(w),
        w.len() > 0,
    ensures
        words(w) == seq![w],
{
    lemma_word_len(w, w.len() as int);
    assert(w.take(w.len() as int) =~= w);
    assert(words(w.skip(w.len() as int)) =~= Seq::empty());
    assert(seq![w] + Seq::<Seq<char>>::empty() =~= seq![w]);
}

proof fn lemma_first_word(w: Seq<char>, rest: Seq<char>)
    requires
        unbroken(w),
        w.len() > 0,
    ensures
        words(w + seq![' '] + rest) == seq![w] + words(rest),
{
    let s = w + seq![' '] + rest;
    assert forall|j: int| 0 <= j < w.len() implies !is_white(s[j]) by {
        assert(s[j] == w[j]);
    }
    lemma_word_len(s, w.len() as int);
    assert(s.take(w.len() as int) =~= w);
    let t = s.skip(w.len() as int);
    assert(t[0] == ' ');
    lemma_word_len(t, 0);
    assert(t.skip(1) =~= rest);
    assert(words(t) == words(t.skip(1)));
}

proof fn lemma_numeral_unbroken(n: nat)
    ensures
        unbroken(dec(n)),
        dec(n).len() > 0,
        !has_char(dec(n), '='),
{
    lemma_dec_value(n);
    assert forall|i: int| 0 <= i < dec(n).len() implies !is_white(#[trigger] dec(n)[i]) by {
        assert(is_digit(dec(n)[i]));
    }
    if has_char(dec(n), '=') {
        let i = choose|i: int| 0 <= i < dec(n).len() && dec(n)[i] == '=';
        assert(is_digit(dec(n)[i]));
    }
}

proof fn lemma_trim_ms(n: nat)
    ensures
        trim_suffix(dec(n) + "ms"@, "ms"@) == dec(n),
{
    reveal_strlit("ms");
    lemma_dec_value(n);
    let s = dec(n) + "ms"@;
    assert(s.skip(s.len() - 2) =~= "ms"@);
    assert(s.take(s.len() - 2) =~= dec(n));
    let d = dec(n);
    if ends(d, "ms"@) {
        assert(d.skip(d.len() - 2)[1] == d[d.len() - 1]);
        assert(is_digit(d[d.len() - 1]));
    }
    assert(trim_suffix(d, "ms"@) == d);
}

proof fn lemma_keys()
    ensures
        !has_char("status"@, '='),
        !has_char("steps"@, '='),
        !has_char("tokens"@, '='),
        !has_char("latency"@, '='),
        !has_char("tenant"@, '='),
        "status"@ != "steps"@,
        "status"@ != "tokens"@,
        "status"@ != "latency"@,
        "status"@ != "tenant"@,
        "steps"@ != "tokens"@,
        "steps"@ != "latency"@,
        "steps"@ != "tenant"@,
        "tokens"@ != "latency"@,
        "tokens"@ != "tenant"@,
        "latency"@ != "tenant"@,
{
    reveal_strlit("status");
    reveal_strlit("steps");
    reveal_strlit("tokens");
    reveal_strlit("latency");
    reveal_strlit("tenant");
    assert("status"@[0] == 's' && "tokens"@[0] == 't' && "tenant"@[0] == 't');
    assert("tokens"@[1] == 'o' && "tenant"@[1] == 'e');
}

proof fn lemma_word_parts(k: Seq<char>, v: Seq<char>)
    requires
        !has_char(k, '='),
    ensures
        cut(k + seq!['='] + v, '=') == Some((k, v)),
{
    lemma_cut_join(k, '=', v);
}

/// The words of a summary's text.
spec fn summary_words(s: SummaryView) -> Seq<Seq<char>> {
    let base = seq![
        "status"@ + seq!['='] + s.status,
        "steps"@ + seq!['='] + dec(s.steps),
        "tokens"@ + seq!['='] + dec(s.tokens),
        "latency"@ + seq!['='] + (dec(s.latency_ms) + "ms"@),
    ];
    match s.tenant {
        Some(t) => base.push("tenant"@ + seq!['='] + t),
        None => base,
    }
}

proof fn lemma_unbroken_word(k: Seq<char>, v: Seq<char>)
    requires
        unbroken(k),
        unbroken(v),
    ensures
        unbroken(k + seq!['='] + v),
        (k + seq!['='] + v).len() > 0,
{
    let w = k + seq!['='] + v;
    assert forall|i: int| 0 <= i < w.len() implies !is_white(#[trigger] w[i]) by {
        if i < k.len() {
            assert(w[i] == k[i]);
        } else if i > k.len() {
            assert(w[i] == v[i - k.len() - 1]);
        }
    }
}

proof fn lemma_summary_words(s: SummaryView)
    requires
        unbroken(s.status),
        s.tenant matches Some(t) ==> unbroken(t),
    ensures
        words(summary_text(s)) == summary_words(s),
{
    reveal_strlit("status");
    reveal_strlit("steps");
    reveal_strlit("tokens");
    reveal_strlit("latency");
    reveal_strlit("tenant");
    reveal_strlit("status=");
    reveal_strlit(" steps=");
    reveal_strlit(" tokens=");
    reveal_strlit(" latency=");
    reveal_strlit(" tenant=");
    reveal_strlit("ms");
    let w1 = "status"@ + seq!['='] + s.status;
    let w2 = "steps"@ + seq!['='] + dec(s.steps);
    let w3 = "tokens"@ + seq!['='] + dec(s.tokens);
    let ms = dec(s.latency_ms) + "ms"@;
    let w4 = "latency"@ + seq!['='] + ms;
    lemma_numeral_unbroken(s.steps);
    lemma_numeral_unbroken(s.tokens);
    lemma_numeral_unbroken(s.latency_ms);
    assert forall|i: int| 0 <= i < ms.len() implies !is_white(#[trigger] ms[i]) by {
        if i < dec(s.latency_ms).len() {
            assert(ms[i] == dec(s.latency_ms)[i]);
        }
    }
    lemma_unbroken_word("status"@, s.status);
    lemma_unbroken_word("steps"@, dec(s.steps));
    lemma_unbroken_word("tokens"@, dec(s.tokens));
    lemma_unbroken_word("latency"@, ms);
    let sp = seq![' '];
    assert("status="@ =~= "status"@ + seq!['=']);
    assert(" steps="@ =~= sp + "steps"@ + seq!['=']);
    assert(" tokens="@ =~= sp + "tokens"@ + seq!['=']);
    assert(" latency="@ =~= sp + "latency"@ + seq!['=']);
    assert(" tenant="@ =~= sp + "tenant"@ + seq!['=']);
    let base = "status="@ + s.status + " steps="@ + dec(s.steps) + " tokens="@ + dec(s.tokens)
        + " latency="@ + dec(s.latency_ms) + "ms"@;
    match s.tenant {
        None => {
            assert(base =~= w1 + sp + (w2 + sp + (w3 + sp + w4)));
            lemma_one_word(w4);
            lemma_first_word(w3, w4);
            lemma_first_word(w2, w3 + sp + w4);
            lemma_first_word(w1, w2 + sp + (w3 + sp + w4));
            assert(words(base) =~= summary_words(s));
        },
        Some(t) => {
            let w5 = "tenant"@ + seq!['='] + t;
            lemma_unbroken_word("tenant"@, t);
            assert(base + " tenant="@ + t =~= w1 + sp + (w2 + sp + (w3 + sp + (w4 + sp + w5))));
            lemma_one_word(w5);
            lemma_first_word(w4, w5);
            lemma_first_word(w3, w4 + sp + w5);
            lemma_first_word(w2, w3 + sp + (w4 + sp + w5));
            lemma_first_word(w1, w2 + sp + (w3 + sp + (w4 + sp + w5)));
            assert(words(summary_text(s)) =~= summary_words(s));
        },
    }
}

/// Reading the summary that was written for a run gives back what was put in, for every status
/// and tenant name without white space.
pub proof fn summary_round_trip(s: SummaryView)
    requires
        unbroken(s.status),
        s.tenant matches Some(t) ==> unbroken(t),
        s.steps <= u64::MAX,
        s.tokens <= u64::MAX,
        s.latency_ms <= u64::MAX,
    ensures
        summary_of(words(summary_text(s))) == s,
{
    lemma_summary_words(s);
    lemma_keys();
    let ms = dec(s.latency_ms) + "ms"@;
    lemma_word_parts("status"@, s.status);
    lemma_word_parts("steps"@, dec(s.steps));
    lemma_word_parts("tokens"@, dec(s.tokens));
    lemma_word_parts("latency"@, ms);
    lemma_trim_ms(s.latency_ms);
    lemma_parse_dec(s.steps, u64::MAX as nat);
    lemma_parse_dec(s.tokens, u64::MAX as nat);
    lemma_parse_dec(s.latency_ms, u64::MAX as nat);
    let w1 = "status"@ + seq!['='] + s.status;
    let w2 = "steps"@ + seq!['='] + dec(s.steps);
    let w3 = "tokens"@ + seq!['='] + dec(s.tokens);
    let w4 = "latency"@ + seq!['='] + ms;
    let base = seq![w1, w2, w3, w4];
    let b0 = Seq::<Seq<char>>::empty();
    let b1 = b0.push(w1);
    let b2 = b1.push(w2);
    let b3 = b2.push(w3);
    assert(b1.drop_last() =~= b0);
    assert(b2.drop_last() =~= b1);
    assert(b3.drop_last() =~= b2);
    assert(base.drop_last() =~= b3);
    assert(base.last() == w4);
    assert(summary_of(b0) == blank_summary());
    assert(summary_of(b1) == with_word(blank_summary(), w1));
    assert(summary_of(b2) == with_word(summary_of(b1), w2));
    assert(summary_of(b3) == with_word(summary_of(b2), w3));
    assert(summary_of(base) == with_word(summary_of(b3), w4));
    match s.tenant {
        None => {},
        Some(t) => {
            let w5 = "tenant"@ + seq!['='] + t;
            lemma_word_parts("tenant"@, t);
            assert(base.push(w5).drop_last() =~= base);
        },
    }
}

/// A record keeps the identifier, the thread and the step it was built with, and the other numbers
/// of a message or an observation beside its texts.
pub proof fn records_keep_their_place(
    id: Seq<char>,
    thread_id: Seq<char>,
    step: i64,
    text: Seq<char>,
    content: Seq<char>,
    tokens: i64,
    confidence: u64,
)
    ensures
        ({
            let rec = msg_view(id, thread_id, step, text, content, tokens);
            &&& rec.id == id && rec.thread_id == thread_id && rec.step == step
            &&& rec.record_type == RecordType::Msg && rec.meta == no_meta()
            &&& rec.fields.len() == 5
            &&& rec.fields[1] == FieldView::Int(step) && rec.fields[3] == FieldView::Int(tokens)
            &&& rec.fields[4] == FieldView::Bool(false)
        }),
        ({
            let rec = obs_view(id, thread_id, step, text, content, confidence);
            &&& rec.id == id && rec.thread_id == thread_id && rec.step == step
            &&& rec.record_type == RecordType::Obs && rec.meta == no_meta()
            &&& rec.fields.len() == 3
            &&& rec.fields[2] == FieldView::Float(confidence)
        }),
{
}

/// The messages of two payloads one after the other are those of the first and then those of the
/// second, and the same holds of observations; a record of one kind is not listed as the other.
pub proof fn records_are_listed_by_kind(a: Seq<RecordView>, b: Seq<RecordView>, rec: RecordView)
    ensures
        chat_list(a + b) == chat_list(a) + chat_list(b),
        run_list(a + b) == run_list(a) + run_list(b),
        chat_list(seq![rec]) == (if rec.record_type == RecordType::Msg {
            seq![chat_json(rec)]
        } else {
            Seq::empty()
        }),
        run_list(seq![rec]) == (if rec.record_type == RecordType::Obs {
            seq![run_json(rec)]
        } else {
            Seq::empty()
        }),
    decreases b.len(),
{
    let one = seq![rec];
    assert(one.drop_last() =~= Seq::<RecordView>::empty());
    assert(chat_list(one.drop_last()) == Seq::<JsonView>::empty());
    assert(run_list(one.drop_last()) == Seq::<JsonView>::empty());
    assert(one.last() == rec);
    if rec.record_type == RecordType::Msg {
        assert(chat_list(one) =~= seq![chat_json(rec)]);
    }
    if rec.record_type == RecordType::Obs {
        assert(run_list(one) =~= seq![run_json(rec)]);
    }
    if b.len() == 0 {
        assert(a + b =~= a);
        assert(chat_list(a) + chat_list(b) =~= chat_list(a));
        assert(run_list(a) + run_list(b) =~= run_list(a));
    } else {
        records_are_listed_by_kind(a, b.drop_last(), rec);
        assert((a + b).drop_last() =~= a + b.drop_last());
        assert(chat_list(a + b) =~= chat_list(a) + chat_list(b));
        assert(run_list(a + b) =~= run_list(a) + run_list(b));
    }
}

/// A listed message tells its role and its content, and a listed observation its source and its
/// content, as they were written.
pub proof fn listed_records_tell_their_texts(
    id: Seq<char>,
    thread_id: Seq<char>,
    step: i64,
    text: Seq<char>,
    content: Seq<char>,
    tokens: i64,
    confidence: u64,
)
    ensures
        ({
            let j = chat_json(msg_view(id, thread_id, step, text, content, tokens));
            j.member("role"@) == JsonView::Str(text) && j.member("content"@) == JsonView::Str(content)
        }),
        ({
            let j = run_json(obs_view(id, thread_id, step, text, content, confidence));
            j.member("source"@) == JsonView::Str(text) && j.member("content"@) == JsonView::Str(
                content,
            )
        }),
{
    reveal_strlit("role");
    reveal_strlit("content");
    reveal_strlit("source");
    assert("role"@.len() == 4 && "content"@.len() == 7 && "source"@.len() == 6);
    message_round_trip(id, thread_id, step, text, content, tokens);
    observation_round_trip(id, thread_id, step, text, content, confidence);
}

/// One word of a summary sets what it names and nothing else; a word of another name, or without an
/// equals sign, sets nothing.
pub proof fn words_set_what_they_name(s: SummaryView, v: Seq<char>, n: u64, name: Seq<char>)
    requires
        !has_char(name, '='),
        name != "status"@ && name != "steps"@ && name != "tokens"@ && name != "latency"@ && name
            != "tenant"@,
    ensures
        with_word(s, "status"@ + seq!['='] + v) == (SummaryView { status: v, ..s }),
        with_word(s, "steps"@ + seq!['='] + dec(n as nat)) == (SummaryView { steps: n as nat, ..s }),
        with_word(s, "tokens"@ + seq!['='] + dec(n as nat)) == (SummaryView {
            tokens: n as nat,
            ..s
        }),
        with_word(s, "latency"@ + seq!['='] + (dec(n as nat) + "ms"@)) == (SummaryView {
            latency_ms: n as nat,
            ..s
        }),
        with_word(s, "tenant"@ + seq!['='] + v) == (SummaryView { tenant: Some(v), ..s }),
        with_word(s, name + seq!['='] + v) == s,
        with_word(s, name) == s,
{
    lemma_keys();
    lemma_word_parts("status"@, v);
    lemma_word_parts("steps"@, dec(n as nat));
    lemma_word_parts("tokens"@, dec(n as nat));
    lemma_word_parts("latency"@, dec(n as nat) + "ms"@);
    lemma_word_parts("tenant"@, v);
    lemma_trim_ms(n as nat);
    lemma_parse_dec(n as nat, u64::MAX as nat);
    lemma_cut_join(name, '=', v);
    crate::text::lemma_first_index(name, '=');
    let i = crate::text::first_index(name, '=');
    if i < name.len() {
        assert(name[i] == '=');
    }
}

/// A summary without words says nothing: no status, no tenant, and zero for every figure. A figure
/// that is no number counts as zero.
pub proof fn unsaid_figures_are_zero(s: SummaryView, v: Seq<char>)
    requires
        parse_unsigned(v, u64::MAX as nat) is None,
    ensures
        ({
            let blank = summary_of(Seq::empty());
            &&& blank.status.len() == 0 && blank.tenant is None
            &&& blank.steps == 0 && blank.tokens == 0 && blank.latency_ms == 0
        }),
        with_word(s, "steps"@ + seq!['='] + v) == (SummaryView { steps: 0, ..s }),
        with_word(s, "tokens"@ + seq!['='] + v) == (SummaryView { tokens: 0, ..s }),
{
    lemma_keys();
    lemma_word_parts("steps"@, v);
    lemma_word_parts("tokens"@, v);
}

} // verus!
