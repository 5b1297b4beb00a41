//! Turns the raw documents of a log store into canonical `LogEntry` records.
//! A document that cannot take the canonical shape is dropped.
use vstd::prelude::*;
use crate::json::{JsonValue, lookup, as_text, find_member};
use crate::models::{LogEntry, opt_view};

verus! {

/// The log stores the library can search.
#[derive(PartialEq, Eq, Structural, Clone, Copy, Debug)]
pub enum Backend {
    Elastic,
    OpenObserve,
}

/// The store's own name for the timestamp member.
pub open spec fn timestamp_alias(b: Backend) -> Seq<char> {
    match b {
        Backend::Elastic => "@timestamp"@,
        Backend::OpenObserve => "_timestamp"@,
    }
}

/// The members that the canonical record holds in fields of its own.
pub open spec fn is_canonical_key(k: Seq<char>) -> bool {
    k == "timestamp"@ || k == "level"@ || k == "message"@ || k == "service"@ || k == "trace_id"@
}

/// The timestamp member, or the store's own one where it is missing.
pub open spec fn stamp_member(m: Seq<(String, JsonValue)>, b: Backend) -> Option<JsonValue> {
    if lookup(m, "timestamp"@) is Some {
        lookup(m, "timestamp"@)
    } else {
        lookup(m, timestamp_alias(b))
    }
}

/// The message member, else `log`, else `msg`.
pub open spec fn message_member(m: Seq<(String, JsonValue)>) -> Option<JsonValue> {
    if lookup(m, "message"@) is Some {
        lookup(m, "message"@)
    } else if lookup(m, "log"@) is Some {
        lookup(m, "log"@)
    } else {
        lookup(m, "msg"@)
    }
}

/// A timestamp's text: a string as it is, a number in its textual form
/// (stores such as OpenObserve write epoch microseconds).
pub open spec fn stamp_text(v: Option<JsonValue>) -> Option<Seq<char>> {
    match v {
        Some(JsonValue::Text(s)) => Some(s@),
        Some(JsonValue::Number(n)) => Some(n@),
        _ => None,
    }
}

/// Absent, null or a string.
pub open spec fn optional_text_ok(v: Option<JsonValue>) -> bool {
    match v {
        None => true,
        Some(JsonValue::Null) => true,
        Some(JsonValue::Text(_)) => true,
        _ => false,
    }
}

/// A member that is absent or a string, read with a default.
pub open spec fn text_or(v: Option<JsonValue>, default: Seq<char>) -> Seq<char> {
    match v {
        Some(JsonValue::Text(s)) => s@,
        _ => default,
    }
}

/// The members that are not canonical, in their order.
pub open spec fn extra_fields(m: Seq<(String, JsonValue)>) -> Seq<(String, JsonValue)>
    decreases m.len(),
{
    if m.len() == 0 {
        m
    } else if is_canonical_key(m.last().0@) {
        extra_fields(m.drop_last())
    } else {
        extra_fields(m.drop_last()).push(m.last())
    }
}

/// Whether an object's members take the canonical shape: a timestamp (or
/// store timestamp) that is a string or a number, a level and a message that are strings where
/// present, and a service and a trace id that are strings or null where
/// present.
pub open spec fn members_normalizable(m: Seq<(String, JsonValue)>, b: Backend) -> bool {
    &&& stamp_text(stamp_member(m, b)) is Some
    &&& (lookup(m, "level"@) is None || as_text(lookup(m, "level"@)) is Some)
    &&& (message_member(m) is None || as_text(message_member(m)) is Some)
    &&& optional_text_ok(lookup(m, "service"@))
    &&& optional_text_ok(lookup(m, "trace_id"@))
}

/// Whether a document is kept.
pub open spec fn normalizable(doc: JsonValue, b: Backend) -> bool {
    match doc {
        JsonValue::Object(m) => members_normalizable(m@, b),
        _ => false,
    }
}

/// `e` is the canonical record of the object with members `m`: the level
/// defaults to `INFO`, the message to the empty string.
pub open spec fn entry_of(e: LogEntry, m: Seq<(String, JsonValue)>, b: Backend) -> bool {
    &&& e.timestamp@ == stamp_text(stamp_member(m, b)).unwrap()
    &&& e.level@ == text_or(lookup(m, "level"@), "INFO"@)
    &&& e.message@ == text_or(message_member(m), Seq::empty())
    &&& opt_view(e.service) == as_text(lookup(m, "service"@))
    &&& opt_view(e.trace_id) == as_text(lookup(m, "trace_id"@))
    &&& e.fields@ == extra_fields(m)
}

fn member_ref<'a>(m: &'a Vec<(String, JsonValue)>, key: &str) -> (r: Option<&'a JsonValue>)
    ensures
        match r {
            Some(x) => lookup(m@, key@) == Some(*x),
            None => lookup(m@, key@) is None,
        },
{
    match find_member(m, key) {
        Some(i) => Some(&m[i].1),
        None => None,
    }
}

fn text_copy(v: Option<&JsonValue>) -> (r: Option<String>)
    ensures
        opt_view(r) == as_text(match v { Some(x) => Some(*x), None => None }),
{
    match v {
        Some(JsonValue::Text(s)) => Some(s.clone()),
        _ => None,
    }
}

fn is_canonical(k: &str) -> (r: bool)
    ensures
        r == is_canonical_key(k@),
{
    crate::text::text_eq(k, "timestamp") || crate::text::text_eq(k, "level") || crate::text::text_eq(k, "message")
        || crate::text::text_eq(k, "service") || crate::text::text_eq(k, "trace_id")
}

fn take_extra_fields(m: Vec<(String, JsonValue)>) -> (r: Vec<(String, JsonValue)>)
    ensures
        r@ == extra_fields(m@),
{
    let ghost all = m@;
    let n = m.len();
    let mut rest = m;
    let mut out: Vec<(String, JsonValue)> = Vec::new();
    let mut i: usize = 0;
    proof {
        assert(all.subrange(0, 0) =~= Seq::<(String, JsonValue)>::empty());
        assert(all.subrange(0, n as int) =~= all);
    }
    while i < n
        invariant
            n == all.len(),
            i <= n,
            rest@ == all.subrange(i as int, n as int),
            out@ == extra_fields(all.subrange(0, i as int)),
        decreases n - i,
    {
        let item = rest.remove(0);
        proof {
            assert(item == all[i as int]);
            let pre = all.subrange(0, i + 1);
            assert(pre.drop_last() =~= all.subrange(0, i as int));
            assert(pre.last() == all[i as int]);
            assert(rest@ =~= all.subrange(i + 1, n as int));
        }
        if !is_canonical(item.0.as_str()) {
            out.push(item);
        }
        i = i + 1;
    }
    proof {
        assert(all.subrange(0, n as int) =~= all);
    }
    out
}

/// The canonical record of a raw document, or `None` where the document
/// cannot take the canonical shape.
pub fn normalize_document(doc: JsonValue, backend: Backend) -> (r: Option<LogEntry>)
    ensures
        r is Some <==> normalizable(doc, backend),
        match (r, doc) {
            (Some(e), JsonValue::Object(m)) => entry_of(e, m@, backend),
            _ => true,
        },
{
    match doc {
        JsonValue::Object(m) => {
            let stamp = match member_ref(&m, "timestamp") {
                Some(x) => Some(x),
                None => member_ref(&m, match backend {
                    Backend::Elastic => "@timestamp",
                    Backend::OpenObserve => "_timestamp",
                }),
            };
            let timestamp = match stamp {
                Some(JsonValue::Text(t)) => t.clone(),
                Some(JsonValue::Number(t)) => t.clone(),
                _ => return None,
            };
            let level_member = member_ref(&m, "level");
            let level = match level_member {
                None => String::from_str("INFO"),
                Some(_) => match text_copy(level_member) {
                    Some(t) => t,
                    None => return None,
                },
            };
            let message_ref = match member_ref(&m, "message") {
                Some(x) => Some(x),
                None => match member_ref(&m, "log") {
                    Some(x) => Some(x),
                    None => member_ref(&m, "msg"),
                },
            };
            let message = match message_ref {
                None => String::new(),
                Some(_) => match text_copy(message_ref) {
                    Some(t) => t,
                    None => return None,
                },
            };
            let service_ref = member_ref(&m, "service");
            let service = match service_ref {
                None => None,
                Some(JsonValue::Null) => None,
                Some(JsonValue::Text(s)) => Some(s.clone()),
                Some(_) => return None,
            };
            let trace_ref = member_ref(&m, "trace_id");
            let trace_id = match trace_ref {
                None => None,
                Some(JsonValue::Null) => None,
                Some(JsonValue::Text(s)) => Some(s.clone()),
                Some(_) => return None,
            };
            proof {
                reveal_strlit("INFO");
            }
            let fields = take_extra_fields(m);
            Some(LogEntry { timestamp, level, message, service, trace_id, fields })
        },
        _ => None,
    }
}

/// The members of an object; empty for any other value.
pub open spec fn object_members(v: JsonValue) -> Seq<(String, JsonValue)> {
    match v {
        JsonValue::Object(m) => m@,
        _ => Seq::empty(),
    }
}

/// The documents that are kept, in their order.
pub open spec fn kept_documents(docs: Seq<JsonValue>, b: Backend) -> Seq<JsonValue>
    decreases docs.len(),
{
    if docs.len() == 0 {
        docs
    } else if normalizable(docs.last(), b) {
        kept_documents(docs.drop_last(), b).push(docs.last())
    } else {
        kept_documents(docs.drop_last(), b)
    }
}

/// The canonical records of the documents that take the canonical shape, in
/// their order; the others are dropped.
pub fn normalize_documents(docs: Vec<JsonValue>, backend: Backend) -> (r: Vec<LogEntry>)
    ensures
        r@.len() == kept_documents(docs@, backend).len(),
        forall|j: int| 0 <= j < r@.len()
            ==> entry_of(#[trigger] r@[j], object_members(kept_documents(docs@, backend)[j]), backend),
{
    let ghost all = docs@;
    let n = docs.len();
    let mut rest = docs;
    let mut out: Vec<LogEntry> = Vec::new();
    let mut i: usize = 0;
    proof {
        assert(all.subrange(0, 0) =~= Seq::<JsonValue>::empty());
    }
    while i < n
        invariant
            n == all.len(),
            i <= n,
            rest@ == all.subrange(i as int, n as int),
            out@.len() == kept_documents(all.subrange(0, i as int), backend).len(),
            forall|j: int| 0 <= j < out@.len()
                ==> entry_of(#[trigger] out@[j], object_members(kept_documents(all.subrange(0, i as int), backend)[j]), backend),
        decreases n - i,
    {
        let doc = rest.remove(0);
        let ghost pre = all.subrange(0, i + 1);
        let ghost old_out = out@;
        proof {
            assert(doc == all[i as int]);
            assert(pre.drop_last() =~= all.subrange(0, i as int));
            assert(pre.last() == all[i as int]);
            assert(rest@ =~= all.subrange(i + 1, n as int));
        }
        let ghost d = doc;
        match normalize_document(doc, backend) {
            Some(e) => {
                out.push(e);
                proof {
                    let k = kept_documents(pre, backend);
                    assert(k == kept_documents(all.subrange(0, i as int), backend).push(d));
                    assert forall|j: int| 0 <= j < out@.len()
                        implies entry_of(#[trigger] out@[j], object_members(k[j]), backend) by {
                        if j < old_out.len() {
                            assert(out@[j] == old_out[j]);
                        }
                    }
                }
            },
            None => {},
        }
        i = i + 1;
    }
    proof {
        assert(all.subrange(0, n as int) =~= all);
    }
    out
}

/// A document that cannot take the canonical shape is dropped, never a
/// failure: what is kept is no longer than the input, holds only documents
/// that take the shape, and is the whole input when every document does.
pub proof fn lemma_kept_documents(docs: Seq<JsonValue>, b: Backend)
    ensures
        kept_documents(docs, b).len() <= docs.len(),
        forall|j: int| 0 <= j < kept_documents(docs, b).len() ==> normalizable(#[trigger] kept_documents(docs, b)[j], b),
        (forall|i: int| 0 <= i < docs.len() ==> normalizable(#[trigger] docs[i], b)) ==> kept_documents(docs, b) == docs,
    decreases docs.len(),
{
    if docs.len() > 0 {
        let pre = docs.drop_last();
        lemma_kept_documents(pre, b);
        let k = kept_documents(docs, b);
        assert forall|j: int| 0 <= j < k.len() implies normalizable(#[trigger] k[j], b) by {
            if j < kept_documents(pre, b).len() {
                assert(k[j] == kept_documents(pre, b)[j]);
            }
        }
        if forall|i: int| 0 <= i < docs.len() ==> normalizable(#[trigger] docs[i], b) {
            assert forall|i: int| 0 <= i < pre.len() implies normalizable(#[trigger] pre[i], b) by {
                assert(pre[i] == docs[i]);
            }
            assert(normalizable(docs[docs.len() - 1], b));
            assert(k =~= docs);
        }
    }
}

} // verus!

