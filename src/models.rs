//! The canonical data model shared by the compilers, the normalizer and the
//! debugging pipeline, and the request and response records around them.
use vstd::prelude::*;
use crate::json::JsonValue;
use crate::text::text_eq;

verus! {

/// A filter list seen as pairs of character sequences, in order.
pub open spec fn filters_view(f: Seq<(String, String)>) -> Seq<(Seq<char>, Seq<char>)> {
    f.map_values(|p: (String, String)| (p.0@, p.1@))
}

/// No key occurs twice.
pub open spec fn keys_unique(f: Seq<(Seq<char>, Seq<char>)>) -> bool {
    forall|i: int, j: int| 0 <= i < j < f.len() ==> f[i].0 != f[j].0
}

/// The value that `f` holds for `k`, if any.
pub open spec fn filter_value(f: Seq<(Seq<char>, Seq<char>)>, k: Seq<char>) -> Option<Seq<char>>
    decreases f.len(),
{
    if f.len() == 0 {
        None
    } else if f[0].0 == k {
        Some(f[0].1)
    } else {
        filter_value(f.skip(1), k)
    }
}

/// `f` with `k` mapped to `v`: the entry for `k` is overwritten in place, or
/// appended when there is none.
pub open spec fn with_filter(f: Seq<(Seq<char>, Seq<char>)>, k: Seq<char>, v: Seq<char>) -> Seq<(Seq<char>, Seq<char>)>
    decreases f.len(),
{
    if f.len() == 0 {
        seq![(k, v)]
    } else if f[0].0 == k {
        f.update(0, (k, v))
    } else {
        seq![f[0]] + with_filter(f.skip(1), k, v)
    }
}

/// Structured search intent: keywords, an optional relative time window,
/// exact-match filters and a result cap.
pub struct SearchParams {
    pub query: String,
    pub time_range: Option<String>,
    pub filters: Vec<(String, String)>,
    pub size: usize,
}

impl SearchParams {
    /// The result cap is positive and each filter key occurs once.
    pub open spec fn wf(&self) -> bool {
        self.size > 0 && keys_unique(filters_view(self.filters@))
    }
}

/// An optional string seen as an optional character sequence.
pub open spec fn opt_view(o: Option<String>) -> Option<Seq<char>> {
    match o {
        Some(s) => Some(s@),
        None => None,
    }
}

proof fn lemma_with_filter_first(f: Seq<(Seq<char>, Seq<char>)>, k: Seq<char>, v: Seq<char>, i: int)
    requires
        0 <= i <= f.len(),
        forall|j: int| 0 <= j < i ==> f[j].0 != k,
    ensures
        i < f.len() && f[i].0 == k ==> with_filter(f, k, v) == f.update(i, (k, v)),
        i == f.len() ==> with_filter(f, k, v) == f.push((k, v)),
    decreases i,
{
    if i > 0 {
        lemma_with_filter_first(f.skip(1), k, v, i - 1);
        if i < f.len() && f[i].0 == k {
            assert(seq![f[0]] + f.skip(1).update(i - 1, (k, v)) =~= f.update(i, (k, v)));
        }
        if i == f.len() {
            assert(seq![f[0]] + f.skip(1).push((k, v)) =~= f.push((k, v)));
        }
    } else {
        if f.len() == 0 {
            assert(seq![(k, v)] =~= f.push((k, v)));
        }
    }
}

/// The key just set maps to its value; every other key keeps its value.
pub proof fn lemma_with_filter_value(f: Seq<(Seq<char>, Seq<char>)>, k: Seq<char>, v: Seq<char>)
    ensures
        filter_value(with_filter(f, k, v), k) == Some(v),
        forall|x: Seq<char>| x != k ==> #[trigger] filter_value(with_filter(f, k, v), x) == filter_value(f, x),
    decreases f.len(),
{
    let g = with_filter(f, k, v);
    if f.len() == 0 {
        assert(g.skip(1) =~= f);
        assert forall|x: Seq<char>| x != k implies #[trigger] filter_value(g, x) == filter_value(f, x) by {
            assert(filter_value(g, x) == filter_value(g.skip(1), x));
        }
    } else if f[0].0 == k {
        assert(g.skip(1) =~= f.skip(1));
        assert forall|x: Seq<char>| x != k implies #[trigger] filter_value(g, x) == filter_value(f, x) by {
            assert(filter_value(g, x) == filter_value(g.skip(1), x));
        }
    } else {
        let t = f.skip(1);
        lemma_with_filter_value(t, k, v);
        assert(g.skip(1) =~= with_filter(t, k, v));
        assert(g[0] == f[0]);
        assert forall|x: Seq<char>| x != k implies #[trigger] filter_value(g, x) == filter_value(f, x) by {
            if f[0].0 != x {
                assert(filter_value(g, x) == filter_value(with_filter(t, k, v), x));
            }
        }
    }
}

proof fn lemma_with_filter_keeps_unique(f: Seq<(Seq<char>, Seq<char>)>, k: Seq<char>, v: Seq<char>)
    requires
        keys_unique(f),
    ensures
        keys_unique(with_filter(f, k, v)),
    decreases f.len(),
{
    if f.len() == 0 {
    } else if f[0].0 == k {
        let g = f.update(0, (k, v));
        assert(keys_unique(g)) by {
            assert forall|i: int, j: int| 0 <= i < j < g.len() implies g[i].0 != g[j].0 by {
                assert(g[j] == f[j]);
            }
        }
    } else {
        let t = f.skip(1);
        assert(keys_unique(t)) by {
            assert forall|i: int, j: int| 0 <= i < j < t.len() implies t[i].0 != t[j].0 by {
                assert(t[i] == f[i + 1] && t[j] == f[j + 1]);
            }
        }
        lemma_with_filter_keeps_unique(t, k, v);
        lemma_with_filter_value(t, k, v);
        let w = with_filter(t, k, v);
        let g = seq![f[0]] + w;
        lemma_absent_key(f, 0);
        assert(t =~= f.skip(1));
        lemma_filter_value_keys(t, f[0].0);
        lemma_filter_value_keys(w, f[0].0);
        assert(keys_unique(g)) by {
            assert forall|i: int, j: int| 0 <= i < j < g.len() implies g[i].0 != g[j].0 by {
                if i == 0 {
                    assert(g[j] == w[j - 1]);
                } else {
                    assert(g[i] == w[i - 1] && g[j] == w[j - 1]);
                }
            }
        }
    }
}

proof fn lemma_filter_value_keys(f: Seq<(Seq<char>, Seq<char>)>, k: Seq<char>)
    ensures
        filter_value(f, k) is None <==> forall|i: int| 0 <= i < f.len() ==> f[i].0 != k,
    decreases f.len(),
{
    if f.len() > 0 {
        lemma_filter_value_keys(f.skip(1), k);
        if filter_value(f, k) is None {
            assert forall|i: int| 0 <= i < f.len() implies f[i].0 != k by {
                if i > 0 {
                    assert(f.skip(1)[i - 1] == f[i]);
                }
            }
        } else if f[0].0 != k {
            let j = choose|j: int| 0 <= j < f.skip(1).len() && f.skip(1)[j].0 == k;
            assert(f[j + 1].0 == k);
        }
    }
}

proof fn lemma_absent_key(f: Seq<(Seq<char>, Seq<char>)>, i: int)
    requires
        keys_unique(f),
        0 <= i < f.len(),
    ensures
        filter_value(f.skip(i + 1), f[i].0) is None,
{
    let t = f.skip(i + 1);
    lemma_filter_value_keys(t, f[i].0);
    assert forall|j: int| 0 <= j < t.len() implies #[trigger] t[j].0 != f[i].0 by {
        assert(t[j] == f[i + 1 + j]);
    }
}

/// Maps `key` to `value` in `filters`: an entry for `key` is overwritten in
/// place, otherwise the pair is appended.
pub fn set_filter(filters: &mut Vec<(String, String)>, key: String, value: String)
    ensures
        filters_view(final(filters)@) == with_filter(filters_view(old(filters)@), key@, value@),
        keys_unique(filters_view(old(filters)@)) ==> keys_unique(filters_view(final(filters)@)),
        filter_value(filters_view(final(filters)@), key@) == Some(value@),
        forall|x: Seq<char>| x != key@
            ==> #[trigger] filter_value(filters_view(final(filters)@), x) == filter_value(filters_view(old(filters)@), x),
{
    let ghost f = filters_view(filters@);
    proof {
        if keys_unique(f) {
            lemma_with_filter_keeps_unique(f, key@, value@);
        }
        lemma_with_filter_value(f, key@, value@);
    }
    let n = filters.len();
    let mut i: usize = 0;
    while i < n
        invariant
            n == filters@.len(),
            f == filters_view(filters@),
            filters@ == old(filters)@,
            i <= n,
            forall|j: int| 0 <= j < i ==> f[j].0 != key@,
        decreases n - i,
    {
        if text_eq(filters[i].0.as_str(), key.as_str()) {
            proof {
                lemma_with_filter_first(f, key@, value@, i as int);
                if keys_unique(f) {
                    lemma_with_filter_keeps_unique(f, key@, value@);
                }
                lemma_with_filter_value(f, key@, value@);
            }
            let ghost kv = key@;
            let ghost vv = value@;
            filters.set(i, (key, value));
            proof {
                assert(filters_view(filters@) =~= f.update(i as int, (kv, vv)));
            }
            return;
        }
        i = i + 1;
    }
    proof {
        lemma_with_filter_first(f, key@, value@, n as int);
    }
    let ghost kv = key@;
    let ghost vv = value@;
    filters.push((key, value));
    proof {
        assert(filters_view(filters@) =~= f.push((kv, vv)));
    }
}

/// The canonical log record: every entry has a timestamp, a level and a
/// message; the other members of the source document are kept in `fields`.
pub struct LogEntry {
    pub timestamp: String,
    pub level: String,
    pub message: String,
    pub service: Option<String>,
    pub trace_id: Option<String>,
    pub fields: Vec<(String, JsonValue)>,
}

/// Advisory hints for a debugging session; each may be absent.
#[derive(Default)]
pub struct DebugContext {
    pub service: Option<String>,
    pub time_range: Option<String>,
    pub environment: Option<String>,
    pub user_id: Option<String>,
    pub request_id: Option<String>,
}

/// The outcome of a debugging session: a narrative, an optional root cause
/// and ordered recommendations.
pub struct DebugAnalysis {
    pub analysis: String,
    pub root_cause: Option<String>,
    pub recommendations: Vec<String>,
}

/// Service health as reported to callers.
pub struct HealthResponse {
    pub status: String,
    pub ai_enabled: bool,
}

/// Where a log store is and how to sign in to it.
pub struct LogSourceConfig {
    pub url: String,
    pub username: Option<String>,
    pub password: Option<String>,
    pub organization: Option<String>,
}

/// A free-text search against the store that `source` names.
pub struct QueryRequest {
    pub query: String,
    pub source: String,
    pub config: LogSourceConfig,
}

/// The entries found for a query, their number and a one-line summary.
pub struct QueryResponse {
    pub query: String,
    pub results: Vec<LogEntry>,
    pub total: usize,
    pub summary: Option<String>,
}

/// Entries to analyse and the question asked about them.
pub struct AnalyzeRequest {
    pub logs: Vec<LogEntry>,
    pub question: String,
}

/// A free-text analysis and the number of entries it covered.
pub struct AnalyzeResponse {
    pub analysis: String,
    pub log_count: usize,
}

/// An issue to debug, its context and the store to search.
pub struct DebugRequest {
    pub issue_description: String,
    pub context: DebugContext,
    pub config: DebugConfig,
}

/// A log store named by its source tag, with its location and sign-in.
pub struct DebugConfig {
    pub source: String,
    pub url: String,
    pub username: Option<String>,
    pub password: Option<String>,
    pub organization: Option<String>,
}

/// The debugging outcome together with the entries it was drawn from.
pub struct DebugResponse {
    pub issue: String,
    pub analysis: String,
    pub root_cause: Option<String>,
    pub recommendations: Vec<String>,
    pub relevant_logs: Vec<LogEntry>,
}

/// A log store client that could not be set up from its configuration.
pub enum ClientError {
    InvalidConfig(String),
}

/// A search that failed at the store or came back in an unknown shape.
pub enum SearchError {
    Upstream { status: u16, body: String },
    InvalidResponse,
}

/// The answer to a query: the entries, their number, and `Found N logs`, or a
/// notice that none matched.
pub fn query_response(query: String, results: Vec<LogEntry>) -> (r: QueryResponse)
    ensures
        r.query == query,
        r.results == results,
        r.total == results@.len(),
        r.summary matches Some(s) && s@ == if results@.len() > 0 {
            "Found "@ + crate::text::nat_text(results@.len()) + " logs"@
        } else {
            "No logs found matching your query"@
        },
{
    let total = results.len();
    let summary = if total > 0 {
        let mut s = String::from_str("Found ");
        let count = crate::text::nat_to_text(total as u128);
        s.append(count.as_str());
        s.append(" logs");
        proof {
            assert(s@ =~= "Found "@ + crate::text::nat_text(results@.len()) + " logs"@);
        }
        s
    } else {
        String::from_str("No logs found matching your query")
    };
    QueryResponse { query, results, total, summary: Some(summary) }
}

/// The health report of a running service.
pub fn health() -> (r: HealthResponse)
    ensures
        r.status@ == "healthy"@,
        r.ai_enabled,
{
    HealthResponse { status: String::from_str("healthy"), ai_enabled: true }
}

/// The store that a source tag names: `elasticsearch` or `openobserve`.
pub fn source_backend(tag: &str) -> (r: Option<crate::normalize::Backend>)
    ensures
        r == if tag@ == "elasticsearch"@ {
            Some(crate::normalize::Backend::Elastic)
        } else if tag@ == "openobserve"@ {
            Some(crate::normalize::Backend::OpenObserve)
        } else {
            None
        },
{
    if text_eq(tag, "elasticsearch") {
        Some(crate::normalize::Backend::Elastic)
    } else if text_eq(tag, "openobserve") {
        Some(crate::normalize::Backend::OpenObserve)
    } else {
        None
    }
}

} // verus!

