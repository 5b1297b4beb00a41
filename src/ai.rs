//! Reading the replies of the text-completion service. A reply is untrusted:
//! where it does not follow the JSON shape that the prompt asks for, a
//! deterministic fallback built from the caller's own input takes its place.
use vstd::prelude::*;
use crate::json::{JsonValue, parse_json, parsed_json, member, as_text, get_member};
use crate::models::{SearchParams, DebugContext, DebugAnalysis, set_filter, filters_view, opt_view, with_filter,
    filter_value, lemma_with_filter_value, keys_unique};
use crate::normalize::{optional_text_ok, text_or};
use crate::text::{texts_view, nat_to_text, nat_text};

verus! {

/// The result cap of a search parsed from free text.
pub const QUERY_SIZE: usize = 100;

/// The result cap of a search made for debugging, which needs wider recall.
pub const DEBUG_QUERY_SIZE: usize = 200;

/// The most log entries handed to the analysis.
pub const DEBUG_LOG_LIMIT: usize = 50;

/// Instructions for turning free text into a search.
pub const INTENT_SYSTEM_PROMPT: &'static str = "You are a log query parser. Convert natural language queries into structured search parameters.\nExtract:\n1. The main search query (keywords to search in logs)\n2. Time range if mentioned (format: 1h, 24h, 7d, etc.)\n3. Filters like service name, log level, etc.\n\nRespond in JSON format:\n{\n  \"query\": \"extracted keywords\",\n  \"time_range\": \"1h\" or null,\n  \"filters\": {\"field\": \"value\"}\n}\n\nExamples:\n- \"Show errors in payment service last hour\" -> {\"query\": \"error\", \"time_range\": \"1h\", \"filters\": {\"service\": \"payment\", \"level\": \"ERROR\"}}\n- \"Database timeouts\" -> {\"query\": \"database timeout\", \"time_range\": null, \"filters\": {}}\n- \"Recent logs\" -> {\"query\": \"\", \"time_range\": \"1h\", \"filters\": {}}\n";

/// Instructions for a free-text analysis of log entries.
pub const ANALYSIS_SYSTEM_PROMPT: &'static str = "You are a log analysis expert. Analyze the provided logs and answer the user's question with detailed insights, patterns, and actionable recommendations.";

/// Instructions for turning an issue and its context into a search.
pub const DEBUG_QUERY_SYSTEM_PROMPT: &'static str = "You are a debugging expert. Based on the issue description and context, create an effective search query to find relevant logs.\n\nRespond in JSON format:\n{\n  \"query\": \"search keywords\",\n  \"time_range\": \"suggested time range\",\n  \"filters\": {\"field\": \"value\"}\n}\n";

/// Instructions for a structured debugging analysis.
pub const DEBUG_SYSTEM_PROMPT: &'static str = "You are an expert SRE and debugging assistant. Analyze the issue, logs, and context to provide:\n1. A detailed analysis of what's happening\n2. The root cause (if identifiable)\n3. Step-by-step recommendations to fix the issue\n\nRespond in JSON format:\n{\n  \"analysis\": \"detailed analysis\",\n  \"root_cause\": \"identified root cause or null\",\n  \"recommendations\": [\"step 1\", \"step 2\", ...]\n}\n";

/// Whether a reply follows the search shape: an object with a string
/// `query`, a `time_range` that is a string or null, and a `filters` member
/// that is an object. A missing member breaks the shape.
pub open spec fn intent_valid(v: JsonValue) -> bool {
    &&& v is Object
    &&& as_text(member(v, "query"@)) is Some
    &&& (match member(v, "time_range"@) {
        Some(JsonValue::Null) => true,
        Some(JsonValue::Text(_)) => true,
        _ => false,
    })
    &&& (match member(v, "filters"@) {
        Some(JsonValue::Object(_)) => true,
        _ => false,
    })
}

/// The reply where it follows the search shape.
pub open spec fn structured_intent(reply: Option<JsonValue>) -> Option<JsonValue> {
    match reply {
        Some(v) => if intent_valid(v) { Some(v) } else { None },
        None => None,
    }
}

/// The string-valued members of a filters object, later keys overwriting
/// earlier equal ones.
pub open spec fn filters_from_members(m: Seq<(String, JsonValue)>) -> Seq<(Seq<char>, Seq<char>)>
    decreases m.len(),
{
    if m.len() == 0 {
        Seq::empty()
    } else {
        let f = filters_from_members(m.drop_last());
        match m.last().1 {
            JsonValue::Text(s) => with_filter(f, m.last().0@, s@),
            _ => f,
        }
    }
}

/// The filters that a reply proposes.
pub open spec fn reply_filters(v: JsonValue) -> Seq<(Seq<char>, Seq<char>)> {
    match member(v, "filters"@) {
        Some(JsonValue::Object(m)) => filters_from_members(m@),
        _ => Seq::empty(),
    }
}

/// `r` is the search for free text `text` given the reply `reply`: the
/// reply's own values where it follows the search shape, else the text
/// itself over the last hour with no filters.
pub open spec fn intent_search(r: SearchParams, text: Seq<char>, reply: Option<JsonValue>) -> bool {
    &&& r.size == 100
    &&& match structured_intent(reply) {
        Some(v) => {
            &&& r.query@ == as_text(member(v, "query"@)).unwrap()
            &&& opt_view(r.time_range) == as_text(member(v, "time_range"@))
            &&& filters_view(r.filters@) == reply_filters(v)
        },
        None => {
            &&& r.query@ == text
            &&& opt_view(r.time_range) == Some("1h"@)
            &&& r.filters@.len() == 0
        },
    }
}

/// `r` is the debugging search for `issue` in `context` given `reply`: as
/// for free text, but the window defaults to the context's own (else one
/// hour), and the context's service, where set, overrides the `service`
/// filter.
pub open spec fn debug_search(r: SearchParams, issue: Seq<char>, context: DebugContext, reply: Option<JsonValue>) -> bool {
    let proposed = match structured_intent(reply) {
        Some(v) => reply_filters(v),
        None => Seq::empty(),
    };
    &&& r.size == 200
    &&& filters_view(r.filters@) == match opt_view(context.service) {
        Some(s) => with_filter(proposed, "service"@, s),
        None => proposed,
    }
    &&& match structured_intent(reply) {
        Some(v) => {
            &&& r.query@ == as_text(member(v, "query"@)).unwrap()
            &&& opt_view(r.time_range) == Some(text_or(member(v, "time_range"@), "1h"@))
        },
        None => {
            &&& r.query@ == issue
            &&& opt_view(r.time_range) == Some(match opt_view(context.time_range) {
                Some(t) => t,
                None => "1h"@,
            })
        },
    }
}

fn text_member(v: &JsonValue, key: &str) -> (r: Option<String>)
    ensures
        opt_view(r) == as_text(member(*v, key@)),
{
    match get_member(v, key) {
        Some(JsonValue::Text(s)) => Some(s.clone()),
        _ => None,
    }
}

fn intent_is_valid(v: &JsonValue) -> (r: bool)
    ensures
        r == intent_valid(*v),
{
    match v {
        JsonValue::Object(_) => {},
        _ => return false,
    }
    let query_ok = match get_member(v, "query") {
        Some(JsonValue::Text(_)) => true,
        _ => false,
    };
    let window_ok = match get_member(v, "time_range") {
        Some(JsonValue::Null) => true,
        Some(JsonValue::Text(_)) => true,
        _ => false,
    };
    let filters_ok = match get_member(v, "filters") {
        Some(JsonValue::Object(_)) => true,
        _ => false,
    };
    query_ok && window_ok && filters_ok
}

fn filters_of(v: &JsonValue) -> (r: Vec<(String, String)>)
    ensures
        filters_view(r@) == reply_filters(*v),
        keys_unique(filters_view(r@)),
{
    let mut out: Vec<(String, String)> = Vec::new();
    match get_member(v, "filters") {
        Some(JsonValue::Object(m)) => {
            let n = m.len();
            let mut i: usize = 0;
            proof {
                assert(m@.subrange(0, 0) =~= Seq::<(String, JsonValue)>::empty());
                assert(filters_view(out@) =~= Seq::<(Seq<char>, Seq<char>)>::empty());
            }
            while i < n
                invariant
                    n == m@.len(),
                    i <= n,
                    filters_view(out@) == filters_from_members(m@.subrange(0, i as int)),
                    keys_unique(filters_view(out@)),
                decreases n - i,
            {
                let ghost pre = m@.subrange(0, i + 1);
                proof {
                    assert(pre.drop_last() =~= m@.subrange(0, i as int));
                    assert(pre.last() == m@[i as int]);
                }
                match &m[i].1 {
                    JsonValue::Text(s) => {
                        set_filter(&mut out, m[i].0.clone(), s.clone());
                    },
                    _ => {},
                }
                i = i + 1;
            }
            proof {
                assert(m@.subrange(0, n as int) =~= m@);
            }
            out
        },
        _ => {
            proof {
                assert(filters_view(out@) =~= Seq::<(Seq<char>, Seq<char>)>::empty());
            }
            out
        },
    }
}

/// The search for free text `text` given the service's parsed reply.
pub fn search_from_reply(text: &str, reply: Option<JsonValue>) -> (r: SearchParams)
    ensures
        r.wf(),
        intent_search(r, text@, reply),
{
    match reply {
        Some(v) => {
            if intent_is_valid(&v) {
                let query = match text_member(&v, "query") {
                    Some(q) => q,
                    None => String::from_str(text),
                };
                let time_range = text_member(&v, "time_range");
                let filters = filters_of(&v);
                return SearchParams { query, time_range, filters, size: QUERY_SIZE };
            }
        },
        None => {},
    }
    proof {
        reveal_strlit("1h");
    }
    let none: Vec<(String, String)> = Vec::new();
    proof {
        assert(filters_view(none@) =~= Seq::<(Seq<char>, Seq<char>)>::empty());
    }
    SearchParams {
        query: String::from_str(text),
        time_range: Some(String::from_str("1h")),
        filters: none,
        size: QUERY_SIZE,
    }
}

/// The search for free text `text` given the service's raw reply
/// `completion`. An empty reply, or one that is not JSON of the search shape,
/// gives the fallback search.
pub fn parse_query_reply(text: &str, completion: &str) -> (r: SearchParams)
    ensures
        r.wf(),
        intent_search(r, text@, parsed_json(completion@)),
        completion@.len() == 0 ==> intent_search(r, text@, None),
{
    search_from_reply(text, parse_json(completion))
}

/// The debugging search for `issue` in `context` given the service's parsed
/// reply.
pub fn debug_search_from_reply(issue: &str, context: &DebugContext, reply: Option<JsonValue>) -> (r: SearchParams)
    ensures
        r.wf(),
        debug_search(r, issue@, *context, reply),
{
    let valid = match &reply {
        Some(v) => intent_is_valid(v),
        None => false,
    };
    proof {
        reveal_strlit("1h");
        reveal_strlit("service");
    }
    let mut params = match reply {
        Some(v) => {
            if valid {
                let query = match text_member(&v, "query") {
                    Some(q) => q,
                    None => String::from_str(issue),
                };
                let window = match text_member(&v, "time_range") {
                    Some(t) => t,
                    None => String::from_str("1h"),
                };
                SearchParams { query, time_range: Some(window), filters: filters_of(&v), size: DEBUG_QUERY_SIZE }
            } else {
                let window = match &context.time_range {
                    Some(t) => t.clone(),
                    None => String::from_str("1h"),
                };
                SearchParams { query: String::from_str(issue), time_range: Some(window), filters: Vec::new(), size: DEBUG_QUERY_SIZE }
            }
        },
        None => {
            let window = match &context.time_range {
                Some(t) => t.clone(),
                None => String::from_str("1h"),
            };
            SearchParams { query: String::from_str(issue), time_range: Some(window), filters: Vec::new(), size: DEBUG_QUERY_SIZE }
        },
    };
    proof {
        if !valid {
            assert(filters_view(params.filters@) =~= Seq::<(Seq<char>, Seq<char>)>::empty());
        }
        assert(keys_unique(filters_view(params.filters@)));
    }
    match &context.service {
        Some(s) => set_filter(&mut params.filters, String::from_str("service"), s.clone()),
        None => {},
    }
    params
}

/// The debugging search for `issue` in `context` given the service's raw
/// reply `completion`.
pub fn debug_query_reply(issue: &str, context: &DebugContext, completion: &str) -> (r: SearchParams)
    ensures
        r.wf(),
        debug_search(r, issue@, *context, parsed_json(completion@)),
        completion@.len() == 0 ==> debug_search(r, issue@, *context, None),
{
    debug_search_from_reply(issue, context, parse_json(completion))
}

/// Where the reply is not JSON of the search shape, the search is exactly the
/// caller's text over the last hour, with no filters and a cap of 100.
pub proof fn lemma_intent_fallback(r: SearchParams, text: Seq<char>, reply: Option<JsonValue>)
    requires
        intent_search(r, text, reply),
        reply is None || !intent_valid(reply.unwrap()),
    ensures
        r.query@ == text,
        opt_view(r.time_range) == Some("1h"@),
        r.filters@.len() == 0,
        r.size == 100,
{
}

/// Where the reply is not JSON of the search shape, the debugging search is
/// exactly the issue over the context's window (else the last hour), with a
/// cap of 200 and no filter but the context's service.
pub proof fn lemma_debug_fallback(r: SearchParams, issue: Seq<char>, context: DebugContext, reply: Option<JsonValue>)
    requires
        debug_search(r, issue, context, reply),
        reply is None || !intent_valid(reply.unwrap()),
    ensures
        r.query@ == issue,
        opt_view(r.time_range) == Some(match opt_view(context.time_range) {
            Some(t) => t,
            None => "1h"@,
        }),
        r.size == 200,
        context.service is None ==> r.filters@.len() == 0,
        context.service is Some ==> filters_view(r.filters@) == seq![("service"@, context.service.unwrap()@)],
{
    if context.service is None {
        assert(filters_view(r.filters@).len() == 0);
    }
}

/// Where the context names a service, the debugging search filters on it,
/// whatever the reply proposed for that key.
pub proof fn lemma_context_service_wins(r: SearchParams, issue: Seq<char>, context: DebugContext, reply: Option<JsonValue>)
    requires
        debug_search(r, issue, context, reply),
        context.service is Some,
    ensures
        filter_value(filters_view(r.filters@), "service"@) == Some(context.service.unwrap()@),
{
    let proposed = match structured_intent(reply) {
        Some(v) => reply_filters(v),
        None => Seq::empty(),
    };
    lemma_with_filter_value(proposed, "service"@, context.service.unwrap()@);
}

/// Whether a reply follows the analysis shape: an object with a non-empty
/// string `analysis`, a `root_cause` that is a string, null or absent, and a
/// `recommendations` member that is an array or absent.
pub open spec fn analysis_valid(v: JsonValue) -> bool {
    &&& v is Object
    &&& as_text(member(v, "analysis"@)) matches Some(a) && a.len() > 0
    &&& optional_text_ok(member(v, "root_cause"@))
    &&& (match member(v, "recommendations"@) {
        None => true,
        Some(JsonValue::Array(_)) => true,
        _ => false,
    })
}

/// The string items of an array, in order; other items are skipped.
pub open spec fn string_items(a: Seq<JsonValue>) -> Seq<Seq<char>>
    decreases a.len(),
{
    if a.len() == 0 {
        Seq::empty()
    } else {
        match a.last() {
            JsonValue::Text(s) => string_items(a.drop_last()).push(s@),
            _ => string_items(a.drop_last()),
        }
    }
}

/// `r` is the analysis read from the raw reply `content`, parsed as `reply`:
/// the reply's own values where it follows the analysis shape, else the whole
/// raw text as the analysis, with no root cause and no recommendations.
pub open spec fn analysis_of(r: DebugAnalysis, content: Seq<char>, reply: Option<JsonValue>) -> bool {
    match reply {
        Some(v) if analysis_valid(v) => {
            &&& r.analysis@ == as_text(member(v, "analysis"@)).unwrap()
            &&& opt_view(r.root_cause) == as_text(member(v, "root_cause"@))
            &&& texts_view(r.recommendations@) == match member(v, "recommendations"@) {
                Some(JsonValue::Array(a)) => string_items(a@),
                _ => Seq::empty(),
            }
        },
        _ => {
            &&& r.analysis@ == content
            &&& r.root_cause is None
            &&& r.recommendations@.len() == 0
        },
    }
}

fn analysis_is_valid(v: &JsonValue) -> (r: bool)
    ensures
        r == analysis_valid(*v),
{
    match v {
        JsonValue::Object(_) => {},
        _ => return false,
    }
    let analysis_ok = match get_member(v, "analysis") {
        Some(JsonValue::Text(a)) => a.unicode_len() > 0,
        _ => false,
    };
    let cause_ok = match get_member(v, "root_cause") {
        None => true,
        Some(JsonValue::Null) => true,
        Some(JsonValue::Text(_)) => true,
        _ => false,
    };
    let steps_ok = match get_member(v, "recommendations") {
        None => true,
        Some(JsonValue::Array(_)) => true,
        _ => false,
    };
    analysis_ok && cause_ok && steps_ok
}

fn strings_of(a: &Vec<JsonValue>) -> (r: Vec<String>)
    ensures
        texts_view(r@) == string_items(a@),
{
    let n = a.len();
    let mut out: Vec<String> = Vec::new();
    let mut i: usize = 0;
    proof {
        assert(a@.subrange(0, 0) =~= Seq::<JsonValue>::empty());
        assert(texts_view(out@) =~= Seq::<Seq<char>>::empty());
    }
    while i < n
        invariant
            n == a@.len(),
            i <= n,
            texts_view(out@) == string_items(a@.subrange(0, i as int)),
        decreases n - i,
    {
        let ghost pre = a@.subrange(0, i + 1);
        let ghost before = texts_view(out@);
        proof {
            assert(pre.drop_last() =~= a@.subrange(0, i as int));
            assert(pre.last() == a@[i as int]);
        }
        match &a[i] {
            JsonValue::Text(s) => {
                out.push(s.clone());
                proof {
                    assert(texts_view(out@) =~= before.push(s@));
                }
            },
            _ => {},
        }
        i = i + 1;
    }
    proof {
        assert(a@.subrange(0, n as int) =~= a@);
    }
    out
}

/// The analysis read from the raw reply `content`, given its parse `reply`.
pub fn analysis_from_reply(content: &str, reply: Option<JsonValue>) -> (r: DebugAnalysis)
    ensures
        analysis_of(r, content@, reply),
        content@.len() > 0 ==> r.analysis@.len() > 0,
{
    match reply {
        Some(v) => {
            if analysis_is_valid(&v) {
                let analysis = match text_member(&v, "analysis") {
                    Some(a) => a,
                    None => String::from_str(content),
                };
                let root_cause = text_member(&v, "root_cause");
                let recommendations = match get_member(&v, "recommendations") {
                    Some(JsonValue::Array(a)) => strings_of(a),
                    _ => {
                        let none: Vec<String> = Vec::new();
                        proof {
                            assert(texts_view(none@) =~= Seq::<Seq<char>>::empty());
                        }
                        none
                    },
                };
                return DebugAnalysis { analysis, root_cause, recommendations };
            }
        },
        None => {},
    }
    DebugAnalysis { analysis: String::from_str(content), root_cause: None, recommendations: Vec::new() }
}

/// The analysis read from the service's raw reply `content`. An empty reply
/// is no answer and gives `None`; a reply that is not JSON of the analysis
/// shape becomes the analysis itself. A returned analysis is never empty.
pub fn debug_analysis_reply(content: &str) -> (r: Option<DebugAnalysis>)
    ensures
        r is None <==> content@.len() == 0,
        r matches Some(d) ==> analysis_of(d, content@, parsed_json(content@)) && d.analysis@.len() > 0,
{
    if content.unicode_len() == 0 {
        return None;
    }
    Some(analysis_from_reply(content, parse_json(content)))
}

/// The narrative of a free-text analysis: the reply, or a fixed notice where
/// the service returned none.
pub fn analysis_text(content: Option<String>) -> (r: String)
    ensures
        r@ == match content {
            Some(c) => c@,
            None => "Unable to analyze logs"@,
        },
{
    match content {
        Some(c) => c,
        None => String::from_str("Unable to analyze logs"),
    }
}

/// How many log entries the debugging analysis sees, and the true total
/// where some are left out.
pub struct LogExcerpt {
    pub forwarded: usize,
    pub total_note: Option<usize>,
}

/// The excerpt of `total` entries handed to the analysis: all of them up to
/// the limit; past it, the first 50 and a note of the true total.
pub fn debug_log_excerpt(total: usize) -> (r: LogExcerpt)
    ensures
        total > 50 ==> r.forwarded == 50 && r.total_note == Some(total),
        total <= 50 ==> r.forwarded == total && r.total_note is None,
{
    if total > DEBUG_LOG_LIMIT {
        LogExcerpt { forwarded: DEBUG_LOG_LIMIT, total_note: Some(total) }
    } else {
        LogExcerpt { forwarded: total, total_note: None }
    }
}

/// The log section of a debugging prompt: the serialized entries, preceded
/// by the true total where the excerpt left some out.
pub open spec fn logs_section(excerpt: LogExcerpt, logs_text: Seq<char>) -> Seq<char> {
    match excerpt.total_note {
        Some(t) => "Found "@ + nat_text(t as nat) + " logs. Here are the most recent:\n"@ + logs_text,
        None => logs_text,
    }
}

/// Builds the log section of a debugging prompt.
pub fn debug_logs_section(excerpt: &LogExcerpt, logs_text: &str) -> (r: String)
    ensures
        r@ == logs_section(*excerpt, logs_text@),
{
    match excerpt.total_note {
        Some(t) => {
            let mut out = String::from_str("Found ");
            let count = nat_to_text(t as u128);
            out.append(count.as_str());
            out.append(" logs. Here are the most recent:\n");
            out.append(logs_text);
            proof {
                assert(out@ =~= logs_section(*excerpt, logs_text@));
            }
            out
        },
        None => String::from_str(logs_text),
    }
}

/// The user prompt of a debugging analysis.
pub fn debug_user_prompt(issue: &str, context_text: &str, logs_section: &str) -> (r: String)
    ensures
        r@ == "Issue: "@ + issue@ + "\n\nContext:\n"@ + context_text@ + "\n\nLogs:\n"@ + logs_section@
            + "\n\nProvide debugging analysis."@,
{
    let mut out = String::from_str("Issue: ");
    out.append(issue);
    out.append("\n\nContext:\n");
    out.append(context_text);
    out.append("\n\nLogs:\n");
    out.append(logs_section);
    out.append("\n\nProvide debugging analysis.");
    proof {
        assert(out@ =~= "Issue: "@ + issue@ + "\n\nContext:\n"@ + context_text@ + "\n\nLogs:\n"@ + logs_section@
            + "\n\nProvide debugging analysis."@);
    }
    out
}

/// The user prompt of a free-text analysis.
pub fn analysis_user_prompt(question: &str, logs_text: &str) -> (r: String)
    ensures
        r@ == "Question: "@ + question@ + "\n\nLogs:\n"@ + logs_text@ + "\n\nProvide a detailed analysis."@,
{
    let mut out = String::from_str("Question: ");
    out.append(question);
    out.append("\n\nLogs:\n");
    out.append(logs_text);
    out.append("\n\nProvide a detailed analysis.");
    proof {
        assert(out@ =~= "Question: "@ + question@ + "\n\nLogs:\n"@ + logs_text@ + "\n\nProvide a detailed analysis."@);
    }
    out
}

/// How `{:?}` writes an optional string.
pub uninterp spec fn debug_rendering(o: Option<Seq<char>>) -> Seq<char>;

/// Relies on the `Debug` formatting of `Option<String>`: `None`, or `Some`
/// around the quoted and escaped string; the text depends on the value alone.
#[verifier::external_body]
fn render_debug(o: &Option<String>) -> (r: String)
    ensures
        r@ == debug_rendering(opt_view(*o)),
{
    format!("{:?}", o)
}

/// The one-line summary of a debugging context.
pub open spec fn context_line(c: DebugContext) -> Seq<char> {
    "Service: "@ + debug_rendering(opt_view(c.service)) + ", Time: "@ + debug_rendering(opt_view(c.time_range))
    + ", Env: "@ + debug_rendering(opt_view(c.environment)) + ", User: "@ + debug_rendering(opt_view(c.user_id))
    + ", Request: "@ + debug_rendering(opt_view(c.request_id))
}

/// The user prompt that asks for a debugging search.
pub fn debug_query_user_prompt(issue: &str, context: &DebugContext) -> (r: String)
    ensures
        r@ == "Issue: "@ + issue@ + "\nContext: "@ + context_line(*context) + "\n\nCreate an optimal search query."@,
{
    let mut out = String::from_str("Issue: ");
    out.append(issue);
    out.append("\nContext: ");
    out.append("Service: ");
    out.append(render_debug(&context.service).as_str());
    out.append(", Time: ");
    out.append(render_debug(&context.time_range).as_str());
    out.append(", Env: ");
    out.append(render_debug(&context.environment).as_str());
    out.append(", User: ");
    out.append(render_debug(&context.user_id).as_str());
    out.append(", Request: ");
    out.append(render_debug(&context.request_id).as_str());
    out.append("\n\nCreate an optimal search query.");
    proof {
        assert(out@ =~= "Issue: "@ + issue@ + "\nContext: "@ + context_line(*context) + "\n\nCreate an optimal search query."@);
    }
    out
}

/// The settings of the text-completion service: a key and a model name.
pub struct AIEngine {
    pub api_key: String,
    pub model: String,
}

impl AIEngine {
    /// Settings with `model`, or `gpt-4o-mini` where none is named.
    pub fn new(api_key: String, model: Option<String>) -> (r: Result<Self, crate::models::ClientError>)
        ensures
            r matches Ok(e) && e.api_key == api_key && e.model@ == match model {
                Some(m) => m@,
                None => "gpt-4o-mini"@,
            },
    {
        let model = match model {
            Some(m) => m,
            None => String::from_str("gpt-4o-mini"),
        };
        Ok(AIEngine { api_key, model })
    }
}

} // verus!
