use zeteo::ai::{
    analysis_from_reply, analysis_text, debug_analysis_reply, debug_log_excerpt, debug_logs_section,
    debug_query_reply, debug_query_user_prompt, debug_search_from_reply, parse_query_reply, search_from_reply,
    AIEngine,
};
use zeteo::elastic::{build_node_url, search_body, ElasticsearchClient};
use zeteo::json::{parse_json, JsonValue};
use zeteo::models::{
    health, query_response, set_filter, source_backend, ClientError, DebugContext, SearchError, SearchParams,
};
use zeteo::normalize::{normalize_document, normalize_documents, Backend};
use zeteo::openobserve::{sql_query_at, OpenObserveClient};
use zeteo::text::{has_prefix, int_to_text, trim_end_char};
use zeteo::time_range::{duration_of, parse_amount, window_start_at};

fn text(s: &str) -> JsonValue {
    JsonValue::Text(s.to_string())
}

fn object(members: Vec<(&str, JsonValue)>) -> JsonValue {
    JsonValue::Object(members.into_iter().map(|(k, v)| (k.to_string(), v)).collect())
}

fn params(query: &str, time_range: Option<&str>, filters: Vec<(&str, &str)>, size: usize) -> SearchParams {
    SearchParams {
        query: query.to_string(),
        time_range: time_range.map(|t| t.to_string()),
        filters: filters.into_iter().map(|(k, v)| (k.to_string(), v.to_string())).collect(),
        size,
    }
}

fn filter_of<'a>(p: &'a SearchParams, key: &str) -> Option<&'a str> {
    p.filters.iter().find(|(k, _)| k == key).map(|(_, v)| v.as_str())
}

#[test]
fn time_tokens_resolve_to_their_spans() {
    assert_eq!(duration_of("1h"), 3_600_000);
    assert_eq!(duration_of("24h"), 86_400_000);
    assert_eq!(duration_of("7d"), 604_800_000);
    assert_eq!(duration_of("5m"), 300_000);
}

#[test]
fn unreadable_time_tokens_default_to_one_hour() {
    assert_eq!(duration_of("xyz"), 3_600_000);
    assert_eq!(duration_of(""), 3_600_000);
    assert_eq!(duration_of("h"), 3_600_000);
    assert_eq!(duration_of("xm"), 3_600_000);
    assert_eq!(duration_of("12"), 3_600_000);
    assert_eq!(duration_of("99999999999999999999h"), 3_600_000);
}

#[test]
fn window_start_subtracts_from_now() {
    assert_eq!(window_start_at("1h", 10_000_000), 6_400_000);
    assert_eq!(window_start_at("-2m", 0), 120_000);
}

#[test]
fn amounts_parse_like_i64() {
    assert_eq!(parse_amount("42"), Some(42));
    assert_eq!(parse_amount("+7"), Some(7));
    assert_eq!(parse_amount("-3"), Some(-3));
    assert_eq!(parse_amount("9223372036854775807"), Some(i64::MAX));
    assert_eq!(parse_amount("-9223372036854775808"), Some(i64::MIN));
    assert_eq!(parse_amount("9223372036854775808"), None);
    assert_eq!(parse_amount("-"), None);
    assert_eq!(parse_amount("1a"), None);
}

#[test]
fn non_json_reply_falls_back_to_the_text() {
    let p = parse_query_reply("show errors in payment", "sorry, I cannot help");
    assert_eq!(p.query, "show errors in payment");
    assert_eq!(p.time_range.as_deref(), Some("1h"));
    assert!(p.filters.is_empty());
    assert_eq!(p.size, 100);
}

#[test]
fn empty_reply_falls_back_to_the_text() {
    let p = parse_query_reply("recent logs", "");
    assert_eq!(p.query, "recent logs");
    assert_eq!(p.time_range.as_deref(), Some("1h"));
    assert!(p.filters.is_empty());
    assert_eq!(p.size, 100);
}

#[test]
fn reply_of_the_wrong_shape_falls_back() {
    let p = parse_query_reply("db timeouts", "{\"foo\": 1}");
    assert_eq!(p.query, "db timeouts");
    assert_eq!(p.time_range.as_deref(), Some("1h"));
    assert!(p.filters.is_empty());
    let q = search_from_reply("db timeouts", Some(text("just text")));
    assert_eq!(q.query, "db timeouts");
    for partial in ["{\"query\": \"x\"}", "{\"query\": \"x\", \"time_range\": \"2h\"}", "{\"query\": \"x\", \"filters\": {}}", "42", "[1, 2]"] {
        let r = parse_query_reply("db timeouts", partial);
        assert_eq!(r.query, "db timeouts");
        assert_eq!(r.time_range.as_deref(), Some("1h"));
        assert!(r.filters.is_empty());
    }
}

#[test]
fn structured_reply_is_taken() {
    let reply = "{\"query\": \"error\", \"time_range\": \"24h\", \"filters\": {\"service\": \"payment\", \"level\": \"ERROR\", \"count\": 3}}";
    let p = parse_query_reply("Show errors in payment service", reply);
    assert_eq!(p.query, "error");
    assert_eq!(p.time_range.as_deref(), Some("24h"));
    assert_eq!(p.filters.len(), 2);
    assert_eq!(filter_of(&p, "service"), Some("payment"));
    assert_eq!(filter_of(&p, "level"), Some("ERROR"));
    assert_eq!(p.size, 100);
    let q = parse_query_reply("Database timeouts", "{\"query\": \"database timeout\", \"time_range\": null, \"filters\": {}}");
    assert_eq!(q.query, "database timeout");
    assert_eq!(q.time_range, None);
}

#[test]
fn debug_fallback_uses_the_context_window() {
    let context = DebugContext { time_range: Some("24h".to_string()), ..Default::default() };
    let p = debug_query_reply("checkout fails", &context, "not json");
    assert_eq!(p.query, "checkout fails");
    assert_eq!(p.time_range.as_deref(), Some("24h"));
    assert!(p.filters.is_empty());
    assert_eq!(p.size, 200);
    let q = debug_query_reply("checkout fails", &DebugContext::default(), "");
    assert_eq!(q.time_range.as_deref(), Some("1h"));
    assert_eq!(q.size, 200);
}

#[test]
fn context_service_overrides_the_reply() {
    let context = DebugContext { service: Some("payment".to_string()), ..Default::default() };
    let reply = "{\"query\": \"timeout\", \"time_range\": \"2h\", \"filters\": {\"service\": \"billing\", \"level\": \"ERROR\"}}";
    let p = debug_query_reply("payments time out", &context, reply);
    assert_eq!(filter_of(&p, "service"), Some("payment"));
    assert_eq!(filter_of(&p, "level"), Some("ERROR"));
    assert_eq!(p.filters.len(), 2);
    assert_eq!(p.time_range.as_deref(), Some("2h"));
    let fallback = debug_search_from_reply("payments time out", &context, None);
    assert_eq!(filter_of(&fallback, "service"), Some("payment"));
    assert_eq!(fallback.filters.len(), 1);
}

#[test]
fn debug_reply_without_window_uses_one_hour() {
    let p = debug_query_reply("db is slow", &DebugContext::default(), "{\"query\": \"slow\", \"time_range\": null, \"filters\": {}}");
    assert_eq!(p.query, "slow");
    assert_eq!(p.time_range.as_deref(), Some("1h"));
}

#[test]
fn first_dialect_has_three_clauses() {
    let p = params("error", Some("1h"), vec![("service", "payment")], 100);
    let body = search_body(&p);
    let v: serde_json::Value = serde_json::from_str(&body).unwrap();
    let must = v["query"]["bool"]["must"].as_array().unwrap();
    assert_eq!(must.len(), 3);
    assert_eq!(must[0]["query_string"]["query"], "error");
    assert_eq!(must[0]["query_string"]["fields"].as_array().unwrap().len(), 4);
    assert_eq!(must[1]["range"]["@timestamp"]["gte"], "now-1h");
    assert_eq!(must[2]["term"]["service"], "payment");
    assert_eq!(v["size"], 100);
    assert_eq!(v["sort"][0]["@timestamp"]["order"], "desc");
}

#[test]
fn second_dialect_has_three_predicates() {
    let p = params("error", Some("1h"), vec![("service", "payment")], 100);
    let sql = sql_query_at(&p, 10_000_000);
    assert_eq!(
        sql,
        "SELECT * FROM default WHERE (message LIKE '%error%' ESCAPE '\\' OR log LIKE '%error%' ESCAPE '\\') AND _timestamp > 6400000 AND \"service\" = 'payment' ORDER BY _timestamp DESC LIMIT 100"
    );
    assert_eq!(sql.matches(" AND ").count(), 2);
}

#[test]
fn empty_search_matches_everything() {
    let p = params("", None, vec![], 100);
    let v: serde_json::Value = serde_json::from_str(&search_body(&p)).unwrap();
    let must = v["query"]["bool"]["must"].as_array().unwrap();
    assert_eq!(must.len(), 1);
    assert!(must[0]["match_all"].is_object());
    let sql = sql_query_at(&p, 0);
    assert_eq!(sql, "SELECT * FROM default ORDER BY _timestamp DESC LIMIT 100");
    assert!(!sql.contains("WHERE"));
}

#[test]
fn values_are_quoted_not_interpolated() {
    let p = params("it's", None, vec![("service", "x' OR '1'='1")], 5);
    let sql = sql_query_at(&p, 0);
    assert_eq!(
        sql,
        "SELECT * FROM default WHERE (message LIKE '%it''s%' ESCAPE '\\' OR log LIKE '%it''s%' ESCAPE '\\') AND \"service\" = 'x'' OR ''1''=''1' ORDER BY _timestamp DESC LIMIT 5"
    );
    let c = params("a\u{1}b\tc\\", None, vec![], 5);
    assert!(search_body(&c).contains("\"query\":\"a\\u0001b\\tc\\\\\""));
    let q = params("say \"hi\"", None, vec![], 5);
    let v: serde_json::Value = serde_json::from_str(&search_body(&q)).unwrap();
    assert_eq!(v["query"]["bool"]["must"][0]["query_string"]["query"], "say \"hi\"");
}

#[test]
fn like_wildcards_in_keywords_are_literal() {
    let p = params("50%_off\\", None, vec![], 3);
    assert_eq!(
        sql_query_at(&p, 0),
        "SELECT * FROM default WHERE (message LIKE '%50\\%\\_off\\\\%' ESCAPE '\\' OR log LIKE '%50\\%\\_off\\\\%' ESCAPE '\\') ORDER BY _timestamp DESC LIMIT 3"
    );
}

#[test]
fn clock_based_query_has_a_time_predicate() {
    let client = OpenObserveClient::new("http://o2".into(), "u".into(), "p".into(), "org".into()).ok().unwrap();
    let sql = client.build_sql_query(&params("", Some("1h"), vec![], 10));
    assert!(sql.starts_with("SELECT * FROM default WHERE _timestamp > "));
    assert!(client.parse_time_range("1h") > 0);
}

#[test]
fn log_field_becomes_the_message() {
    let doc = object(vec![("@timestamp", text("2024-01-01T00:00:00Z")), ("log", text("boom"))]);
    let e = normalize_document(doc, Backend::Elastic).unwrap();
    assert_eq!(e.level, "INFO");
    assert_eq!(e.message, "boom");
    assert_eq!(e.timestamp, "2024-01-01T00:00:00Z");
    assert_eq!(e.service, None);
    let keys: Vec<&str> = e.fields.iter().map(|(k, _)| k.as_str()).collect();
    assert_eq!(keys, vec!["@timestamp", "log"]);
}

#[test]
fn document_without_timestamp_is_dropped() {
    assert!(normalize_document(object(vec![("log", text("boom"))]), Backend::Elastic).is_none());
    assert!(normalize_document(object(vec![]), Backend::OpenObserve).is_none());
    let flag = object(vec![("timestamp", JsonValue::Bool(true)), ("message", text("m"))]);
    assert!(normalize_document(flag, Backend::Elastic).is_none());
    let null = object(vec![("timestamp", JsonValue::Null), ("message", text("m"))]);
    assert!(normalize_document(null, Backend::OpenObserve).is_none());
    assert!(normalize_document(text("plain"), Backend::Elastic).is_none());
}

#[test]
fn numeric_store_timestamp_is_aliased() {
    let doc = object(vec![("_timestamp", JsonValue::Number("1700000000000000".into())), ("log", text("x"))]);
    let e = normalize_document(doc, Backend::OpenObserve).unwrap();
    assert_eq!(e.timestamp, "1700000000000000");
    let other = object(vec![("_timestamp", JsonValue::Number("1".into()))]);
    assert!(normalize_document(other, Backend::Elastic).is_none());
}

#[test]
fn message_chain_and_defaults() {
    let doc = object(vec![
        ("timestamp", text("t")),
        ("msg", text("from msg")),
        ("level", text("ERROR")),
        ("service", JsonValue::Null),
        ("trace_id", text("abc")),
        ("host", text("h1")),
    ]);
    let e = normalize_document(doc, Backend::OpenObserve).unwrap();
    assert_eq!(e.message, "from msg");
    assert_eq!(e.level, "ERROR");
    assert_eq!(e.service, None);
    assert_eq!(e.trace_id.as_deref(), Some("abc"));
    assert_eq!(e.fields.len(), 2);
    let bare = normalize_document(object(vec![("timestamp", text("t"))]), Backend::Elastic).unwrap();
    assert_eq!(bare.message, "");
    assert_eq!(bare.level, "INFO");
    let bad_level = object(vec![("timestamp", text("t")), ("level", JsonValue::Number("3".into()))]);
    assert!(normalize_document(bad_level, Backend::Elastic).is_none());
}

#[test]
fn bad_documents_lower_the_count() {
    let docs = vec![
        object(vec![("timestamp", text("t1")), ("message", text("a"))]),
        object(vec![("message", text("no time"))]),
        object(vec![("timestamp", text("t3")), ("message", text("c"))]),
    ];
    let out = normalize_documents(docs, Backend::OpenObserve);
    assert_eq!(out.len(), 2);
    assert_eq!(out[0].message, "a");
    assert_eq!(out[1].message, "c");
}

#[test]
fn elastic_answer_reads_hit_sources() {
    let body = "{\"hits\":{\"hits\":[{\"_source\":{\"@timestamp\":\"t\",\"log\":\"boom\"}},{\"_id\":\"x\"}]}}";
    let logs = ElasticsearchClient::read_response(body).ok().unwrap();
    assert_eq!(logs.len(), 1);
    assert_eq!(logs[0].message, "boom");
    assert!(matches!(ElasticsearchClient::read_response("{\"hits\":{}}"), Err(SearchError::InvalidResponse)));
    assert!(matches!(ElasticsearchClient::read_response("garbage"), Err(SearchError::InvalidResponse)));
}

#[test]
fn openobserve_answer_and_errors() {
    let body = "{\"hits\":[{\"timestamp\":\"t\",\"log\":\"one\"},{\"_timestamp\":\"t2\",\"message\":\"two\"}]}";
    let logs = OpenObserveClient::read_response(200, body).ok().unwrap();
    assert_eq!(logs.len(), 2);
    assert_eq!(logs[0].message, "one");
    assert_eq!(logs[1].timestamp, "t2");
    match OpenObserveClient::read_response(401, "denied") {
        Err(SearchError::Upstream { status, body }) => {
            assert_eq!(status, 401);
            assert_eq!(body, "denied");
        }
        _ => panic!("expected an upstream error"),
    }
    assert!(matches!(OpenObserveClient::read_response(200, "[]"), Err(SearchError::InvalidResponse)));
}

#[test]
fn openobserve_url_is_checked_at_construction() {
    let bad = OpenObserveClient::new("::::".into(), "u".into(), "p".into(), "org".into());
    match bad {
        Err(ClientError::InvalidConfig(m)) => assert_eq!(m, "invalid OpenObserve URL: ::::"),
        Ok(_) => panic!("expected a configuration error"),
    }
    assert!(OpenObserveClient::new("ftp://o2".into(), "u".into(), "p".into(), "org".into()).is_err());
    assert!(OpenObserveClient::new("https://o2:5080".into(), "u".into(), "p".into(), "org".into()).is_ok());
    let config = zeteo::models::LogSourceConfig {
        url: "http://o2".into(),
        username: None,
        password: Some("pw".into()),
        organization: None,
    };
    let c = OpenObserveClient::from_config(&config).ok().unwrap();
    assert_eq!(c.username, "");
    assert_eq!(c.password, "pw");
    assert_eq!(c.organization, "default");
}

#[test]
fn openobserve_endpoint_and_body() {
    let client = OpenObserveClient::new("http://o2:5080//".into(), "u".into(), "p".into(), "acme".into()).ok().unwrap();
    assert_eq!(client.search_url(), "http://o2:5080/api/acme/default/_search");
    let body = OpenObserveClient::request_body("SELECT 'a'", 7);
    let v: serde_json::Value = serde_json::from_str(&body).unwrap();
    assert_eq!(v["query"]["sql"], "SELECT 'a'");
    assert_eq!(v["query"]["size"], 7);
}

#[test]
fn node_url_gets_credentials() {
    assert_eq!(build_node_url("https://es:9200", Some("elastic"), Some("pw")), "https://elastic:pw@es:9200");
    assert_eq!(build_node_url("http://es:9200", Some("u"), Some("p")), "http://u:p@es:9200");
    assert_eq!(build_node_url("http://a@es:9200", Some("u"), Some("p")), "http://a@es:9200");
    assert_eq!(build_node_url("http://es:9200", Some("u"), None), "http://es:9200");
    let client = ElasticsearchClient::new("http://localhost:9200", Some("u"), Some("p")).ok().unwrap();
    assert_eq!(client.node_url, "http://u:p@localhost:9200");
}

#[test]
fn unparsable_node_url_is_a_configuration_error() {
    assert!(matches!(ElasticsearchClient::new("not a url", None, None), Err(ClientError::InvalidConfig(_))));
}

#[test]
fn structured_analysis_is_taken() {
    let reply = "{\"analysis\": \"db pool exhausted\", \"root_cause\": \"leak\", \"recommendations\": [\"raise pool\", 3, \"fix leak\"]}";
    let a = debug_analysis_reply(reply).unwrap();
    assert_eq!(a.analysis, "db pool exhausted");
    assert_eq!(a.root_cause.as_deref(), Some("leak"));
    assert_eq!(a.recommendations, vec!["raise pool".to_string(), "fix leak".to_string()]);
}

#[test]
fn unstructured_analysis_keeps_the_raw_text() {
    let a = debug_analysis_reply("The service is down.").unwrap();
    assert_eq!(a.analysis, "The service is down.");
    assert_eq!(a.root_cause, None);
    assert!(a.recommendations.is_empty());
    let raw = "{\"analysis\": \"\", \"recommendations\": []}";
    let b = debug_analysis_reply(raw).unwrap();
    assert_eq!(b.analysis, raw);
    let c = analysis_from_reply("x", Some(object(vec![("analysis", text("ok")), ("recommendations", text("no"))])));
    assert_eq!(c.analysis, "x");
}

#[test]
fn empty_analysis_reply_is_no_answer() {
    assert!(debug_analysis_reply("").is_none());
}

#[test]
fn analysis_text_placeholder() {
    assert_eq!(analysis_text(None), "Unable to analyze logs");
    assert_eq!(analysis_text(Some("fine".into())), "fine");
}

#[test]
fn seventy_five_logs_are_cut_to_fifty() {
    let e = debug_log_excerpt(75);
    assert_eq!(e.forwarded, 50);
    assert_eq!(e.total_note, Some(75));
    assert_eq!(debug_logs_section(&e, "[]"), "Found 75 logs. Here are the most recent:\n[]");
}

#[test]
fn ten_logs_are_all_forwarded() {
    let e = debug_log_excerpt(10);
    assert_eq!(e.forwarded, 10);
    assert_eq!(e.total_note, None);
    assert_eq!(debug_logs_section(&e, "[1]"), "[1]");
    let f = debug_log_excerpt(50);
    assert_eq!(f.forwarded, 50);
    assert_eq!(f.total_note, None);
}

#[test]
fn debug_prompt_lists_the_context() {
    let context = DebugContext { service: Some("payment".into()), ..Default::default() };
    let prompt = debug_query_user_prompt("slow", &context);
    assert_eq!(
        prompt,
        "Issue: slow\nContext: Service: Some(\"payment\"), Time: None, Env: None, User: None, Request: None\n\nCreate an optimal search query."
    );
}

#[test]
fn query_response_summaries() {
    let r = query_response("q".into(), vec![]);
    assert_eq!(r.total, 0);
    assert_eq!(r.summary.as_deref(), Some("No logs found matching your query"));
    let e = normalize_document(object(vec![("timestamp", text("t"))]), Backend::Elastic).unwrap();
    let r2 = query_response("q".into(), vec![e]);
    assert_eq!(r2.total, 1);
    assert_eq!(r2.summary.as_deref(), Some("Found 1 logs"));
}

#[test]
fn source_tags_and_health() {
    assert_eq!(source_backend("elasticsearch"), Some(Backend::Elastic));
    assert_eq!(source_backend("openobserve"), Some(Backend::OpenObserve));
    assert_eq!(source_backend("splunk"), None);
    let h = health();
    assert_eq!(h.status, "healthy");
    assert!(h.ai_enabled);
}

#[test]
fn engine_model_defaults() {
    let e = AIEngine::new("test-key".into(), None).ok().unwrap();
    assert_eq!(e.model, "gpt-4o-mini");
    let f = AIEngine::new("k".into(), Some("gpt-4o".into())).ok().unwrap();
    assert_eq!(f.model, "gpt-4o");
}

#[test]
fn filters_overwrite_in_place() {
    let mut f = vec![("a".to_string(), "1".to_string()), ("b".to_string(), "2".to_string())];
    set_filter(&mut f, "a".into(), "9".into());
    set_filter(&mut f, "c".into(), "3".into());
    assert_eq!(f, vec![("a".into(), "9".into()), ("b".into(), "2".into()), ("c".into(), "3".into())]);
}

#[test]
fn text_helpers() {
    assert_eq!(int_to_text(-120), "-120");
    assert_eq!(int_to_text(0), "0");
    assert_eq!(int_to_text(i128::MIN), i128::MIN.to_string());
    assert!(has_prefix("https://x", "https"));
    assert!(!has_prefix("http", "https"));
    assert_eq!(trim_end_char("a///", '/'), "a");
    assert!(matches!(parse_json("{\"a\":[1,true,null]}"), Some(JsonValue::Object(_))));
    assert!(parse_json("").is_none());
}
