//! The SQL-style dialect: a search becomes one `SELECT` statement whose
//! values are quoted, and the store's answer becomes canonical entries.
use vstd::prelude::*;
use crate::json::{JsonValue, parse_json, quote_json, json_quoted, member};
use crate::models::{SearchParams, LogEntry, LogSourceConfig, ClientError, SearchError, opt_view, filters_view};
use crate::normalize::{Backend, normalize_documents, kept_documents, entry_of, object_members};
use crate::text::{sql_escaped, sql_quoted, joined, texts_view, int_text, nat_text, trim_end, push_sql_escaped, push_sql_quoted, join_texts, int_to_text, nat_to_text, trim_end_char, has_prefix, like_escaped, like_literal};
use crate::time_range::{window_start, window_start_at, now_millis};

verus! {

/// Where an SQL-style store is and how to sign in to it.
pub struct OpenObserveClient {
    pub base_url: String,
    pub username: String,
    pub password: String,
    pub organization: String,
}

/// Whether the url crate's `Url::parse` accepts a text as an absolute URL
/// (reqwest re-exports it; the elasticsearch transport calls it).
pub uninterp spec fn url_parses(s: Seq<char>) -> bool;

/// Relies on reqwest::Url::parse (the url crate's parser): whether the text
/// is an absolute URL. The answer depends on the text alone.
#[verifier::external_body]
fn parses_as_url(s: &str) -> (r: bool)
    ensures
        r == url_parses(s@),
{
    reqwest::Url::parse(s).is_ok()
}

/// A usable base URL: it parses and its scheme is `http` or `https`.
pub open spec fn base_url_valid(u: Seq<char>) -> bool {
    url_parses(u) && ("http://"@.is_prefix_of(u) || "https://"@.is_prefix_of(u))
}

/// The message of the error for an unusable base URL.
pub open spec fn invalid_url_message(u: Seq<char>) -> Seq<char> {
    "invalid OpenObserve URL: "@ + u
}

/// The predicate that `message` or `log` contains `q`: `q` is a literal
/// part of the LIKE pattern, its wildcards escaped.
pub open spec fn text_condition(q: Seq<char>) -> Seq<char> {
    "(message LIKE '%"@ + sql_escaped(like_escaped(q), '\'') + "%' ESCAPE '\\' OR log LIKE '%"@
    + sql_escaped(like_escaped(q), '\'') + "%' ESCAPE '\\')"@
}

/// The predicate that keeps entries newer than `start`.
pub open spec fn time_condition(start: int) -> Seq<char> {
    "_timestamp > "@ + int_text(start)
}

/// The predicate that a field equals a value.
pub open spec fn filter_condition(field: Seq<char>, value: Seq<char>) -> Seq<char> {
    sql_quoted(field, '"') + " = "@ + sql_quoted(value, '\'')
}

/// The predicates of a search, in order: text, time, then one per filter.
pub open spec fn sql_conditions(p: SearchParams, now_ms: int) -> Seq<Seq<char>> {
    (if p.query@.len() > 0 { seq![text_condition(p.query@)] } else { Seq::empty() })
    + (match p.time_range {
        Some(t) => seq![time_condition(window_start(t@, now_ms))],
        None => Seq::empty(),
    })
    + filters_view(p.filters@).map_values(|f: (Seq<char>, Seq<char>)| filter_condition(f.0, f.1))
}

/// The statement for a search at time `now_ms`: no `WHERE` clause when
/// there is no predicate, the predicates joined with `AND` otherwise.
pub open spec fn sql_query(p: SearchParams, now_ms: int) -> Seq<char> {
    let c = sql_conditions(p, now_ms);
    "SELECT * FROM default "@
    + (if c.len() == 0 { Seq::empty() } else { "WHERE "@ + joined(c, " AND "@) + " "@ })
    + "ORDER BY _timestamp DESC LIMIT "@ + nat_text(p.size as nat)
}

/// The search endpoint of an organization's default stream.
pub open spec fn search_url_of(base_url: Seq<char>, organization: Seq<char>) -> Seq<char> {
    trim_end(base_url, '/') + "/api/"@ + organization + "/default/_search"@
}

/// The request body that carries a statement and a result cap.
pub open spec fn request_body_of(sql: Seq<char>, size: nat) -> Seq<char> {
    "{\"query\":{\"sql\":"@ + json_quoted(sql) + ",\"size\":"@ + nat_text(size) + "}}"@
}

/// The hits of an answer whose body is `body`, where they form an array.
pub open spec fn response_hits(body: Seq<char>) -> Option<Seq<JsonValue>> {
    match crate::json::parsed_json(body) {
        Some(v) => match member(v, "hits"@) {
            Some(JsonValue::Array(hits)) => Some(hits@),
            _ => None,
        },
        None => None,
    }
}

fn filter_condition_text(field: &str, value: &str) -> (r: String)
    ensures
        r@ == filter_condition(field@, value@),
{
    let mut out = String::new();
    push_sql_quoted(&mut out, field, '"');
    out.append(" = ");
    push_sql_quoted(&mut out, value, '\'');
    proof {
        assert(out@ =~= filter_condition(field@, value@));
    }
    out
}

/// The statement for a search at time `now_ms`.
pub fn sql_query_at(params: &SearchParams, now_ms: i64) -> (r: String)
    ensures
        r@ == sql_query(*params, now_ms as int),
{
    let mut conds: Vec<String> = Vec::new();
    let ghost text_part: Seq<Seq<char>> = if params.query@.len() > 0 { seq![text_condition(params.query@)] } else { Seq::empty() };
    let ghost time_part: Seq<Seq<char>> = match opt_view(params.time_range) {
        Some(t) => seq![time_condition(window_start(t, now_ms as int))],
        None => Seq::empty(),
    };
    let ghost fv = filters_view(params.filters@);
    if params.query.unicode_len() > 0 {
        let pattern = like_literal(params.query.as_str());
        let mut c = String::from_str("(message LIKE '%");
        push_sql_escaped(&mut c, pattern.as_str(), '\'');
        c.append("%' ESCAPE '\\' OR log LIKE '%");
        push_sql_escaped(&mut c, pattern.as_str(), '\'');
        c.append("%' ESCAPE '\\')");
        proof {
            assert(c@ =~= text_condition(params.query@));
        }
        conds.push(c);
    }
    proof {
        assert(texts_view(conds@) =~= text_part);
    }
    match &params.time_range {
        Some(t) => {
            let start = window_start_at(t.as_str(), now_ms);
            let mut c = String::from_str("_timestamp > ");
            let digits = int_to_text(start);
            c.append(digits.as_str());
            conds.push(c);
        },
        None => {},
    }
    proof {
        assert(texts_view(conds@) =~= text_part + time_part);
    }
    let base = conds.len();
    let n = params.filters.len();
    let mut i: usize = 0;
    while i < n
        invariant
            n == params.filters@.len(),
            fv == filters_view(params.filters@),
            i <= n,
            base == (text_part + time_part).len(),
            texts_view(conds@) =~= text_part + time_part
                + fv.subrange(0, i as int).map_values(|f: (Seq<char>, Seq<char>)| filter_condition(f.0, f.1)),
        decreases n - i,
    {
        let c = filter_condition_text(params.filters[i].0.as_str(), params.filters[i].1.as_str());
        let ghost before = texts_view(conds@);
        let ghost cv = c@;
        conds.push(c);
        proof {
            assert(texts_view(conds@) =~= before.push(cv));
            assert(fv[i as int] == (params.filters@[i as int].0@, params.filters@[i as int].1@));
            assert(fv.subrange(0, i + 1).map_values(|f: (Seq<char>, Seq<char>)| filter_condition(f.0, f.1))
                =~= fv.subrange(0, i as int).map_values(|f: (Seq<char>, Seq<char>)| filter_condition(f.0, f.1))
                    .push(filter_condition(fv[i as int].0, fv[i as int].1)));
            assert(texts_view(conds@) =~= text_part + time_part
                + fv.subrange(0, i + 1).map_values(|f: (Seq<char>, Seq<char>)| filter_condition(f.0, f.1)));
        }
        i = i + 1;
    }
    proof {
        assert(fv.subrange(0, n as int) =~= fv);
        assert(texts_view(conds@) =~= sql_conditions(*params, now_ms as int));
    }
    let mut out = String::from_str("SELECT * FROM default ");
    if conds.len() > 0 {
        out.append("WHERE ");
        let w = join_texts(&conds, " AND ");
        out.append(w.as_str());
        out.append(" ");
    }
    out.append("ORDER BY _timestamp DESC LIMIT ");
    let size_text = nat_to_text(params.size as u128);
    out.append(size_text.as_str());
    proof {
        assert(out@ =~= sql_query(*params, now_ms as int));
    }
    out
}

impl OpenObserveClient {
    /// A client for the store at `base_url`. A base URL that does not parse,
    /// or whose scheme is not `http` or `https`, is a configuration error.
    pub fn new(base_url: String, username: String, password: String, organization: String) -> (r: Result<Self, ClientError>)
        ensures
            r is Err <==> !base_url_valid(base_url@),
            r matches Err(ClientError::InvalidConfig(m)) ==> m@ == invalid_url_message(base_url@),
            r matches Ok(c) ==> c.base_url == base_url && c.username == username && c.password == password
                && c.organization == organization,
    {
        let scheme_ok = has_prefix(base_url.as_str(), "http://") || has_prefix(base_url.as_str(), "https://");
        if !(parses_as_url(base_url.as_str()) && scheme_ok) {
            let mut m = String::from_str("invalid OpenObserve URL: ");
            m.append(base_url.as_str());
            return Err(ClientError::InvalidConfig(m));
        }
        Ok(OpenObserveClient { base_url, username, password, organization })
    }

    /// A client from a source configuration: a missing user name or password
    /// is empty, a missing organization is `default`; an unusable URL is a
    /// configuration error.
    pub fn from_config(config: &LogSourceConfig) -> (r: Result<Self, ClientError>)
        ensures
            r is Err <==> !base_url_valid(config.url@),
            r matches Err(ClientError::InvalidConfig(m)) ==> m@ == invalid_url_message(config.url@),
            r matches Ok(c) ==> c.base_url@ == config.url@
                && c.username@ == (match config.username { Some(u) => u@, None => Seq::empty() })
                && c.password@ == (match config.password { Some(p) => p@, None => Seq::empty() })
                && c.organization@ == (match config.organization { Some(o) => o@, None => "default"@ }),
    {
        let username = match &config.username {
            Some(u) => u.clone(),
            None => String::new(),
        };
        let password = match &config.password {
            Some(p) => p.clone(),
            None => String::new(),
        };
        let organization = match &config.organization {
            Some(o) => o.clone(),
            None => String::from_str("default"),
        };
        OpenObserveClient::new(config.url.clone(), username, password, organization)
    }

    /// The search endpoint of this client's organization.
    pub fn search_url(&self) -> (r: String)
        ensures
            r@ == search_url_of(self.base_url@, self.organization@),
    {
        let mut out = trim_end_char(self.base_url.as_str(), '/');
        out.append("/api/");
        out.append(self.organization.as_str());
        out.append("/default/_search");
        proof {
            assert(out@ =~= search_url_of(self.base_url@, self.organization@));
        }
        out
    }

    /// The statement for a search, its time window ending now.
    pub fn build_sql_query(&self, params: &SearchParams) -> (r: String)
        ensures
            exists|now: i64| r@ == sql_query(*params, now as int),
    {
        let now = now_millis();
        sql_query_at(params, now)
    }

    /// The epoch-millisecond start of the window that `range` names, ending
    /// now.
    pub fn parse_time_range(&self, range: &str) -> (r: i128)
        ensures
            exists|now: i64| r == window_start(range@, now as int),
    {
        let now = now_millis();
        window_start_at(range, now)
    }

    /// The request body that carries a statement and a result cap.
    pub fn request_body(sql: &str, size: usize) -> (r: String)
        ensures
            r@ == request_body_of(sql@, size as nat),
    {
        let mut out = String::from_str("{\"query\":{\"sql\":");
        let q = quote_json(sql);
        out.append(q.as_str());
        out.append(",\"size\":");
        let n = nat_to_text(size as u128);
        out.append(n.as_str());
        out.append("}}");
        proof {
            assert(out@ =~= request_body_of(sql@, size as nat));
        }
        out
    }

    /// The entries of the store's answer: an upstream error for a status
    /// outside 200..=299, an invalid response where the body holds no `hits`
    /// array, else the hits that take the canonical shape.
    pub fn read_response(status: u16, body: &str) -> (r: Result<Vec<LogEntry>, SearchError>)
        ensures
            !(200 <= status <= 299) ==> (r matches Err(SearchError::Upstream { status: s, body: b }) && s == status && b@ == body@),
            200 <= status <= 299 ==> match response_hits(body@) {
                None => r matches Err(SearchError::InvalidResponse),
                Some(hits) => r matches Ok(entries) && entries@.len() == kept_documents(hits, Backend::OpenObserve).len()
                    && forall|j: int| 0 <= j < entries@.len() ==> entry_of(#[trigger] entries@[j],
                        object_members(kept_documents(hits, Backend::OpenObserve)[j]), Backend::OpenObserve),
            },
    {
        if status < 200 || status > 299 {
            return Err(SearchError::Upstream { status, body: String::from_str(body) });
        }
        match parse_json(body) {
            Some(JsonValue::Object(m)) => {
                let mut rest = m;
                match crate::json::find_member(&rest, "hits") {
                    Some(i) => {
                        let (_, hits) = rest.remove(i);
                        match hits {
                            JsonValue::Array(docs) => Ok(normalize_documents(docs, Backend::OpenObserve)),
                            _ => Err(SearchError::InvalidResponse),
                        }
                    },
                    None => Err(SearchError::InvalidResponse),
                }
            },
            _ => Err(SearchError::InvalidResponse),
        }
    }
}

/// A statement has one predicate for non-empty keywords, one for a time
/// window and one per filter; with none, it has no `WHERE` clause.
pub proof fn lemma_sql_conditions(p: SearchParams, now_ms: int)
    ensures
        sql_conditions(p, now_ms).len() == (if p.query@.len() > 0 { 1int } else { 0int })
            + (if p.time_range is Some { 1int } else { 0int }) + p.filters@.len(),
        sql_conditions(p, now_ms).len() == 0 ==> sql_query(p, now_ms)
            == "SELECT * FROM default "@ + "ORDER BY _timestamp DESC LIMIT "@ + nat_text(p.size as nat),
{
    assert(Seq::<char>::empty() + "ORDER BY _timestamp DESC LIMIT "@ =~= "ORDER BY _timestamp DESC LIMIT "@);
    if sql_conditions(p, now_ms).len() == 0 {
        assert("SELECT * FROM default "@ + Seq::<char>::empty() =~= "SELECT * FROM default "@);
    }
}

} // verus!

