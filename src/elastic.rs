//! The Elasticsearch-style dialect: a search becomes a boolean query of
//! `must` clauses, and the store's hits become canonical entries.
use vstd::prelude::*;
use crate::json::{JsonValue, parse_json, quote_json, json_quoted, parsed_json, member_or_null, take_member};
use crate::models::{SearchParams, LogEntry, ClientError, SearchError, opt_view, filters_view};
use crate::normalize::{Backend, normalize_documents, kept_documents, entry_of, object_members};
use crate::text::{joined, texts_view, nat_text, replaced, replace_all, has_char, has_prefix, join_texts, nat_to_text};

verus! {

#[verifier::external_type_specification]
#[verifier::external_body]
pub struct ExElasticsearch(elasticsearch::Elasticsearch);

#[verifier::external_type_specification]
#[verifier::external_body]
pub struct ExTransport(elasticsearch::http::transport::Transport);

#[verifier::external_type_specification]
#[verifier::external_body]
pub struct ExElasticsearchError(elasticsearch::Error);

/// Relies on elasticsearch::http::transport::Transport::single_node: a
/// transport to the one node at `url`, or an error exactly where
/// `Url::parse` refuses the URL. With this build's features (rustls, no
/// client certificate, no proxy, no custom roots) building the HTTP client
/// has no other failure.
pub assume_specification[ elasticsearch::http::transport::Transport::single_node ](url: &str) -> (r: Result<elasticsearch::http::transport::Transport, elasticsearch::Error>)
    ensures
        r is Ok <==> crate::openobserve::url_parses(url@),
;

/// Relies on elasticsearch::Elasticsearch::new: a client over a transport.
pub assume_specification[ elasticsearch::Elasticsearch::new ](transport: elasticsearch::http::transport::Transport) -> elasticsearch::Elasticsearch;

/// The URL of the node, with the user name and password written into it
/// when both are given and the URL holds no `@` yet.
pub open spec fn node_url(url: Seq<char>, username: Option<Seq<char>>, password: Option<Seq<char>>) -> Seq<char> {
    match (username, password) {
        (Some(u), Some(p)) => if url.contains('@') {
            url
        } else {
            let base = replaced(replaced(url, "http://"@, Seq::empty()), "https://"@, Seq::empty());
            let protocol = if "https"@.is_prefix_of(url) { "https"@ } else { "http"@ };
            protocol + "://"@ + u + ":"@ + p + "@"@ + base
        },
        _ => url,
    }
}

/// The clause that matches `q` as a query string over the message fields
/// and every other field.
pub open spec fn text_clause(q: Seq<char>) -> Seq<char> {
    "{\"query_string\":{\"query\":"@ + json_quoted(q) + ",\"fields\":[\"message\",\"log\",\"msg\",\"*\"]}}"@
}

/// The clause that keeps entries newer than the window `t` before now.
pub open spec fn range_clause(t: Seq<char>) -> Seq<char> {
    "{\"range\":{\"@timestamp\":{\"gte\":"@ + json_quoted("now-"@ + t) + "}}}"@
}

/// The clause that a field holds exactly a value.
pub open spec fn term_clause(field: Seq<char>, value: Seq<char>) -> Seq<char> {
    "{\"term\":{"@ + json_quoted(field) + ":"@ + json_quoted(value) + "}}"@
}

/// The clause that matches every entry.
pub open spec fn match_all_clause() -> Seq<char> {
    "{\"match_all\":{}}"@
}

/// The clauses of a search, in order: text, time, then one per filter.
pub open spec fn search_clauses(p: SearchParams) -> Seq<Seq<char>> {
    (if p.query@.len() > 0 { seq![text_clause(p.query@)] } else { Seq::empty() })
    + (match opt_view(p.time_range) {
        Some(t) => seq![range_clause(t)],
        None => Seq::empty(),
    })
    + filters_view(p.filters@).map_values(|f: (Seq<char>, Seq<char>)| term_clause(f.0, f.1))
}

/// The `must` list: the clauses, or match-all where there are none.
pub open spec fn must_clauses(p: SearchParams) -> Seq<Seq<char>> {
    if search_clauses(p).len() == 0 {
        seq![match_all_clause()]
    } else {
        search_clauses(p)
    }
}

/// The search body: the `must` list, the result cap, newest first.
pub open spec fn search_body_of(p: SearchParams) -> Seq<char> {
    "{\"query\":{\"bool\":{\"must\":["@ + joined(must_clauses(p), ","@) + "]}},\"size\":"@
    + nat_text(p.size as nat) + ",\"sort\":[{\"@timestamp\":{\"order\":\"desc\"}}]}"@
}

/// The hits of an answer, `hits.hits`, where it is an array.
pub open spec fn answer_hits(body: Seq<char>) -> Option<Seq<JsonValue>> {
    match parsed_json(body) {
        Some(v) => match member_or_null(member_or_null(v, "hits"@), "hits"@) {
            JsonValue::Array(h) => Some(h@),
            _ => None,
        },
        None => None,
    }
}

/// The source document of each hit, null where a hit has none.
pub open spec fn hit_sources(hits: Seq<JsonValue>) -> Seq<JsonValue> {
    hits.map_values(|h: JsonValue| member_or_null(h, "_source"@))
}

/// A client for one Elasticsearch-style node.
pub struct ElasticsearchClient {
    pub client: elasticsearch::Elasticsearch,
    pub node_url: String,
}

fn take_sources(hits: Vec<JsonValue>) -> (r: Vec<JsonValue>)
    ensures
        r@ == hit_sources(hits@),
{
    let ghost all = hits@;
    let n = hits.len();
    let mut rest = hits;
    let mut out: Vec<JsonValue> = Vec::new();
    let mut i: usize = 0;
    while i < n
        invariant
            n == all.len(),
            i <= n,
            rest@ == all.subrange(i as int, n as int),
            out@ =~= hit_sources(all.subrange(0, i as int)),
        decreases n - i,
    {
        let h = rest.remove(0);
        proof {
            assert(h == all[i as int]);
            assert(rest@ =~= all.subrange(i + 1, n as int));
        }
        out.push(take_member(h, "_source"));
        proof {
            assert(out@ =~= hit_sources(all.subrange(0, i + 1)));
        }
        i = i + 1;
    }
    proof {
        assert(all.subrange(0, n as int) =~= all);
    }
    out
}

/// The URL of the node, with credentials written in where both are given.
pub fn build_node_url(url: &str, username: Option<&str>, password: Option<&str>) -> (r: String)
    ensures
        r@ == node_url(url@, match username { Some(u) => Some(u@), None => None },
            match password { Some(p) => Some(p@), None => None }),
{
    match (username, password) {
        (Some(user), Some(pass)) => {
            if has_char(url, '@') {
                String::from_str(url)
            } else {
                proof {
                    reveal_strlit("");
                    reveal_strlit("http://");
                    reveal_strlit("https://");
                    assert(""@ =~= Seq::<char>::empty());
                }
                let stripped = replace_all(url, "http://", "");
                let base = replace_all(stripped.as_str(), "https://", "");
                let mut out = if has_prefix(url, "https") {
                    String::from_str("https")
                } else {
                    String::from_str("http")
                };
                out.append("://");
                out.append(user);
                out.append(":");
                out.append(pass);
                out.append("@");
                out.append(base.as_str());
                proof {
                    assert(out@ =~= node_url(url@, Some(user@), Some(pass@)));
                }
                out
            }
        },
        _ => String::from_str(url),
    }
}

/// The search body for a search.
pub fn search_body(params: &SearchParams) -> (r: String)
    ensures
        r@ == search_body_of(*params),
{
    let mut clauses: Vec<String> = Vec::new();
    let ghost text_part: Seq<Seq<char>> = if params.query@.len() > 0 { seq![text_clause(params.query@)] } else { Seq::empty() };
    let ghost time_part: Seq<Seq<char>> = match opt_view(params.time_range) {
        Some(t) => seq![range_clause(t)],
        None => Seq::empty(),
    };
    let ghost fv = filters_view(params.filters@);
    if params.query.unicode_len() > 0 {
        let mut c = String::from_str("{\"query_string\":{\"query\":");
        let q = quote_json(params.query.as_str());
        c.append(q.as_str());
        c.append(",\"fields\":[\"message\",\"log\",\"msg\",\"*\"]}}");
        proof {
            assert(c@ =~= text_clause(params.query@));
        }
        clauses.push(c);
    }
    proof {
        assert(texts_view(clauses@) =~= text_part);
    }
    match &params.time_range {
        Some(t) => {
            let mut window = String::from_str("now-");
            window.append(t.as_str());
            let mut c = String::from_str("{\"range\":{\"@timestamp\":{\"gte\":");
            let w = quote_json(window.as_str());
            c.append(w.as_str());
            c.append("}}}");
            proof {
                assert(c@ =~= range_clause(t@));
            }
            let ghost before = texts_view(clauses@);
            let ghost cv = c@;
            clauses.push(c);
            proof {
                assert(texts_view(clauses@) =~= before.push(cv));
            }
        },
        None => {},
    }
    proof {
        assert(texts_view(clauses@) =~= text_part + time_part);
    }
    let n = params.filters.len();
    let mut i: usize = 0;
    while i < n
        invariant
            n == params.filters@.len(),
            fv == filters_view(params.filters@),
            i <= n,
            texts_view(clauses@) =~= text_part + time_part
                + fv.subrange(0, i as int).map_values(|f: (Seq<char>, Seq<char>)| term_clause(f.0, f.1)),
        decreases n - i,
    {
        let mut c = String::from_str("{\"term\":{");
        let k = quote_json(params.filters[i].0.as_str());
        c.append(k.as_str());
        c.append(":");
        let v = quote_json(params.filters[i].1.as_str());
        c.append(v.as_str());
        c.append("}}");
        let ghost before = texts_view(clauses@);
        let ghost cv = c@;
        clauses.push(c);
        proof {
            assert(texts_view(clauses@) =~= before.push(cv));
            assert(fv[i as int] == (params.filters@[i as int].0@, params.filters@[i as int].1@));
            assert(cv =~= term_clause(fv[i as int].0, fv[i as int].1));
            assert(fv.subrange(0, i + 1).map_values(|f: (Seq<char>, Seq<char>)| term_clause(f.0, f.1))
                =~= fv.subrange(0, i as int).map_values(|f: (Seq<char>, Seq<char>)| term_clause(f.0, f.1))
                    .push(term_clause(fv[i as int].0, fv[i as int].1)));
        }
        i = i + 1;
    }
    proof {
        assert(fv.subrange(0, n as int) =~= fv);
        assert(texts_view(clauses@) =~= search_clauses(*params));
    }
    if clauses.len() == 0 {
        clauses.push(String::from_str("{\"match_all\":{}}"));
        proof {
            assert(texts_view(clauses@) =~= seq![match_all_clause()]);
        }
    }
    let mut out = String::from_str("{\"query\":{\"bool\":{\"must\":[");
    let joined_clauses = join_texts(&clauses, ",");
    out.append(joined_clauses.as_str());
    out.append("]}},\"size\":");
    let size_text = nat_to_text(params.size as u128);
    out.append(size_text.as_str());
    out.append(",\"sort\":[{\"@timestamp\":{\"order\":\"desc\"}}]}");
    proof {
        assert(out@ =~= search_body_of(*params));
    }
    out
}

impl ElasticsearchClient {
    /// A client for the node at `url`, signed in with the user name and
    /// password when both are given. A node URL that does not parse is a
    /// configuration error.
    pub fn new(url: &str, username: Option<&str>, password: Option<&str>) -> (r: Result<Self, ClientError>)
        ensures
            r is Ok <==> crate::openobserve::url_parses(node_url(url@, match username { Some(u) => Some(u@), None => None },
                match password { Some(p) => Some(p@), None => None })),
            r matches Ok(c) ==> c.node_url@ == node_url(url@, match username { Some(u) => Some(u@), None => None },
                match password { Some(p) => Some(p@), None => None }),
    {
        let target = build_node_url(url, username, password);
        match elasticsearch::http::transport::Transport::single_node(target.as_str()) {
            Ok(transport) => Ok(ElasticsearchClient { client: elasticsearch::Elasticsearch::new(transport), node_url: target }),
            Err(e) => Err(ClientError::InvalidConfig(e.to_string())),
        }
    }

    /// The index patterns a search covers.
    pub fn index_patterns() -> (r: Vec<&'static str>)
        ensures
            r@.len() == 3 && r@[0]@ == "logs-*"@ && r@[1]@ == "filebeat-*"@ && r@[2]@ == "logstash-*"@,
    {
        vec!["logs-*", "filebeat-*", "logstash-*"]
    }

    /// The entries of a search answer: an invalid response where the body
    /// holds no `hits.hits` array, else the sources of the hits that take the
    /// canonical shape.
    pub fn read_response(body: &str) -> (r: Result<Vec<LogEntry>, SearchError>)
        ensures
            match answer_hits(body@) {
                None => r matches Err(SearchError::InvalidResponse),
                Some(hits) => r matches Ok(entries)
                    && entries@.len() == kept_documents(hit_sources(hits), Backend::Elastic).len()
                    && forall|j: int| 0 <= j < entries@.len() ==> entry_of(#[trigger] entries@[j],
                        object_members(kept_documents(hit_sources(hits), Backend::Elastic)[j]),
                        Backend::Elastic),
            },
    {
        match parse_json(body) {
            Some(v) => {
                let outer = take_member(v, "hits");
                match take_member(outer, "hits") {
                    JsonValue::Array(hits) => {
                        let sources = take_sources(hits);
                        Ok(normalize_documents(sources, Backend::Elastic))
                    },
                    _ => Err(SearchError::InvalidResponse),
                }
            },
            None => Err(SearchError::InvalidResponse),
        }
    }
}

/// A search has one clause for non-empty keywords, one for a time window and
/// one per filter; the `must` list is never empty, and is match-all exactly
/// when there is no clause.
pub proof fn lemma_must_clauses(p: SearchParams)
    ensures
        search_clauses(p).len() == (if p.query@.len() > 0 { 1int } else { 0int })
            + (if p.time_range is Some { 1int } else { 0int }) + p.filters@.len(),
        must_clauses(p).len() >= 1,
        search_clauses(p).len() == 0 ==> must_clauses(p) == seq![match_all_clause()],
{
}

} // verus!

