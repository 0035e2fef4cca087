//! The web search tool: what it is asked for and what it reports.
use vstd::prelude::*;
use vstd::string::*;

use crate::error;
use crate::error::{Failure, ToolError};
use crate::json;
use crate::json::{Json, Shape};
use crate::rss::arguments;
use crate::text;
use crate::tools::outcome;

verus! {

pub const WEB_SEARCH_TOOL_NAME: &'static str = "web_search";

pub const WEB_SEARCH_QUERY_MAX_LENGTH: usize = 200;

pub const WEB_SEARCH_MAX_RESULTS_LIMIT: u8 = 10;

#[derive(Debug)]
pub struct WebSearchToolRequest {
    pub query: String,
    pub raw_question: Option<String>,
    pub max_results: Option<u8>,
    pub context_size: Option<String>,
    pub model_override: Option<String>,
}

/// What the search service is asked for.
#[derive(Debug)]
pub struct QueryRequest {
    pub query: String,
    pub raw_question: Option<String>,
    pub max_results: Option<u8>,
    pub context_size: Option<String>,
    pub model_override: Option<String>,
}

#[derive(Debug)]
pub struct QuerySource {
    pub title: String,
    pub url: String,
    pub snippet: String,
}

/// What the search service found.
#[derive(Debug)]
pub struct QueryOutcome {
    pub answer: String,
    pub sources: Vec<QuerySource>,
    pub provider: String,
    pub elapsed_ms: u64,
}

#[derive(Debug)]
pub struct WebSearchTool {}

/// The query, which has to be there and not be too long.
pub open spec fn query_in(arguments: Json) -> Result<Seq<char>, Failure> {
    match outcome::field(arguments, "query"@) {
        None => Err(error::bad_arguments("web_search requires non-empty query"@)),
        Some(s) => if s.len() > WEB_SEARCH_QUERY_MAX_LENGTH {
            Err(error::bad_arguments("query is too long"@))
        } else {
            Ok(s)
        },
    }
}

pub fn parse_query(arguments: &Json) -> (r: Result<String, ToolError>)
    ensures
        arguments::text_shown(r) == query_in(*arguments),
{
    match outcome::string_field(arguments, "query") {
        None => Err(error::reject_bad_arguments("web_search requires non-empty query")),
        Some(s) => {
            let len: usize = s.as_str().unicode_len();
            if len > WEB_SEARCH_QUERY_MAX_LENGTH {
                Err(error::reject_bad_arguments("query is too long"))
            } else {
                Ok(s)
            }
        },
    }
}

/// How many results are wanted, if that is said.
pub open spec fn max_results_in(v: Option<Json>) -> Result<Option<u8>, Failure> {
    match v {
        None => Ok(None),
        Some(Json::Null) => Ok(None),
        Some(Json::Whole(n)) => if 1 <= n <= WEB_SEARCH_MAX_RESULTS_LIMIT {
            Ok(Some(n as u8))
        } else {
            Err(error::bad_arguments("max_results must be an integer between 1 and 10 or null"@))
        },
        Some(_) => Err(error::bad_arguments("max_results must be an integer between 1 and 10 or null"@)),
    }
}

pub open spec fn count_shown(r: Result<Option<u8>, ToolError>) -> Result<Option<u8>, Failure> {
    match r {
        Ok(n) => Ok(n),
        Err(e) => Err(e.shown()),
    }
}

pub fn parse_max_results(value: Option<&Json>) -> (r: Result<Option<u8>, ToolError>)
    ensures
        count_shown(r) == max_results_in(arguments::found(value)),
{
    match value {
        None => Ok(None),
        Some(Json::Null) => Ok(None),
        Some(Json::Whole(n)) if 1 <= *n && *n <= WEB_SEARCH_MAX_RESULTS_LIMIT as u64 => Ok(Some(*n as u8)),
        Some(_) => Err(
            error::reject_bad_arguments("max_results must be an integer between 1 and 10 or null"),
        ),
    }
}

/// How much context is wanted, if that is said.
pub open spec fn context_size_in(v: Option<Json>) -> Result<Option<Seq<char>>, Failure> {
    match v {
        None => Ok(None),
        Some(Json::Null) => Ok(None),
        Some(Json::Text(s)) => {
            let t = text::trimmed(s@);
            if t == "low"@ || t == "medium"@ || t == "high"@ {
                Ok(Some(t))
            } else {
                Err(error::bad_arguments("context_size must be low, medium, high, or null"@))
            }
        },
        Some(_) => Err(error::bad_arguments("context_size must be low, medium, high, or null"@)),
    }
}

pub fn parse_context_size(value: Option<&Json>) -> (r: Result<Option<String>, ToolError>)
    ensures
        arguments::option_shown(r) == context_size_in(arguments::found(value)),
{
    match value {
        None => Ok(None),
        Some(Json::Null) => Ok(None),
        Some(Json::Text(s)) => {
            let t = text::trim(s.as_str());
            if text::same(t, "low") || text::same(t, "medium") || text::same(t, "high") {
                Ok(Some(t.to_owned()))
            } else {
                Err(error::reject_bad_arguments("context_size must be low, medium, high, or null"))
            }
        },
        Some(_) => Err(error::reject_bad_arguments("context_size must be low, medium, high, or null")),
    }
}

/// Whether the request is the one that the arguments ask for. The model can be chosen only
/// where the call did not come from a model.
pub open spec fn is_request(r: Result<WebSearchToolRequest, ToolError>, from_model: bool, arguments: Json) -> bool {
    match query_in(arguments) {
        Err(f) => r matches Err(e) && e.shown() == f,
        Ok(query) => match max_results_in(arguments.entry("max_results"@)) {
            Err(f) => r matches Err(e) && e.shown() == f,
            Ok(max_results) => match context_size_in(arguments.entry("context_size"@)) {
                Err(f) => r matches Err(e) && e.shown() == f,
                Ok(context_size) => {
                    &&& r matches Ok(q)
                    &&& q.query@ == query
                    &&& text::opt_view(q.raw_question) == outcome::field(arguments, "raw_question"@)
                    &&& q.max_results == max_results
                    &&& text::opt_view(q.context_size) == context_size
                    &&& text::opt_view(q.model_override) == (if from_model {
                        None
                    } else {
                        outcome::field(arguments, "model_override"@)
                    })
                },
            },
        },
    }
}

/// `from_model` says whether the call has an id, which a model's calls have.
pub fn request_from_arguments(from_model: bool, arguments: &Json) -> (r: Result<WebSearchToolRequest, ToolError>)
    ensures
        is_request(r, from_model, *arguments),
{
    let model_override = if from_model {
        None
    } else {
        outcome::string_field(arguments, "model_override")
    };
    let query = match parse_query(arguments) {
        Ok(s) => s,
        Err(e) => {
            return Err(e);
        },
    };
    let raw_question = outcome::string_field(arguments, "raw_question");
    let max_results = match parse_max_results(arguments.get("max_results")) {
        Ok(n) => n,
        Err(e) => {
            return Err(e);
        },
    };
    match parse_context_size(arguments.get("context_size")) {
        Ok(context_size) => Ok(
            WebSearchToolRequest { query, raw_question, max_results, context_size, model_override },
        ),
        Err(e) => Err(e),
    }
}

pub open spec fn source_shape(s: QuerySource) -> Shape {
    Shape::Object(
        seq![
            ("snippet"@, Shape::Text(s.snippet@)),
            ("title"@, Shape::Text(s.title@)),
            ("url"@, Shape::Text(s.url@)),
        ],
    )
}

pub fn web_search_source_json(source: &QuerySource) -> (r: Json)
    ensures
        r.shape() == source_shape(*source),
{
    let mut o: Vec<(String, Json)> = Vec::new();
    json::put(&mut o, "snippet", Json::Text(source.snippet.clone()));
    json::put(&mut o, "title", Json::Text(source.title.clone()));
    json::put(&mut o, "url", Json::Text(source.url.clone()));
    assert(json::entry_shapes(o@) =~= source_shape(*source)->Object_0);
    Json::Object(o)
}

pub open spec fn source_shapes(sources: Seq<QuerySource>) -> Seq<Shape> {
    Seq::new(sources.len(), |i: int| source_shape(sources[i]))
}

pub open spec fn output_shape(outcome: QueryOutcome) -> Shape {
    Shape::Object(
        seq![
            ("answer"@, Shape::Text(outcome.answer@)),
            ("elapsed_ms"@, Shape::Whole(outcome.elapsed_ms)),
            ("provider"@, Shape::Text(outcome.provider@)),
            ("sources"@, Shape::List(source_shapes(outcome.sources@))),
        ],
    )
}

/// The report of a search.
pub fn web_search_tool_output(outcome: &QueryOutcome) -> (r: Json)
    ensures
        r.shape() == output_shape(*outcome),
{
    let ghost all = source_shapes(outcome.sources@);
    let mut sources: Vec<Json> = Vec::new();
    let mut i: usize = 0;
    while i < outcome.sources.len()
        invariant
            0 <= i <= outcome.sources@.len(),
            all == source_shapes(outcome.sources@),
            json::shapes(sources@) == all.take(i as int),
        decreases outcome.sources@.len() - i,
    {
        json::append_item(&mut sources, web_search_source_json(&outcome.sources[i]));
        assert(json::shapes(sources@) =~= all.take(i + 1));
        i += 1;
    }
    assert(all.take(i as int) =~= all);
    let mut o: Vec<(String, Json)> = Vec::new();
    json::put(&mut o, "answer", Json::Text(outcome.answer.clone()));
    json::put(&mut o, "elapsed_ms", Json::Whole(outcome.elapsed_ms));
    json::put(&mut o, "provider", Json::Text(outcome.provider.clone()));
    json::put(&mut o, "sources", Json::List(sources));
    assert(json::entry_shapes(o@) =~= output_shape(*outcome)->Object_0);
    Json::Object(o)
}

impl WebSearchTool {
    pub fn new() -> (r: Self)
        ensures
            r == (WebSearchTool {  }),
    {
        WebSearchTool {  }
    }

    /// What the search service is asked for.
    pub fn query(&self, req: WebSearchToolRequest) -> (r: QueryRequest)
        ensures
            r == (QueryRequest {
                query: req.query,
                raw_question: req.raw_question,
                max_results: req.max_results,
                context_size: req.context_size,
                model_override: req.model_override,
            }),
    {
        QueryRequest {
            query: req.query,
            raw_question: req.raw_question,
            max_results: req.max_results,
            context_size: req.context_size,
            model_override: req.model_override,
        }
    }

    /// What the search service is asked for on a call of the tool.
    pub fn execute(&self, from_model: bool, arguments: &Json) -> (r: Result<QueryRequest, ToolError>)
        ensures
            exists|q: Result<WebSearchToolRequest, ToolError>| #[trigger]
                is_request(q, from_model, *arguments) && (match q {
                    Ok(req) => r == Ok::<QueryRequest, ToolError>(
                        QueryRequest {
                            query: req.query,
                            raw_question: req.raw_question,
                            max_results: req.max_results,
                            context_size: req.context_size,
                            model_override: req.model_override,
                        },
                    ),
                    Err(e) => r == Err::<QueryRequest, ToolError>(e),
                }),
    {
        match request_from_arguments(from_model, arguments) {
            Ok(req) => {
                assert(is_request(Ok(req), from_model, *arguments));
                Ok(self.query(req))
            },
            Err(e) => {
                assert(is_request(Err(e), from_model, *arguments));
                Err(e)
            },
        }
    }
}

} // verus!
