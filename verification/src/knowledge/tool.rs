//! The tool by which a model searches the notes: its arguments, and evidence cut to the room
//! that a result may take.
use vstd::prelude::*;
use vstd::string::*;

use crate::error::ToolError;
use crate::json;
use crate::json::Json;
use crate::knowledge::evidence;
use crate::knowledge::evidence::{
    KnowledgeEvidence, KnowledgeEvidenceDiagnostics, KnowledgeEvidenceItem, KnowledgeEvidenceStatus,
    KnowledgeInjectionDecision, KnowledgeRecallType, KnowledgeTruncationReason,
};
use crate::text;

verus! {

pub const KNOWLEDGE_SEARCH_TOOL_NAME: &'static str = "knowledge_search";

pub const MAX_QUERY_CHARS: usize = 2000;

pub const MAX_QUERIES: usize = 4;

pub const MAX_RESULTS: usize = 8;

/// What stands behind a text that was cut.
pub const BODY_TRUNCATION_MARKER: &'static str = "\n[正文因字符预算已裁剪]";

#[derive(Debug)]
pub struct KnowledgeSearchTool {
    pub output_max_chars: usize,
}

impl KnowledgeSearchTool {
    pub fn new(output_max_chars: usize) -> (r: Self)
        ensures
            r == (KnowledgeSearchTool { output_max_chars }),
    {
        KnowledgeSearchTool { output_max_chars }
    }
}

// Arguments.

/// What a search is asked for.
#[derive(Debug)]
pub struct SearchArguments {
    pub queries: Vec<String>,
    pub max_results: usize,
}


/// A query without blanks around it, if there is one.
pub open spec fn query_in(o: Option<Seq<char>>) -> Option<Seq<char>> {
    match o {
        Some(s) => if text::blank(s) {
            None
        } else {
            Some(text::trimmed(s))
        },
        None => None,
    }
}

fn clean_query(o: Option<&str>) -> (r: Option<String>)
    ensures
        text::opt_view(r) == query_in(text::opt_str_view(o)),
{
    match o {
        Some(s) => {
            if text::is_blank(s) {
                None
            } else {
                Some(text::trim(s).to_owned())
            }
        },
        None => None,
    }
}

/// How many results are wanted: all that can be had, or a number from one on.
pub open spec fn wanted_results(v: Option<Json>) -> Option<usize> {
    match v {
        None => Some(MAX_RESULTS),
        Some(Json::Null) => Some(MAX_RESULTS),
        Some(Json::Whole(n)) => if 1 <= n <= MAX_RESULTS {
            Some(n as usize)
        } else {
            None
        },
        _ => None,
    }
}

pub fn parse_max_results(value: Option<&Json>) -> (r: Result<usize, ToolError>)
    ensures
        match wanted_results(if value is Some {
            Some(*value->0)
        } else {
            None
        }) {
            Some(n) => r == Ok::<usize, ToolError>(n),
            None => r matches Err(e) && e.says(
                "bad_tool_arguments"@,
                "max_results must be an integer between 1 and 8 or null"@,
                "tool"@,
            ),
        },
{
    match value {
        None => Ok(MAX_RESULTS),
        Some(Json::Null) => Ok(MAX_RESULTS),
        Some(Json::Whole(n)) if 1 <= *n && *n <= MAX_RESULTS as u64 => Ok(*n as usize),
        _ => Err(
            ToolError::new(
                "bad_tool_arguments",
                "max_results must be an integer between 1 and 8 or null",
                "tool",
            ),
        ),
    }
}

/// The queries with the further ones, each once; nothing where one is blank or too long.
pub open spec fn with_more(queries: Seq<Seq<char>>, more: Seq<Json>) -> Option<Seq<Seq<char>>>
    decreases more.len(),
{
    if more.len() == 0 {
        Some(queries)
    } else {
        match with_more(queries, more.drop_last()) {
            None => None,
            Some(q) => match query_in(more.last().words()) {
                None => None,
                Some(s) => if s.len() > MAX_QUERY_CHARS {
                    None
                } else if q.contains(s) {
                    Some(q)
                } else {
                    Some(q.push(s))
                },
            },
        }
    }
}

/// All queries: the first, and one to three further ones.
pub open spec fn all_queries(primary: Seq<char>, v: Option<Json>) -> Option<Seq<Seq<char>>> {
    match v {
        None => Some(seq![primary]),
        Some(Json::Null) => Some(seq![primary]),
        Some(Json::List(more)) => if 1 <= more@.len() < MAX_QUERIES {
            with_more(seq![primary], more@)
        } else {
            None
        },
        _ => None,
    }
}

fn invalid_additional_queries() -> (e: ToolError)
    ensures
        e.says(
            "bad_tool_arguments"@,
            "additional_queries must be null or an array of 1 to 3 non-empty queries"@,
            "tool"@,
        ),
{
    ToolError::new(
        "bad_tool_arguments",
        "additional_queries must be null or an array of 1 to 3 non-empty queries",
        "tool",
    )
}

fn is_listed(queries: &Vec<String>, q: &String) -> (r: bool)
    ensures
        r == text::views(queries@).contains(q@),
{
    let mut i: usize = 0;
    while i < queries.len()
        invariant
            0 <= i <= queries@.len(),
            forall|k: int| 0 <= k < i ==> (#[trigger] queries@[k])@ != q@,
        decreases queries@.len() - i,
    {
        if queries[i] == *q {
            assert(text::views(queries@)[i as int] == q@);
            return true;
        }
        i += 1;
    }
    proof {
        if text::views(queries@).contains(q@) {
            let k = choose|k: int|
                0 <= k < text::views(queries@).len() && text::views(queries@)[k] == q@;
            assert(queries@[k]@ == q@);
        }
    }
    false
}

pub fn parse_queries(primary: &str, value: Option<&Json>) -> (r: Result<Vec<String>, ToolError>)
    ensures
        match all_queries(primary@, if value is Some {
            Some(*value->0)
        } else {
            None
        }) {
            Some(q) => r matches Ok(v) && text::views(v@) == q,
            None => r matches Err(e) && e.says(
                "bad_tool_arguments"@,
                "additional_queries must be null or an array of 1 to 3 non-empty queries"@,
                "tool"@,
            ),
        },
{
    let mut queries: Vec<String> = Vec::new();
    queries.push(primary.to_owned());
    assert(text::views(queries@) =~= seq![primary@]);
    match value {
        None => Ok(queries),
        Some(Json::Null) => Ok(queries),
        Some(Json::List(more)) => {
            if more.len() < 1 || more.len() >= MAX_QUERIES {
                return Err(invalid_additional_queries());
            }
            let ghost start = seq![primary@];
            let mut i: usize = 0;
            assert(more@.take(0) =~= Seq::empty());
            while i < more.len()
                invariant
                    0 <= i <= more@.len(),
                    1 <= more@.len() < MAX_QUERIES,
                    start == seq![primary@],
                    value == Some(&Json::List(*more)),
                    with_more(start, more@.take(i as int)) == Some(text::views(queries@)),
                decreases more@.len() - i,
            {
                proof {
                    assert(more@.take(i + 1).drop_last() =~= more@.take(i as int));
                    assert(more@.take(i + 1).last() == more@[i as int]);
                }
                let next = match clean_query(more[i].as_str()) {
                    Some(q) => {
                        let n: usize = q.as_str().unicode_len();
                        if n > MAX_QUERY_CHARS {
                            None
                        } else {
                            Some(q)
                        }
                    },
                    None => None,
                };
                match next {
                    Some(q) => {
                        if !is_listed(&queries, &q) {
                            let ghost before = text::views(queries@);
                            let ghost added = q@;
                            queries.push(q);
                            assert(text::views(queries@) =~= before.push(added));
                        }
                    },
                    None => {
                        proof {
                            lemma_with_more_fails(start, more@, i + 1);
                        }
                        return Err(invalid_additional_queries());
                    },
                }
                i += 1;
            }
            assert(more@.take(i as int) =~= more@);
            Ok(queries)
        },
        _ => Err(invalid_additional_queries()),
    }
}

proof fn lemma_with_more_fails(queries: Seq<Seq<char>>, more: Seq<Json>, i: int)
    requires
        0 <= i <= more.len(),
        with_more(queries, more.take(i)) is None,
    ensures
        with_more(queries, more) is None,
    decreases more.len() - i,
{
    if i == more.len() {
        assert(more.take(i) =~= more);
    } else {
        assert(more.take(i + 1).drop_last() =~= more.take(i));
        lemma_with_more_fails(queries, more, i + 1);
    }
}

/// What the arguments ask for, or what is wrong with them: the query first, then the number
/// of results, then the further queries.
pub open spec fn is_parsed(r: Result<SearchArguments, ToolError>, arguments: Json) -> bool {
    match query_in(arguments.words_at("query"@)) {
        None => r matches Err(e) && e.says(
            "bad_tool_arguments"@,
            "knowledge_search requires a non-empty query"@,
            "tool"@,
        ),
        Some(q) => if q.len() > MAX_QUERY_CHARS {
            r matches Err(e) && e.says(
                "bad_tool_arguments"@,
                "knowledge_search query is too long"@,
                "tool"@,
            )
        } else {
            match (
                wanted_results(arguments.entry("max_results"@)),
                all_queries(q, arguments.entry("additional_queries"@)),
            ) {
                (None, _) => r matches Err(e) && e.says(
                    "bad_tool_arguments"@,
                    "max_results must be an integer between 1 and 8 or null"@,
                    "tool"@,
                ),
                (Some(_), None) => r matches Err(e) && e.says(
                    "bad_tool_arguments"@,
                    "additional_queries must be null or an array of 1 to 3 non-empty queries"@,
                    "tool"@,
                ),
                (Some(n), Some(all)) => r matches Ok(a) && a.max_results == n && text::views(
                    a.queries@,
                ) == all,
            }
        },
    }
}

pub fn parse_arguments(arguments: &Json) -> (r: Result<SearchArguments, ToolError>)
    ensures
        is_parsed(r, *arguments),
{
    let query = match clean_query(arguments.get_str("query")) {
        Some(q) => q,
        None => {
            return Err(
                ToolError::new(
                    "bad_tool_arguments",
                    "knowledge_search requires a non-empty query",
                    "tool",
                ),
            );
        },
    };
    let n: usize = query.as_str().unicode_len();
    if n > MAX_QUERY_CHARS {
        return Err(
            ToolError::new("bad_tool_arguments", "knowledge_search query is too long", "tool"),
        );
    }
    let max_results = match parse_max_results(arguments.get("max_results")) {
        Ok(n) => n,
        Err(e) => {
            return Err(e);
        },
    };
    match parse_queries(query.as_str(), arguments.get("additional_queries")) {
        Ok(queries) => Ok(SearchArguments { queries, max_results }),
        Err(e) => Err(e),
    }
}

// As many results as wanted.

pub open spec fn is_section(item: KnowledgeEvidenceItem) -> bool {
    item.recall_type == KnowledgeRecallType::Section
}

pub open spec fn hits(items: Seq<KnowledgeEvidenceItem>) -> Seq<KnowledgeEvidenceItem> {
    items.filter(|i: KnowledgeEvidenceItem| !is_section(i))
}

pub open spec fn extras(items: Seq<KnowledgeEvidenceItem>) -> Seq<KnowledgeEvidenceItem> {
    items.filter(|i: KnowledgeEvidenceItem| is_section(i))
}

pub open spec fn at_most(items: Seq<KnowledgeEvidenceItem>, n: int) -> Seq<KnowledgeEvidenceItem> {
    if items.len() <= n {
        items
    } else {
        items.take(n)
    }
}

/// The items that stay: those that were found before those around them.
pub open spec fn prioritized(items: Seq<KnowledgeEvidenceItem>, n: int) -> Seq<KnowledgeEvidenceItem> {
    let first = at_most(hits(items), n);
    first + at_most(extras(items), n - first.len())
}

fn pick(items: &Vec<KnowledgeEvidenceItem>, section: bool) -> (r: Vec<KnowledgeEvidenceItem>)
    ensures
        section ==> r@ == extras(items@),
        !section ==> r@ == hits(items@),
{
    let ghost p = |i: KnowledgeEvidenceItem| is_section(i);
    let ghost q = |i: KnowledgeEvidenceItem| !is_section(i);
    let mut out: Vec<KnowledgeEvidenceItem> = Vec::new();
    let mut i: usize = 0;
    proof {
        reveal(Seq::filter);
        assert(items@.take(0) =~= Seq::empty());
        assert(out@ =~= items@.take(0).filter(p));
        assert(out@ =~= items@.take(0).filter(q));
    }
    while i < items.len()
        invariant
            0 <= i <= items@.len(),
            p == (|i: KnowledgeEvidenceItem| is_section(i)),
            q == (|i: KnowledgeEvidenceItem| !is_section(i)),
            section ==> out@ == items@.take(i as int).filter(p),
            !section ==> out@ == items@.take(i as int).filter(q),
        decreases items@.len() - i,
    {
        proof {
            reveal(Seq::filter);
            assert(items@.take(i + 1).drop_last() =~= items@.take(i as int));
            assert(items@.take(i + 1).last() == items@[i as int]);
        }
        if (items[i].recall_type == KnowledgeRecallType::Section) == section {
            out.push(items[i].clone());
        }
        i += 1;
    }
    assert(items@.take(i as int) =~= items@);
    out
}

pub fn retain_prioritized_items(items: &Vec<KnowledgeEvidenceItem>, max_results: usize) -> (r: Vec<
    KnowledgeEvidenceItem,
>)
    ensures
        r@ == prioritized(items@, max_results as int),
{
    let mut out = pick(items, false);
    if out.len() > max_results {
        out.truncate(max_results);
    }
    let more = pick(items, true);
    let room: usize = max_results - out.len();
    let ghost first = out@;
    let n: usize = if more.len() <= room {
        more.len()
    } else {
        room
    };
    let mut i: usize = 0;
    assert(first + more@.take(0) =~= first);
    while i < n
        invariant
            0 <= i <= n <= more@.len(),
            out@ == first + more@.take(i as int),
        decreases n - i,
    {
        out.push(more[i].clone());
        assert(out@ =~= first + more@.take(i + 1));
        i += 1;
    }
    assert(more@.take(n as int) =~= at_most(extras(items@), room as int));
    out
}

/// The evidence with no more items than wanted.
pub open spec fn is_limited(after: KnowledgeEvidence, before: KnowledgeEvidence, max_results: int) -> bool {
    if max_results >= before.items@.len() {
        after == before
    } else {
        &&& after.items@ == prioritized(before.items@, max_results)
        &&& after.status == KnowledgeEvidenceStatus::Truncated
        &&& after.injection == before.injection
        &&& after.failure == before.failure
        &&& after.diagnostics.truncation_reasons@ == evidence::with_reason(
            before.diagnostics.truncation_reasons@,
            KnowledgeTruncationReason::ResultLimit,
        )
        &&& after.diagnostics == (KnowledgeEvidenceDiagnostics {
            returned_chunk_count: after.items@.len() as usize,
            source_count: evidence::sources(after.items@) as usize,
            truncation_reasons: after.diagnostics.truncation_reasons,
            ..before.diagnostics
        })
    }
}

pub fn limit_evidence(evidence: KnowledgeEvidence, max_results: usize) -> (r: KnowledgeEvidence)
    ensures
        is_limited(r, evidence, max_results as int),
{
    let mut e = evidence;
    if max_results < e.items.len() {
        let items = retain_prioritized_items(&e.items, max_results);
        e.items = items;
        e.diagnostics.returned_chunk_count = e.items.len();
        e.diagnostics.source_count = evidence::count_sources(&e.items);
        evidence::push_reason_once(
            &mut e.diagnostics.truncation_reasons,
            KnowledgeTruncationReason::ResultLimit,
        );
        e.status = KnowledgeEvidenceStatus::Truncated;
    }
    e
}

// The result as JSON.

pub open spec fn status_text(s: KnowledgeEvidenceStatus) -> Seq<char> {
    match s {
        KnowledgeEvidenceStatus::Complete => "已返回本地知识证据。"@,
        KnowledgeEvidenceStatus::NoHit => "本地知识库没有找到相关证据，不要据此编造结论。"@,
        KnowledgeEvidenceStatus::LowRelevance => "找到的片段相关性不足，不要把它们当作可靠证据。"@,
        KnowledgeEvidenceStatus::Truncated => "证据结果已截断，只能基于已返回片段回答并说明限制。"@,
        KnowledgeEvidenceStatus::Failed => "知识检索失败，不能据此生成知识库结论。"@,
    }
}

pub fn status_message(s: KnowledgeEvidenceStatus) -> (r: &'static str)
    ensures
        r@ == status_text(s),
{
    match s {
        KnowledgeEvidenceStatus::Complete => "已返回本地知识证据。",
        KnowledgeEvidenceStatus::NoHit => "本地知识库没有找到相关证据，不要据此编造结论。",
        KnowledgeEvidenceStatus::LowRelevance => "找到的片段相关性不足，不要把它们当作可靠证据。",
        KnowledgeEvidenceStatus::Truncated => "证据结果已截断，只能基于已返回片段回答并说明限制。",
        KnowledgeEvidenceStatus::Failed => "知识检索失败，不能据此生成知识库结论。",
    }
}

/// Whether the value is the text, or nothing where there is none.
pub open spec fn is_words(v: Json, o: Option<Seq<char>>) -> bool {
    match o {
        Some(s) => v.words() == Some(s),
        None => v is Null,
    }
}

fn text_or_null(o: &Option<String>) -> (r: Json)
    ensures
        is_words(r, text::opt_view(*o)),
{
    match o {
        Some(s) => Json::Text(s.clone()),
        None => Json::Null,
    }
}

/// Whether the value is the number as it is written, or nothing.
pub open spec fn is_decimal(v: Json, o: Option<Seq<char>>) -> bool {
    match o {
        Some(s) => v matches Json::Decimal(t) && t@ == s,
        None => v is Null,
    }
}

fn decimal_or_null(o: &Option<String>) -> (r: Json)
    ensures
        is_decimal(r, text::opt_view(*o)),
{
    match o {
        Some(s) => Json::Decimal(s.clone()),
        None => Json::Null,
    }
}

pub open spec fn is_line(v: Json, o: Option<usize>) -> bool {
    match o {
        Some(n) => v == Json::Whole(n as u64),
        None => v is Null,
    }
}

fn line_or_null(o: Option<usize>) -> (r: Json)
    ensures
        is_line(r, o),
{
    match o {
        Some(n) => Json::Whole(n as u64),
        None => Json::Null,
    }
}

/// Whether the value shows the item, key by key in alphabetical order.
pub open spec fn is_item_value(v: Json, item: KnowledgeEvidenceItem) -> bool {
    &&& v matches Json::Object(o)
    &&& o@.len() == 9
    &&& o@[0].0@ == "body_excerpt"@ && o@[0].1.words() == Some(item.body_excerpt@)
    &&& o@[1].0@ == "chunk_id"@ && o@[1].1.words() == Some(item.chunk_id@)
    &&& o@[2].0@ == "document_title"@ && is_words(o@[2].1, text::opt_view(item.document_title))
    &&& o@[3].0@ == "end_line"@ && is_line(o@[3].1, item.end_line)
    &&& o@[4].0@ == "heading_path"@ && is_words(o@[4].1, text::opt_view(item.heading_path))
    &&& o@[5].0@ == "recall_type"@ && o@[5].1.words() == Some(
        evidence::recall_name(item.recall_type),
    )
    &&& o@[6].0@ == "relative_path"@ && o@[6].1.words() == Some(item.relative_path@)
    &&& o@[7].0@ == "score"@ && is_decimal(o@[7].1, text::opt_view(item.score))
    &&& o@[8].0@ == "start_line"@ && is_line(o@[8].1, item.start_line)
}

fn item_value(item: &KnowledgeEvidenceItem) -> (r: Json)
    ensures
        is_item_value(r, *item),
{
    let mut entries: Vec<(String, Json)> = Vec::new();
    entries.push(("body_excerpt".to_owned(), Json::Text(item.body_excerpt.clone())));
    entries.push(("chunk_id".to_owned(), Json::Text(item.chunk_id.clone())));
    entries.push(("document_title".to_owned(), text_or_null(&item.document_title)));
    entries.push(("end_line".to_owned(), line_or_null(item.end_line)));
    entries.push(("heading_path".to_owned(), text_or_null(&item.heading_path)));
    entries.push(("recall_type".to_owned(), Json::Text(item.recall_type.as_str().to_owned())));
    entries.push(("relative_path".to_owned(), Json::Text(item.relative_path.clone())));
    entries.push(("score".to_owned(), decimal_or_null(&item.score)));
    entries.push(("start_line".to_owned(), line_or_null(item.start_line)));
    Json::Object(entries)
}

pub open spec fn are_reasons(l: Seq<Json>, reasons: Seq<KnowledgeTruncationReason>) -> bool {
    l.len() == reasons.len() && forall|i: int|
        0 <= i < l.len() ==> (#[trigger] l[i]).words() == Some(evidence::truncation_name(reasons[i]))
}

pub open spec fn is_diagnostics_value(v: Json, d: KnowledgeEvidenceDiagnostics) -> bool {
    v matches Json::Object(o) && are_diagnostics(o@, d)
}

pub open spec fn are_diagnostics(e: Seq<(String, Json)>, d: KnowledgeEvidenceDiagnostics) -> bool {
    &&& e.len() == 19
    &&& e[0].0@ == "duplicate_body_filtered_count"@
    &&& e[0].1 == Json::Whole(d.duplicate_body_filtered_count as u64)
    &&& e[1].0@ == "duplicate_section_filtered_count"@
    &&& e[1].1 == Json::Whole(d.duplicate_section_filtered_count as u64)
    &&& e[2].0@ == "expanded_chunk_count"@
    &&& e[2].1 == Json::Whole(d.expanded_chunk_count as u64)
    &&& e[3].0@ == "fts_candidate_count"@
    &&& e[3].1 == Json::Whole(d.fts_candidate_count as u64)
    &&& e[4].0@ == "fused_candidate_count"@
    &&& e[4].1 == Json::Whole(d.fused_candidate_count as u64)
    &&& e[5].0@ == "latency_ms"@
    &&& e[5].1 == Json::Whole(d.latency_ms)
    &&& e[6].0@ == "low_relevance_filtered_count"@
    &&& e[6].1 == Json::Whole(d.low_relevance_filtered_count as u64)
    &&& e[7].0@ == "per_file_filtered_count"@
    &&& e[7].1 == Json::Whole(d.per_file_filtered_count as u64)
    &&& e[8].0@ == "query_count"@
    &&& e[8].1 == Json::Whole(d.query_count as u64)
    &&& e[9].0@ == "query_fingerprint"@
    &&& e[9].1.words() == Some(d.query_fingerprint@)
    &&& e[10].0@ == "query_token_count"@
    &&& e[10].1 == Json::Whole(d.query_token_count as u64)
    &&& e[11].0@ == "returned_chunk_count"@
    &&& e[11].1 == Json::Whole(d.returned_chunk_count as u64)
    &&& e[12].0@ == "section_expanded_count"@
    &&& e[12].1 == Json::Whole(d.section_expanded_count as u64)
    &&& e[13].0@ == "selected_hit_count"@
    &&& e[13].1 == Json::Whole(d.selected_hit_count as u64)
    &&& e[14].0@ == "semantic_candidate_count"@
    &&& e[14].1 == Json::Whole(d.semantic_candidate_count as u64)
    &&& e[15].0@ == "source_count"@
    &&& e[15].1 == Json::Whole(d.source_count as u64)
    &&& e[16].0@ == "top_lexical_coverage"@
    &&& is_decimal(e[16].1, text::opt_view(d.top_lexical_coverage))
    &&& e[17].0@ == "top_semantic_similarity"@
    &&& is_decimal(e[17].1, text::opt_view(d.top_semantic_similarity))
    &&& e[18].0@ == "truncation_reasons"@
    &&& e[18].1 matches Json::List(l) && are_reasons(l@, d.truncation_reasons@)
}

fn diagnostics_value(d: &KnowledgeEvidenceDiagnostics) -> (r: Json)
    ensures
        is_diagnostics_value(r, *d),
{
    let mut reasons: Vec<Json> = Vec::new();
    let mut i: usize = 0;
    while i < d.truncation_reasons.len()
        invariant
            0 <= i <= d.truncation_reasons@.len(),
            reasons@.len() == i,
            forall|k: int|
                0 <= k < i ==> (#[trigger] reasons@[k]).words() == Some(
                    evidence::truncation_name(d.truncation_reasons@[k]),
                ),
        decreases d.truncation_reasons@.len() - i,
    {
        reasons.push(Json::Text(d.truncation_reasons[i].as_str().to_owned()));
        i += 1;
    }
    let mut entries: Vec<(String, Json)> = Vec::new();
    entries.push(("duplicate_body_filtered_count".to_owned(), Json::Whole(d.duplicate_body_filtered_count as u64)));
    entries.push(("duplicate_section_filtered_count".to_owned(), Json::Whole(d.duplicate_section_filtered_count as u64)));
    entries.push(("expanded_chunk_count".to_owned(), Json::Whole(d.expanded_chunk_count as u64)));
    entries.push(("fts_candidate_count".to_owned(), Json::Whole(d.fts_candidate_count as u64)));
    entries.push(("fused_candidate_count".to_owned(), Json::Whole(d.fused_candidate_count as u64)));
    entries.push(("latency_ms".to_owned(), Json::Whole(d.latency_ms)));
    entries.push(("low_relevance_filtered_count".to_owned(), Json::Whole(d.low_relevance_filtered_count as u64)));
    entries.push(("per_file_filtered_count".to_owned(), Json::Whole(d.per_file_filtered_count as u64)));
    entries.push(("query_count".to_owned(), Json::Whole(d.query_count as u64)));
    entries.push(("query_fingerprint".to_owned(), Json::Text(d.query_fingerprint.clone())));
    entries.push(("query_token_count".to_owned(), Json::Whole(d.query_token_count as u64)));
    entries.push(("returned_chunk_count".to_owned(), Json::Whole(d.returned_chunk_count as u64)));
    entries.push(("section_expanded_count".to_owned(), Json::Whole(d.section_expanded_count as u64)));
    entries.push(("selected_hit_count".to_owned(), Json::Whole(d.selected_hit_count as u64)));
    entries.push(("semantic_candidate_count".to_owned(), Json::Whole(d.semantic_candidate_count as u64)));
    entries.push(("source_count".to_owned(), Json::Whole(d.source_count as u64)));
    entries.push(("top_lexical_coverage".to_owned(), decimal_or_null(&d.top_lexical_coverage)));
    entries.push(("top_semantic_similarity".to_owned(), decimal_or_null(&d.top_semantic_similarity)));
    entries.push(("truncation_reasons".to_owned(), Json::List(reasons)));
    Json::Object(entries)
}

pub open spec fn is_injection_value(v: Json, d: KnowledgeInjectionDecision) -> bool {
    &&& v matches Json::Object(o)
    &&& o@.len() == 3
    &&& o@[0].0@ == "allow_injection"@ && o@[0].1 == Json::Bool(d.allow_injection)
    &&& o@[1].0@ == "reason"@ && o@[1].1.words() == Some(evidence::injection_name(d.reason))
    &&& o@[2].0@ == "threshold_version"@ && o@[2].1.words() == Some(d.threshold_version@)
}

fn injection_value(d: &KnowledgeInjectionDecision) -> (r: Json)
    ensures
        is_injection_value(r, *d),
{
    let mut entries: Vec<(String, Json)> = Vec::new();
    entries.push(("allow_injection".to_owned(), Json::Bool(d.allow_injection)));
    entries.push(("reason".to_owned(), Json::Text(d.reason.as_str().to_owned())));
    entries.push(("threshold_version".to_owned(), Json::Text(d.threshold_version.clone())));
    Json::Object(entries)
}

pub open spec fn failure_code(e: KnowledgeEvidence) -> Option<Seq<char>> {
    match e.failure {
        Some(f) => Some(f.error_code@),
        None => None,
    }
}

pub open spec fn is_failure_value(v: Json, code: Option<Seq<char>>) -> bool {
    match code {
        Some(c) => v matches Json::Object(o) && o@.len() == 1 && o@[0].0@ == "error_code"@
            && o@[0].1.words() == Some(c),
        None => v is Null,
    }
}

pub open spec fn are_item_values(l: Seq<Json>, items: Seq<KnowledgeEvidenceItem>) -> bool {
    l.len() == items.len() && forall|i: int| 0 <= i < l.len() ==> is_item_value(#[trigger] l[i], items[i])
}

/// Whether the value shows the evidence, key by key in alphabetical order.
pub open spec fn is_value(v: Json, e: KnowledgeEvidence) -> bool {
    &&& v matches Json::Object(o)
    &&& o@.len() == 8
    &&& o@[0].0@ == "diagnostics"@ && is_diagnostics_value(o@[0].1, e.diagnostics)
    &&& o@[1].0@ == "error_code"@ && is_words(o@[1].1, failure_code(e))
    &&& o@[2].0@ == "failure"@ && is_failure_value(o@[2].1, failure_code(e))
    &&& o@[3].0@ == "injection"@ && is_injection_value(o@[3].1, e.injection)
    &&& o@[4].0@ == "items"@ && (o@[4].1 matches Json::List(l) && are_item_values(l@, e.items@))
    &&& o@[5].0@ == "message"@ && o@[5].1.words() == Some(status_text(e.status))
    &&& o@[6].0@ == "ok"@ && o@[6].1 == Json::Bool(e.status != KnowledgeEvidenceStatus::Failed)
    &&& o@[7].0@ == "status"@ && o@[7].1.words() == Some(evidence::status_name(e.status))
}

pub fn evidence_value(e: &KnowledgeEvidence) -> (r: Json)
    ensures
        is_value(r, *e),
{
    let mut items: Vec<Json> = Vec::new();
    let mut i: usize = 0;
    while i < e.items.len()
        invariant
            0 <= i <= e.items@.len(),
            items@.len() == i,
            forall|k: int| 0 <= k < i ==> is_item_value(#[trigger] items@[k], e.items@[k]),
        decreases e.items@.len() - i,
    {
        items.push(item_value(&e.items[i]));
        i += 1;
    }
    let error_code = match &e.failure {
        Some(f) => Json::Text(f.error_code.clone()),
        None => Json::Null,
    };
    let failure = match &e.failure {
        Some(f) => {
            let mut inner: Vec<(String, Json)> = Vec::new();
            inner.push(("error_code".to_owned(), Json::Text(f.error_code.clone())));
            Json::Object(inner)
        },
        None => Json::Null,
    };
    let mut entries: Vec<(String, Json)> = Vec::new();
    entries.push(("diagnostics".to_owned(), diagnostics_value(&e.diagnostics)));
    entries.push(("error_code".to_owned(), error_code));
    entries.push(("failure".to_owned(), failure));
    entries.push(("injection".to_owned(), injection_value(&e.injection)));
    entries.push(("items".to_owned(), Json::List(items)));
    entries.push(("message".to_owned(), Json::Text(status_message(e.status).to_owned())));
    entries.push(("ok".to_owned(), Json::Bool(e.status != KnowledgeEvidenceStatus::Failed)));
    entries.push(("status".to_owned(), Json::Text(e.status.as_str().to_owned())));
    Json::Object(entries)
}

// Cutting.

/// The text without the mark of a cut.
pub open spec fn unmarked(s: Seq<char>) -> Seq<char> {
    match text::before(s, BODY_TRUNCATION_MARKER@) {
        Some(t) => t,
        None => s,
    }
}

/// Half of the text, or less where that with the mark would be longer, and the mark.
pub open spec fn halved(s: Seq<char>) -> Seq<char> {
    let content = unmarked(s);
    let marker = BODY_TRUNCATION_MARKER@.len();
    let limit = if content.len() >= marker {
        content.len() - marker
    } else {
        0
    };
    let half = content.len() as int / 2;
    content.take(if half <= limit {
        half
    } else {
        limit
    }) + BODY_TRUNCATION_MARKER@
}

pub fn truncated_excerpt(current: &str) -> (r: String)
    ensures
        r@ == halved(current@),
{
    let marker: usize = BODY_TRUNCATION_MARKER.unicode_len();
    let content = match text::strip_suffix(current, BODY_TRUNCATION_MARKER) {
        Some(t) => t,
        None => current,
    };
    let n: usize = content.unicode_len();
    let limit: usize = if n >= marker {
        n - marker
    } else {
        0
    };
    let half: usize = n / 2;
    let keep: usize = if half <= limit {
        half
    } else {
        limit
    };
    let first = text::take_chars(content, keep);
    assert(first@ =~= content@.take(keep as int));
    let mut s = first.to_owned();
    s.append(BODY_TRUNCATION_MARKER);
    s
}

/// Whether the last of the items around those found is at `i`.
pub open spec fn is_last_extra(items: Seq<KnowledgeEvidenceItem>, i: int) -> bool {
    0 <= i < items.len() && is_section(items[i]) && forall|j: int|
        i < j < items.len() ==> !is_section(#[trigger] items[j])
}

/// Whether the last of the longest texts is at `i`.
pub open spec fn is_longest(items: Seq<KnowledgeEvidenceItem>, i: int) -> bool {
    &&& 0 <= i < items.len()
    &&& forall|j: int| 0 <= j < i ==> (#[trigger] items[j]).body_excerpt@.len() <= items[i].body_excerpt@.len()
    &&& forall|j: int|
        i < j < items.len() ==> (#[trigger] items[j]).body_excerpt@.len() < items[i].body_excerpt@.len()
}

/// Status, decision and failure, and the numbers but those of the items.
pub open spec fn is_marked(after: KnowledgeEvidence, before: KnowledgeEvidence, original: KnowledgeEvidenceStatus) -> bool {
    &&& after.injection == before.injection
    &&& after.failure == before.failure
    &&& after.status == (if original == KnowledgeEvidenceStatus::Complete {
        KnowledgeEvidenceStatus::Truncated
    } else {
        before.status
    })
    &&& after.diagnostics.truncation_reasons@ == evidence::with_reason(
        before.diagnostics.truncation_reasons@,
        KnowledgeTruncationReason::CharacterBudget,
    )
    &&& after.diagnostics == (KnowledgeEvidenceDiagnostics {
        returned_chunk_count: after.diagnostics.returned_chunk_count,
        source_count: after.diagnostics.source_count,
        truncation_reasons: after.diagnostics.truncation_reasons,
        ..before.diagnostics
    })
}

pub open spec fn is_dropped(
    after: KnowledgeEvidence,
    before: KnowledgeEvidence,
    i: int,
    original: KnowledgeEvidenceStatus,
) -> bool {
    &&& is_marked(after, before, original)
    &&& after.items@ == before.items@.remove(i)
    &&& after.diagnostics.returned_chunk_count == after.items@.len()
    &&& after.diagnostics.source_count == evidence::sources(after.items@)
}

pub open spec fn is_shortened(
    after: KnowledgeEvidence,
    before: KnowledgeEvidence,
    i: int,
    original: KnowledgeEvidenceStatus,
) -> bool {
    &&& is_marked(after, before, original)
    &&& after.diagnostics.returned_chunk_count == before.diagnostics.returned_chunk_count
    &&& after.diagnostics.source_count == before.diagnostics.source_count
    &&& after.items@.len() == before.items@.len()
    &&& forall|j: int| 0 <= j < after.items@.len() && j != i ==> #[trigger] after.items@[j] == before.items@[j]
    &&& after.items@[i].body_excerpt@ == halved(before.items@[i].body_excerpt@)
    &&& after.items@[i] == (KnowledgeEvidenceItem {
        body_excerpt: after.items@[i].body_excerpt,
        ..before.items@[i]
    })
}

/// One step of making evidence smaller: the last item around those found goes; where there is
/// none, the longest text is halved, or its item goes where it cannot get shorter.
pub open spec fn is_step(after: KnowledgeEvidence, before: KnowledgeEvidence, original: KnowledgeEvidenceStatus) -> bool {
    if exists|i: int| is_last_extra(before.items@, i) {
        is_dropped(after, before, choose|i: int| is_last_extra(before.items@, i), original)
    } else {
        let i = choose|i: int| is_longest(before.items@, i);
        let s = before.items@[i].body_excerpt@;
        if halved(s) == s {
            is_dropped(after, before, i, original)
        } else {
            is_shortened(after, before, i, original)
        }
    }
}

/// Whether the evidence takes more room than there is.
pub open spec fn is_too_long(e: KnowledgeEvidence, max_chars: int) -> bool {
    exists|v: Json| #[trigger] is_value(v, e) && json::written(v).len() > max_chars
}

pub open spec fn fits(e: KnowledgeEvidence, max_chars: int) -> bool {
    exists|v: Json| #[trigger] is_value(v, e) && json::written(v).len() <= max_chars
}

/// Whether the trace leads step by step from evidence that is too long to evidence that fits
/// or has no items left.
pub open spec fn is_trace(trace: Seq<KnowledgeEvidence>, given: KnowledgeEvidence, max_chars: int) -> bool {
    &&& trace.len() > 0
    &&& trace[0] == given
    &&& forall|i: int|
        0 <= i < trace.len() - 1 ==> is_step(#[trigger] trace[i + 1], trace[i], given.status)
            && is_too_long(trace[i], max_chars) && trace[i].items@.len() > 0
    &&& fits(trace.last(), max_chars) || trace.last().items@.len() == 0
}

/// What is left to cut: grows with every item and every text.
spec fn size(items: Seq<KnowledgeEvidenceItem>) -> nat
    decreases items.len(),
{
    if items.len() == 0 {
        0
    } else {
        size(items.drop_last()) + item_size(items.last().body_excerpt@)
    }
}

spec fn item_size(s: Seq<char>) -> nat {
    match text::before(s, BODY_TRUNCATION_MARKER@) {
        Some(t) => 1 + t.len(),
        None => 2 + s.len(),
    }
}

proof fn lemma_halved_is_smaller(s: Seq<char>)
    requires
        halved(s) != s,
    ensures
        item_size(halved(s)) < item_size(s),
{
    reveal_strlit("\n[正文因字符预算已裁剪]");
    let m = BODY_TRUNCATION_MARKER@;
    let content = unmarked(s);
    let h = halved(s);
    let keep = h.len() - m.len();
    assert(h.skip(keep) =~= m);
    assert(h.take(keep) =~= content.take(keep));
    assert(h.subrange(keep, h.len() as int) =~= m);
    assert(text::ends_with(h, m));
    assert(text::before(h, m) == Some(h.take(keep)));
    if text::before(s, m) is Some && content.len() == 0 {
        assert(h =~= m);
        assert(s =~= m) by {
            assert(text::ends_with(s, m));
            assert(s.len() == m.len());
            assert(s =~= s.subrange(0, s.len() as int));
        }
    }
}

proof fn lemma_size_of_removed(items: Seq<KnowledgeEvidenceItem>, i: int)
    requires
        0 <= i < items.len(),
    ensures
        size(items.remove(i)) < size(items),
    decreases items.len(),
{
    if i == items.len() - 1 {
        assert(items.remove(i) =~= items.drop_last());
    } else {
        let r = items.remove(i);
        assert(r.drop_last() =~= items.drop_last().remove(i));
        assert(r.last() == items.last());
        lemma_size_of_removed(items.drop_last(), i);
    }
}

proof fn lemma_size_of_changed(items: Seq<KnowledgeEvidenceItem>, next: Seq<KnowledgeEvidenceItem>, i: int)
    requires
        0 <= i < items.len(),
        next.len() == items.len(),
        forall|j: int| 0 <= j < items.len() && j != i ==> #[trigger] next[j] == items[j],
        item_size(next[i].body_excerpt@) < item_size(items[i].body_excerpt@),
    ensures
        size(next) < size(items),
    decreases items.len(),
{
    if i == items.len() - 1 {
        assert(next.drop_last() =~= items.drop_last());
    } else {
        assert(next.last() == items.last());
        assert forall|j: int| 0 <= j < items.len() - 1 && j != i implies #[trigger] next.drop_last()[j]
            == items.drop_last()[j] by {
            assert(next[j] == items[j]);
        }
        lemma_size_of_changed(items.drop_last(), next.drop_last(), i);
    }
}

fn find_last_extra(items: &Vec<KnowledgeEvidenceItem>) -> (r: Option<usize>)
    ensures
        match r {
            Some(i) => is_last_extra(items@, i as int) && i == (choose|k: int| is_last_extra(items@, k)),
            None => forall|k: int| !is_last_extra(items@, k),
        },
{
    let mut i: usize = items.len();
    while i > 0
        invariant
            i <= items@.len(),
            forall|j: int| i <= j < items@.len() ==> !is_section(#[trigger] items@[j]),
        decreases i,
    {
        i -= 1;
        if items[i].recall_type == KnowledgeRecallType::Section {
            proof {
                assert(is_last_extra(items@, i as int));
                let k = choose|k: int| is_last_extra(items@, k);
                if k < i {
                    assert(!is_section(items@[i as int]));
                } else if i < k {
                    assert(!is_section(items@[k]));
                }
            }
            return Some(i);
        }
    }
    None
}

fn find_longest(items: &Vec<KnowledgeEvidenceItem>) -> (r: usize)
    requires
        items@.len() > 0,
    ensures
        is_longest(items@, r as int),
        r == (choose|k: int| is_longest(items@, k)),
{
    let mut best: usize = 0;
    let mut length: usize = items[0].body_excerpt.as_str().unicode_len();
    let mut i: usize = 1;
    while i < items.len()
        invariant
            0 <= best < i <= items@.len(),
            length == items@[best as int].body_excerpt@.len(),
            forall|j: int| 0 <= j < best ==> (#[trigger] items@[j]).body_excerpt@.len() <= length,
            forall|j: int| best < j < i ==> (#[trigger] items@[j]).body_excerpt@.len() < length,
        decreases items@.len() - i,
    {
        let n: usize = items[i].body_excerpt.as_str().unicode_len();
        if n >= length {
            best = i;
            length = n;
        }
        i += 1;
    }
    proof {
        assert(is_longest(items@, best as int));
        let k = choose|k: int| is_longest(items@, k);
        if k < best {
            assert(items@[k].body_excerpt@.len() <= items@[best as int].body_excerpt@.len());
            assert(items@[best as int].body_excerpt@.len() < items@[k].body_excerpt@.len());
        } else if best < k {
            assert(items@[k].body_excerpt@.len() < items@[best as int].body_excerpt@.len());
            assert(items@[best as int].body_excerpt@.len() <= items@[k].body_excerpt@.len());
        }
    }
    best
}

fn mark_character_budget(e: &mut KnowledgeEvidence, original: KnowledgeEvidenceStatus)
    ensures
        is_marked(*final(e), *old(e), original),
        final(e).items == old(e).items,
        final(e).diagnostics.returned_chunk_count == old(e).diagnostics.returned_chunk_count,
        final(e).diagnostics.source_count == old(e).diagnostics.source_count,
{
    evidence::push_reason_once(
        &mut e.diagnostics.truncation_reasons,
        KnowledgeTruncationReason::CharacterBudget,
    );
    if original == KnowledgeEvidenceStatus::Complete {
        e.status = KnowledgeEvidenceStatus::Truncated;
    }
}

fn drop_item(e: &mut KnowledgeEvidence, i: usize, original: KnowledgeEvidenceStatus)
    requires
        i < old(e).items@.len(),
    ensures
        is_dropped(*final(e), *old(e), i as int, original),
{
    let _ = e.items.remove(i);
    e.diagnostics.returned_chunk_count = e.items.len();
    e.diagnostics.source_count = evidence::count_sources(&e.items);
    mark_character_budget(e, original);
}

fn shrink(e: &mut KnowledgeEvidence, original: KnowledgeEvidenceStatus)
    requires
        old(e).items@.len() > 0,
    ensures
        is_step(*final(e), *old(e), original),
        size(final(e).items@) < size(old(e).items@),
{
    let ghost before = *e;
    match find_last_extra(&e.items) {
        Some(i) => {
            drop_item(e, i, original);
            proof {
                lemma_size_of_removed(before.items@, i as int);
            }
            return;
        },
        None => {},
    }
    let i = find_longest(&e.items);
    let next = truncated_excerpt(e.items[i].body_excerpt.as_str());
    if next == e.items[i].body_excerpt {
        drop_item(e, i, original);
        proof {
            lemma_size_of_removed(before.items@, i as int);
        }
        return;
    }
    let mut item = e.items[i].clone();
    item.body_excerpt = next;
    e.items.set(i, item);
    mark_character_budget(e, original);
    proof {
        lemma_halved_is_smaller(before.items@[i as int].body_excerpt@);
        lemma_size_of_changed(before.items@, e.items@, i as int);
    }
}

/// The evidence in the room that there is, and as JSON.
pub fn compact_output(evidence: KnowledgeEvidence, max_chars: usize) -> (r: (KnowledgeEvidence, Json))
    ensures
        exists|trace: Seq<KnowledgeEvidence>| #[trigger]
            is_trace(trace, evidence, max_chars as int) && trace.last() == r.0,
        is_value(r.1, r.0),
        json::written(r.1).len() <= max_chars || r.0.items@.len() == 0,
{
    let mut e = evidence;
    let original = e.status;
    let ghost mut trace: Seq<KnowledgeEvidence> = seq![e];
    loop
        invariant
            original == evidence.status,
            trace.len() > 0,
            trace[0] == evidence,
            trace.last() == e,
            forall|i: int|
                0 <= i < trace.len() - 1 ==> is_step(#[trigger] trace[i + 1], trace[i], evidence.status)
                    && is_too_long(trace[i], max_chars as int) && trace[i].items@.len() > 0,
        decreases size(e.items@),
    {
        let value = evidence_value(&e);
        let n: usize = json::write_json(&value).as_str().unicode_len();
        if n <= max_chars || e.items.len() == 0 {
            proof {
                if n <= max_chars {
                    assert(is_value(value, e) && json::written(value).len() <= max_chars);
                    assert(fits(e, max_chars as int));
                }
                assert(is_trace(trace, evidence, max_chars as int));
            }
            return (e, value);
        }
        let ghost before = e;
        assert(is_value(value, e) && json::written(value).len() > max_chars);
        assert(is_too_long(before, max_chars as int));
        shrink(&mut e, original);
        proof {
            let old_trace = trace;
            trace = trace.push(e);
            assert forall|i: int| 0 <= i < trace.len() - 1 implies is_step(
                #[trigger] trace[i + 1],
                trace[i],
                evidence.status,
            ) && is_too_long(trace[i], max_chars as int) && trace[i].items@.len() > 0 by {
                if i + 1 < old_trace.len() {
                    assert(trace[i + 1] == old_trace[i + 1]);
                    assert(trace[i] == old_trace[i]);
                } else {
                    assert(trace[i + 1] == e);
                    assert(trace[i] == before);
                }
            }
        }
    }
}

/// The evidence that a search returned, as the tool hands it on.
pub fn finish_search(tool: &KnowledgeSearchTool, evidence: KnowledgeEvidence, max_results: usize) -> (r: Json)
    ensures
        exists|limited: KnowledgeEvidence, trace: Seq<KnowledgeEvidence>|
            #![trigger is_limited(limited, evidence, max_results as int), is_trace(trace, limited, tool.output_max_chars as int)]
            is_limited(limited, evidence, max_results as int) && is_trace(
                trace,
                limited,
                tool.output_max_chars as int,
            ) && is_value(r, trace.last()),
{
    let limited = limit_evidence(evidence, max_results);
    let ghost l = limited;
    let (last, value) = compact_output(limited, tool.output_max_chars);
    let ghost trace = choose|trace: Seq<KnowledgeEvidence>| #[trigger]
        is_trace(trace, l, tool.output_max_chars as int) && trace.last() == last;
    assert(is_limited(l, evidence, max_results as int) && is_trace(
        trace,
        l,
        tool.output_max_chars as int,
    ));
    value
}

// Laws.

/// Making evidence smaller changes no status but that of complete evidence, which is then
/// marked as cut.
pub proof fn cutting_keeps_other_statuses(trace: Seq<KnowledgeEvidence>, given: KnowledgeEvidence, max_chars: int, i: int)
    requires
        is_trace(trace, given, max_chars),
        0 <= i < trace.len(),
    ensures
        given.status != KnowledgeEvidenceStatus::Complete ==> trace[i].status == given.status,
        given.status == KnowledgeEvidenceStatus::Complete ==> trace[i].status == (if i == 0 {
            KnowledgeEvidenceStatus::Complete
        } else {
            KnowledgeEvidenceStatus::Truncated
        }),
    decreases i,
{
    if i > 0 {
        cutting_keeps_other_statuses(trace, given, max_chars, i - 1);
        assert(is_step(trace[(i - 1) + 1], trace[i - 1], given.status));
    }
}

} // verus!
