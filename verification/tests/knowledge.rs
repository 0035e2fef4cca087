//! Notes: cutting them into chunks, keeping the chunks, and finding evidence in them.
use qq_maid_core::json::{write_json, Json};
use qq_maid_core::knowledge::blocks::{parse_blocks_with_title, BlockKind};
use qq_maid_core::knowledge::chunking::{chunk_markdown, stable_path_id};
use qq_maid_core::knowledge::eval::{
    case_result, percentile, tally_cases, validate_dataset, KnowledgeEvalCase,
    KnowledgeEvalCaseResult, KnowledgeEvalDataset, KnowledgeEvalDocument, PathPart, PathReading,
};
use qq_maid_core::knowledge::evidence::{
    render_context, KnowledgeEvidence, KnowledgeEvidenceDiagnostics, KnowledgeEvidenceFailure,
    KnowledgeEvidenceItem, KnowledgeEvidenceStatus, KnowledgeInjectionDecision,
    KnowledgeInjectionReason, KnowledgeRecallType,
};
use qq_maid_core::knowledge::frontmatter::{parse_yaml_string, strip_frontmatter};
use qq_maid_core::knowledge::lookup::{semantic_search, FullTextHit};
use qq_maid_core::knowledge::ranking::{
    lexical_coverage, query_text, rank_candidates, retrieve_candidates, KnowledgeSearchProfile,
    QueryAnswer, RankedCandidate, ScoredCandidate, SEARCH_CANDIDATE_LIMIT,
};
use qq_maid_core::knowledge::scan::{
    relative_slash_path, scan_entry, sort_scanned, EntryAction, EntryKind, ScannedMarkdown,
};
use qq_maid_core::knowledge::selection::{
    build_evidence, preflight_confidence, query_diagnostics, ConfidenceBasis, SearchOptions,
};
use qq_maid_core::knowledge::semantic::{
    embed_query_text, first_vector, sync_missing, texts_of, KnowledgeSemanticConfig,
    SEMANTIC_EMBEDDING_VERSION,
};
use qq_maid_core::knowledge::splitting::split_long_text;
use qq_maid_core::knowledge::store::{
    KnowledgeChunkDraft, KnowledgeEmbeddingRecord, KnowledgeSearchOrigin, KnowledgeSearchResult,
    KnowledgeStore,
};
use qq_maid_core::knowledge::terms::{
    build_search_query, cjk_ngrams, has_exact_identifier, hash_text, lexical_tokens,
};
use qq_maid_core::knowledge::tool::{
    compact_output, finish_search, parse_arguments, KnowledgeSearchTool,
};
use qq_maid_core::tools::metadata::CallEffect;
use std::collections::HashSet;
use std::path::{Component, Path};

// An index over notes in memory.

/// The number that orders floating-point numbers as they are ordered.
fn order_number(x: f64) -> i64 {
    let bits = x.to_bits() as i64;
    if bits < 0 {
        bits ^ i64::MAX
    } else {
        bits
    }
}

fn number_of(order: i64) -> f64 {
    let bits = if order < 0 { order ^ i64::MAX } else { order };
    f64::from_bits(bits as u64)
}

fn bytes_of(vector: &[f32]) -> Vec<u8> {
    vector.iter().flat_map(|x| x.to_le_bytes()).collect()
}

fn vector_of(bytes: &[u8]) -> Vec<f32> {
    bytes
        .chunks_exact(4)
        .map(|b| f32::from_le_bytes([b[0], b[1], b[2], b[3]]))
        .collect()
}

fn cosine(a: &[f32], b: &[f32]) -> f64 {
    let dot: f64 = a.iter().zip(b).map(|(x, y)| f64::from(*x) * f64::from(*y)).sum();
    let norm = |v: &[f32]| v.iter().map(|x| f64::from(*x) * f64::from(*x)).sum::<f64>().sqrt();
    dot / (norm(a) * norm(b))
}

const MODEL: &str = "fixture-semantic-v1";

fn fixture_vector(text: &str) -> Vec<f32> {
    if text.contains("等待时间") || text.contains("迟迟不回来") {
        vec![1.0, 0.0, 0.0]
    } else if text.contains("缓存") {
        vec![0.0, 1.0, 0.0]
    } else {
        vec![0.0, 0.0, 1.0]
    }
}

struct Index {
    store: KnowledgeStore,
    semantic: bool,
    broken: bool,
}

fn full_text_hits(store: &KnowledgeStore, query: &str, limit: usize) -> Vec<FullTextHit> {
    if query.trim().is_empty() {
        return Vec::new();
    }
    let connection = rusqlite::Connection::open_in_memory().unwrap();
    connection
        .execute_batch("CREATE VIRTUAL TABLE notes USING fts5(search_text);")
        .unwrap();
    for row in &store.full_text {
        connection
            .execute(
                "INSERT INTO notes(rowid, search_text) VALUES (?1, ?2)",
                (row.row_id, row.search_text.as_str()),
            )
            .unwrap();
    }
    let mut statement = connection
        .prepare(
            "SELECT rowid, bm25(notes) AS rank FROM notes WHERE notes MATCH ?1 ORDER BY rank LIMIT ?2",
        )
        .unwrap();
    let rows = statement
        .query_map((query, limit as i64), |row| {
            let rank: f64 = row.get(1)?;
            Ok(FullTextHit {
                row_id: row.get(0)?,
                score: order_number(-rank),
            })
        })
        .unwrap();
    rows.map(|row| row.unwrap()).collect()
}

fn similar(store: &KnowledgeStore, model: &str, query: &[f32], limit: usize) -> Vec<KnowledgeSearchResult> {
    let candidates = store.semantic_candidates(model, SEMANTIC_EMBEDDING_VERSION, query.len());
    let scored = candidates
        .into_iter()
        .map(|candidate| {
            let mut result = candidate.result;
            result.score = order_number(cosine(query, &vector_of(&candidate.vector)));
            result
        })
        .collect();
    semantic_search(query.len(), limit, scored)
}

fn confidence(candidate: &RankedCandidate) -> f64 {
    let coverage = candidate.coverage.matched as f64 / candidate.coverage.total.max(1) as f64;
    let similarity = candidate.semantic_similarity.map_or(0.0, number_of);
    match preflight_confidence(candidate) {
        ConfidenceBasis::Identifier => 3.0,
        ConfidenceBasis::Coverage => 2.0 + coverage,
        ConfidenceBasis::Agreement => 1.0 + similarity,
        ConfidenceBasis::Similarity => similarity,
    }
}

fn scored(candidate: RankedCandidate) -> ScoredCandidate {
    let score: f64 = candidate.ranks.iter().map(|rank| 1.0 / (61.0 + *rank as f64)).sum();
    ScoredCandidate {
        score: order_number(score),
        confidence: order_number(confidence(&candidate)),
        score_text: format!("{score}"),
        candidate,
    }
}

impl Index {
    fn new(semantic: bool, notes: &[(&str, &str)]) -> Self {
        let mut index = Index {
            store: KnowledgeStore::new(),
            semantic,
            broken: false,
        };
        for (path, content) in notes {
            index.add(path, content);
        }
        index
    }

    fn add(&mut self, path: &str, content: &str) -> usize {
        let file_hash = hash_text(content);
        let drafts = chunk_markdown(path, content)
            .into_iter()
            .map(|chunk| KnowledgeChunkDraft {
                chunk_id: chunk.chunk_id,
                relative_path: chunk.relative_path,
                document_title: chunk.document_title,
                heading_path: chunk.heading_path,
                chunk_index: chunk.chunk_index,
                chunk_type: chunk.chunk_type,
                body: chunk.body,
                content_hash: chunk.content_hash,
                file_hash: file_hash.clone(),
                modified_at: None,
                start_line: chunk.start_line,
                end_line: chunk.end_line,
                code_language: chunk.code_language,
                chunking_version: 2,
                search_text: chunk.search_text,
            })
            .collect();
        self.store.replace_document(path, &file_hash, None, &drafts).unwrap();
        if !self.semantic {
            return 0;
        }
        let sources = self
            .store
            .missing_embedding_sources(MODEL, SEMANTIC_EMBEDDING_VERSION);
        let vectors = texts_of(&sources)
            .iter()
            .map(|text| bytes_of(&fixture_vector(text)))
            .collect();
        sync_missing(&mut self.store, MODEL, &sources, &vectors).unwrap()
    }

    fn search(&self, queries: &[&str], profile: KnowledgeSearchProfile) -> KnowledgeEvidence {
        let options = SearchOptions::for_profile(profile);
        let mut diagnostics = KnowledgeEvidenceDiagnostics::default();
        let (fingerprint, tokens) = query_diagnostics(&query_text(&queries.join("\n")));
        diagnostics.query_fingerprint = fingerprint;
        diagnostics.query_token_count = tokens;
        if self.broken {
            return KnowledgeEvidence {
                status: KnowledgeEvidenceStatus::Failed,
                items: Vec::new(),
                diagnostics,
                injection: KnowledgeInjectionDecision {
                    allow_injection: false,
                    reason: KnowledgeInjectionReason::SearchFailed,
                    threshold_version: String::new(),
                },
                failure: Some(KnowledgeEvidenceFailure {
                    error_code: "knowledge_db_error".to_owned(),
                }),
            };
        }
        let mut answers: Vec<QueryAnswer> = Vec::new();
        for query in queries {
            if answers.iter().any(|answer| answer.query == *query) {
                continue;
            }
            let words = query_text(query);
            let hits = full_text_hits(&self.store, &words, SEARCH_CANDIDATE_LIMIT);
            answers.push(QueryAnswer {
                query: (*query).to_owned(),
                lexical: self.store.search(&words, SEARCH_CANDIDATE_LIMIT, &hits),
                semantic: if self.semantic {
                    let vector = fixture_vector(query);
                    Some(similar(&self.store, MODEL, &vector, SEARCH_CANDIDATE_LIMIT))
                } else {
                    None
                },
            });
        }
        let fused = retrieve_candidates(&answers, options.use_semantic, &mut diagnostics);
        let all = fused.into_iter().map(scored).collect();
        let ranked = rank_candidates(all, profile, &mut diagnostics);
        build_evidence(&self.store, ranked, profile, diagnostics)
    }

    fn search_evidence(&self, query: &str) -> KnowledgeEvidence {
        self.search(&[query], KnowledgeSearchProfile::Tool)
    }

    fn search_preflight_evidence(&self, query: &str) -> KnowledgeEvidence {
        self.search(&[query], KnowledgeSearchProfile::Preflight)
    }
}

#[test]
fn semantic_recall_and_preflight_decision_share_the_same_fused_candidates() {
    let mut index = Index::new(true, &[]);
    let mut embedded_chunk_count = 0;
    embedded_chunk_count += index.add(
        "timeout.md",
        "# 故障手册\n\n## 请求超时\n\n上游请求超过等待时间时应检查超时配置。",
    );
    embedded_chunk_count += index.add(
        "cache.md",
        "# 缓存手册\n\n## 清理\n\n本地缓存过期后需要重建。",
    );
    assert_eq!(embedded_chunk_count, 2);

    let evidence = index.search_preflight_evidence("服务响应迟迟不回来怎么办");

    assert!(evidence.injection.allow_injection);
    assert_eq!(
        evidence.injection.reason,
        KnowledgeInjectionReason::SemanticHighConfidence
    );
    assert_eq!(evidence.diagnostics.semantic_candidate_count, 2);
    assert_eq!(evidence.diagnostics.section_expanded_count, 0);
    assert_eq!(evidence.items.len(), 1);
    assert_eq!(evidence.items[0].relative_path, "timeout.md");
    assert_eq!(evidence.items[0].recall_type, KnowledgeRecallType::Semantic);
}

#[test]
fn preflight_rejects_low_relevance_candidates_without_returning_items() {
    let index = Index::new(
        false,
        &[("guide.md", "# 服务手册\n\n## 部署\n\n服务启动后会同步本地索引。")],
    );

    let evidence = index.search_preflight_evidence("这个服务挺不错，晚饭吃什么");

    assert!(!evidence.injection.allow_injection);
    assert_eq!(
        evidence.injection.reason,
        KnowledgeInjectionReason::BelowThreshold
    );
    assert_eq!(evidence.status, KnowledgeEvidenceStatus::LowRelevance);
    assert!(evidence.items.is_empty());
}

#[test]
fn tool_rejects_bm25_candidates_that_only_match_a_weak_common_term() {
    let index = Index::new(
        false,
        &[("guide.md", "# 服务手册\n\n## 启动\n\n服务启动后会同步本地索引。")],
    );

    let evidence = index.search_evidence("这个服务今天怎么样");

    assert_eq!(evidence.diagnostics.fts_candidate_count, 1);
    assert_eq!(evidence.status, KnowledgeEvidenceStatus::LowRelevance);
    assert!(evidence.items.is_empty());
    assert_eq!(evidence.diagnostics.low_relevance_filtered_count, 1);
}

#[test]
fn tool_keeps_high_relevance_identifier_config_and_natural_language_results() {
    let index = Index::new(
        false,
        &[(
            "guide.md",
            "# 运维手册\n\n## 请求超时\n\n错误码 RAG-504 表示上游请求超时，配置项 REQUEST_TIMEOUT_SECONDS 控制等待秒数。\n\n## 索引维护\n\n修改知识文件后应重建索引并检查同步结果。",
        )],
    );

    for query in [
        "RAG-504 是什么",
        "REQUEST_TIMEOUT_SECONDS",
        "修改知识文件后怎样重建索引",
    ] {
        let evidence = index.search_evidence(query);
        assert!(
            !evidence.items.is_empty(),
            "high relevance query should return evidence: {query}"
        );
        assert!(matches!(
            evidence.status,
            KnowledgeEvidenceStatus::Complete | KnowledgeEvidenceStatus::Truncated
        ));
    }
}

#[test]
fn preflight_requires_a_complete_identifier_token_for_exact_match() {
    let mut index = Index::new(
        false,
        &[("longer.md", "# 编号手册\n\n## RAG-5040\n\nRAG-5040 表示另一类故障。")],
    );

    let longer = index.search_preflight_evidence("RAG-504");
    assert!(!longer.injection.allow_injection);
    assert_ne!(
        longer.injection.reason,
        KnowledgeInjectionReason::LexicalHighConfidence
    );

    index.add("exact.md", "# 编号手册\n\n## rag-504\n\n小写 rag-504 是完整编号。");
    let exact = index.search_preflight_evidence("RAG-504");
    assert!(exact.injection.allow_injection);
    assert_eq!(
        exact.injection.reason,
        KnowledgeInjectionReason::LexicalHighConfidence
    );
    assert_eq!(exact.items[0].relative_path, "exact.md");
}

#[test]
fn multiple_queries_merge_sources_without_duplicate_chunks_or_budgets() {
    let index = Index::new(
        false,
        &[
            ("alpha.md", "# Alpha\n\n## ALPHA-101\n\nALPHA-101 表示第一类故障。"),
            ("beta.md", "# Beta\n\n## BETA-202\n\nBETA-202 表示第二类故障。"),
        ],
    );

    let evidence = index.search(
        &["ALPHA-101 是什么", "BETA-202 是什么", "ALPHA-101 是什么"],
        KnowledgeSearchProfile::Tool,
    );

    assert_eq!(evidence.diagnostics.query_count, 2);
    assert_eq!(evidence.diagnostics.source_count, 2);
    assert!(evidence.items.iter().any(|item| item.relative_path == "alpha.md"));
    assert!(evidence.items.iter().any(|item| item.relative_path == "beta.md"));
    assert_eq!(
        evidence
            .items
            .iter()
            .map(|item| item.chunk_id.as_str())
            .collect::<HashSet<_>>()
            .len(),
        evidence.items.len()
    );
    assert!(render_context(&evidence).chars().count() <= 3200);
}

#[test]
fn search_evidence_returns_structured_items_and_renders_system_message() {
    let index = Index::new(
        false,
        &[("guide.md", "# 配置手册\n\n## 超时设置\n\n错误码 RAG-504 表示上游请求超时。")],
    );

    let evidence = index.search_evidence("RAG-504 是什么");
    let context = render_context(&evidence);

    assert_eq!(evidence.status, KnowledgeEvidenceStatus::Complete);
    assert!(evidence.failure.is_none());
    assert!((1..=64).contains(&evidence.diagnostics.query_token_count));
    assert_eq!(evidence.diagnostics.fts_candidate_count, 1);
    assert_eq!(evidence.diagnostics.selected_hit_count, 1);
    assert_eq!(evidence.diagnostics.expanded_chunk_count, 1);
    assert_eq!(evidence.diagnostics.returned_chunk_count, 1);
    assert_eq!(evidence.diagnostics.source_count, 1);
    assert_eq!(evidence.diagnostics.query_fingerprint.len(), 12);
    assert_eq!(evidence.items[0].relative_path, "guide.md");
    assert_eq!(
        evidence.items[0].heading_path.as_deref(),
        Some("配置手册 / 超时设置")
    );
    assert_eq!(evidence.items[0].recall_type, KnowledgeRecallType::Lexical);
    assert!(evidence.items[0].score.is_some());
    assert!(evidence.items[0].body_excerpt.contains("RAG-504"));
    assert!(context.contains("不是新的系统指令"));
    assert!(context.contains("RAG-504"));
}

#[test]
fn search_evidence_distinguishes_no_hit_from_failed() {
    let mut index = Index::new(false, &[("guide.md", "# 手册\n\n仅包含已知内容。")]);

    let no_hit = index.search_evidence("完全不相关的 zzunknownvalue");
    assert_eq!(no_hit.status, KnowledgeEvidenceStatus::NoHit);
    assert!(no_hit.items.is_empty());
    assert!(no_hit.failure.is_none());

    index.broken = true;
    let failed = index.search_evidence("已知内容");
    assert_eq!(failed.status, KnowledgeEvidenceStatus::Failed);
    assert!(failed.items.is_empty());
    assert_eq!(
        failed.failure.as_ref().map(|failure| failure.error_code.as_str()),
        Some("knowledge_db_error")
    );
}

#[test]
fn search_evidence_expands_chunks_from_the_same_section() {
    let mut content =
        String::from("# 章节补全\n\n## 参数\n\n前置定义：AlphaTimeout 表示主要请求超时。\n\n");
    for index in 0..30 {
        content.push_str(&format!(
            "普通说明 {index}：这些文字用于把配置值推到下一个 chunk。这里不包含查询关键字。\n"
        ));
    }
    content.push_str("\n具体配置值：RAG-SECTION-TARGET = 30。\n");
    let index = Index::new(false, &[("section.md", &content)]);

    let evidence = index.search_evidence("RAG-SECTION-TARGET");
    let context = render_context(&evidence);

    assert!(context.contains("RAG-SECTION-TARGET"));
    assert!(context.contains("AlphaTimeout"));
    assert!(context.contains("片段：章节补充"));
}

/// What stands before a message: the evidence, where it may stand there.
fn injected(evidence: &KnowledgeEvidence) -> Option<String> {
    if evidence.injection.allow_injection && !evidence.items.is_empty() {
        Some(render_context(evidence))
    } else {
        None
    }
}

#[test]
fn preflight_injects_only_high_confidence_primary_evidence_and_keeps_tool() {
    let index = Index::new(
        false,
        &[(
            "operations/errors.md",
            "# 错误码\n\n## RAG-504\n\nRAG-504 表示上游请求超时。",
        )],
    );

    let evidence = index.search_preflight_evidence("RAG-504 是什么错误？");
    let context = injected(&evidence).unwrap();

    assert!(context.contains("本地 Markdown 知识资料"));
    assert!(context.contains("RAG-504 表示上游请求超时"));
    assert!(!context.contains("片段：章节补充"));
    assert!(evidence.injection.allow_injection);
    assert_eq!(evidence.injection.reason.as_str(), "lexical_high_confidence");
    assert_eq!(evidence.items.len(), 1);
}

#[test]
fn preflight_low_relevance_candidate_is_zero_injection() {
    let index = Index::new(
        false,
        &[(
            "operations/service.md",
            "# 服务手册\n\n## 部署\n\n服务启动后会同步本地索引。LOW-RELEVANCE-MARKER",
        )],
    );

    let evidence = index.search_preflight_evidence("这个服务挺不错，晚饭吃什么？");

    assert!(injected(&evidence).is_none());
    assert!(!render_context(&evidence).contains("LOW-RELEVANCE-MARKER"));
    assert_eq!(evidence.status.as_str(), "low_relevance");
    assert!(!evidence.injection.allow_injection);
    assert_eq!(evidence.injection.reason.as_str(), "below_threshold");
    assert!(evidence.diagnostics.fused_candidate_count > 0);
    assert_eq!(evidence.items.len(), 0);
}

#[test]
fn preflight_search_failure_is_zero_injection_without_blocking_chat() {
    let mut index = Index::new(
        false,
        &[("operations/errors.md", "# 错误码\n\nRAG-504 表示上游请求超时。")],
    );
    index.broken = true;

    let evidence = index.search_preflight_evidence("RAG-504 是什么？");

    assert!(injected(&evidence).is_none());
    assert!(!render_context(&evidence).contains("RAG-504 表示上游请求超时"));
    assert_eq!(evidence.status.as_str(), "failed");
    assert!(!evidence.injection.allow_injection);
    assert_eq!(evidence.injection.reason.as_str(), "search_failed");
    assert_eq!(evidence.items.len(), 0);
}

#[test]
fn replace_search_and_delete_document() {
    let mut store = KnowledgeStore::new();
    store
        .replace_document(
            "example.md",
            "file-hash",
            Some("2026-06-26T00:00:00Z".to_owned()),
            &vec![KnowledgeChunkDraft {
                chunk_id: "example-md-0001-abcd".to_owned(),
                relative_path: "example.md".to_owned(),
                document_title: Some("知识示例".to_owned()),
                heading_path: Some("知识示例 / 中文检索".to_owned()),
                chunk_index: 0,
                chunk_type: "text".to_owned(),
                body: "编号 RAG-407 用于验证中文知识检索。".to_owned(),
                content_hash: "chunk-hash".to_owned(),
                file_hash: "file-hash".to_owned(),
                modified_at: Some("2026-06-26T00:00:00Z".to_owned()),
                start_line: Some(3),
                end_line: Some(3),
                code_language: None,
                chunking_version: 2,
                search_text: "编号 rag 407 中文 检索 知识".to_owned(),
            }],
        )
        .unwrap();

    assert_eq!(store.chunk_count(), 1);
    assert_eq!(store.document_state("example.md").unwrap().file_hash, "file-hash");
    let hits = full_text_hits(&store, "rag 407", 5);
    let results = store.search("rag 407", 5, &hits);
    assert_eq!(results.len(), 1);
    assert_eq!(results[0].relative_path, "example.md");
    assert_eq!(results[0].chunk_index, 0);
    assert_eq!(results[0].start_line, Some(3));

    let missing = store.missing_embedding_sources("fixture-model", 1);
    assert_eq!(missing.len(), 1);
    store.upsert_embeddings(
        "fixture-model",
        1,
        vec![KnowledgeEmbeddingRecord {
            chunk_id: missing[0].chunk_id.clone(),
            content_hash: missing[0].content_hash.clone(),
            vector: bytes_of(&[1.0, 0.0]),
        }],
    );
    assert!(store.missing_embedding_sources("fixture-model", 1).is_empty());
    let semantic = similar(&store, "fixture-model", &[1.0, 0.0], 5);
    assert_eq!(semantic.len(), 1);
    assert_eq!(semantic[0].origin, KnowledgeSearchOrigin::Semantic);
    assert!((number_of(semantic[0].score) - 1.0).abs() < f64::EPSILON);

    store.delete_document("example.md");
    assert_eq!(store.chunk_count(), 0);
    let hits = full_text_hits(&store, "rag 407", 5);
    assert!(store.search("rag 407", 5, &hits).is_empty());
    assert!(similar(&store, "fixture-model", &[1.0, 0.0], 5).is_empty());
}

// The tool.

fn text(s: &str) -> Json {
    Json::Text(s.to_owned())
}

fn arguments(query: &str, max_results: Json) -> Json {
    Json::Object(vec![
        ("query".to_owned(), text(query)),
        ("max_results".to_owned(), max_results),
    ])
}

fn execute(index: &Index, arguments: &Json) -> Json {
    let tool = KnowledgeSearchTool::new(4_000);
    let parsed = parse_arguments(arguments).unwrap();
    let queries: Vec<&str> = parsed.queries.iter().map(String::as_str).collect();
    let evidence = index.search(&queries, KnowledgeSearchProfile::Tool);
    finish_search(&tool, evidence, parsed.max_results)
}

fn guide() -> Index {
    Index::new(
        false,
        &[("guide.md", "# 配置\n\n## RAG-504\n\nRAG-504 表示上游请求超时。")],
    )
}

#[test]
fn metadata_is_read_only_and_does_not_offer_file_access() {
    let tool = KnowledgeSearchTool::new(4_000);
    assert_eq!(tool.effect(), CallEffect::ReadOnly);
    assert!(tool.metadata().description.contains("只读"));
    assert!(!write_json(&tool.metadata().parameters).contains("path"));
}

#[test]
fn returns_structured_evidence_without_answer_generation() {
    let index = guide();
    let output = execute(&index, &arguments("RAG-504", Json::Null));

    assert_eq!(output.get_bool("ok"), Some(true));
    assert_eq!(output.get_str("status"), Some("ok"));
    let items = output.get_list("items").unwrap();
    assert_eq!(items[0].get_str("relative_path"), Some("guide.md"));
    assert!(items[0].get_str("body_excerpt").unwrap().contains("RAG-504"));
    assert!(!write_json(&output).contains("答案："));
    assert!(render_context(&index.search_evidence("RAG-504")).contains("RAG-504"));
}

#[test]
fn no_hit_and_bad_arguments_are_explicit() {
    let index = guide();
    let output = execute(&index, &arguments("今晚吃什么", Json::Null));
    assert_eq!(output.get_bool("ok"), Some(true));
    assert_eq!(output.get_str("status"), Some("no_hit"));
    assert!(output.get_list("items").unwrap().is_empty());

    let error = parse_arguments(&arguments("", Json::Null)).unwrap_err();
    assert_eq!(error.code, "bad_tool_arguments");
}

#[test]
fn max_results_prioritizes_lexical_hits_over_adjacent_chunks() {
    let mut content =
        String::from("# 相邻补全\n\n## 参数\n\n前置定义：这是 lexical 命中前的上下文。\n\n");
    for index in 0..30 {
        content.push_str(&format!(
            "普通说明 {index}：这些文字用于把目标推到后续 chunk，不包含目标词。\n"
        ));
    }
    content.push_str("\n真正命中的目标词 KNOWLEDGE-LEXICAL-TARGET 在这里。\n");
    let index = Index::new(false, &[("guide.md", &content)]);

    for max_results in [1, 2] {
        let output = execute(
            &index,
            &arguments("KNOWLEDGE-LEXICAL-TARGET", Json::Whole(max_results)),
        );
        let items = output.get_list("items").unwrap();
        assert!(items.len() as u64 <= max_results);
        assert!(items.iter().any(|item| {
            item.get_str("recall_type") == Some("lexical")
                && item
                    .get_str("body_excerpt")
                    .is_some_and(|body| body.contains("KNOWLEDGE-LEXICAL-TARGET"))
        }));
    }
}

#[test]
fn separate_section_hits_remain_primary_and_survive_max_results() {
    let content = "# 相邻主命中回归\n\n\
## 普通前置片段\n\n这是 lexical 主命中前的普通相邻内容，不包含检索目标。\n\n\
## 第一主命中\n\nLEXICAL-PAIR-TARGET 出现在第一个主命中片段。\n\n\
## 第二主命中\n\nLEXICAL-PAIR-TARGET 出现在第二个主命中片段。";
    let index = Index::new(false, &[("guide.md", content)]);

    let evidence = index.search_evidence("LEXICAL-PAIR-TARGET");
    let lexical = evidence
        .items
        .iter()
        .filter(|item| item.recall_type == KnowledgeRecallType::Lexical)
        .collect::<Vec<_>>();
    assert_eq!(lexical.len(), 2);
    assert!(lexical.iter().all(|item| item.score.is_some()));
    assert!(!evidence.items.iter().any(|item| {
        item.recall_type == KnowledgeRecallType::Section
            && item.body_excerpt.contains("普通相邻内容")
    }));

    let output = execute(&index, &arguments("LEXICAL-PAIR-TARGET", Json::Whole(2)));
    let items = output.get_list("items").unwrap();
    assert_eq!(items.len(), 2);
    assert!(items.iter().all(|item| item.get_str("recall_type") == Some("lexical")));
    assert!(items.iter().all(|item| matches!(item.get("score"), Some(Json::Decimal(_)))));
}

fn evidence_for_compaction(status: KnowledgeEvidenceStatus) -> KnowledgeEvidence {
    let long_body = "正文证据。".repeat(700);
    let failed = status == KnowledgeEvidenceStatus::Failed;
    KnowledgeEvidence {
        status,
        items: vec![
            KnowledgeEvidenceItem {
                chunk_id: "lexical".to_owned(),
                relative_path: "guide.md".to_owned(),
                document_title: None,
                heading_path: None,
                start_line: Some(1),
                end_line: Some(2),
                score: Some("1.0".to_owned()),
                recall_type: KnowledgeRecallType::Lexical,
                body_excerpt: long_body.clone(),
            },
            KnowledgeEvidenceItem {
                chunk_id: "adjacent".to_owned(),
                relative_path: "guide.md".to_owned(),
                document_title: None,
                heading_path: None,
                start_line: Some(3),
                end_line: Some(4),
                score: None,
                recall_type: KnowledgeRecallType::Section,
                body_excerpt: long_body,
            },
        ],
        diagnostics: KnowledgeEvidenceDiagnostics::default(),
        injection: KnowledgeInjectionDecision {
            allow_injection: !failed,
            reason: if failed {
                KnowledgeInjectionReason::SearchFailed
            } else {
                KnowledgeInjectionReason::LexicalHighConfidence
            },
            threshold_version: "test".to_owned(),
        },
        failure: if failed {
            Some(KnowledgeEvidenceFailure {
                error_code: "knowledge_db_error".to_owned(),
            })
        } else {
            None
        },
    }
}

#[test]
fn compact_output_reports_character_budget_and_marks_body() {
    let value = compact_output(
        evidence_for_compaction(KnowledgeEvidenceStatus::Complete),
        1_200,
    )
    .1;
    assert!(write_json(&value).chars().count() <= 1_200);
    assert_eq!(value.get_str("status"), Some("truncated"));
    assert_eq!(
        value.get("diagnostics").unwrap().get_list("truncation_reasons").unwrap()[0].as_str(),
        Some("character_budget")
    );
    assert!(write_json(value.get("items").unwrap()).contains("正文因字符预算已裁剪"));
    assert_eq!(value.get_list("items").unwrap().len(), 1);
}

#[test]
fn compact_output_preserves_non_ok_statuses() {
    for status in [
        KnowledgeEvidenceStatus::LowRelevance,
        KnowledgeEvidenceStatus::Failed,
    ] {
        let value = compact_output(evidence_for_compaction(status), 1_200).1;
        assert!(write_json(&value).chars().count() <= 1_200);
        assert_eq!(value.get_str("status"), Some(status.as_str()));
        assert_ne!(value.get_str("status"), Some("truncated"));
    }
}

#[test]
fn several_queries_are_read_once_each() {
    let arguments = Json::Object(vec![
        ("query".to_owned(), text(" a ")),
        ("additional_queries".to_owned(), Json::List(vec![text("b"), text("a")])),
        ("max_results".to_owned(), Json::Whole(2)),
    ]);
    let parsed = parse_arguments(&arguments).unwrap();
    assert_eq!(parsed.queries, vec!["a", "b"]);
    assert_eq!(parsed.max_results, 2);
    let wrong = Json::Object(vec![
        ("query".to_owned(), text("a")),
        ("max_results".to_owned(), Json::Whole(1000)),
    ]);
    assert_eq!(parse_arguments(&wrong).unwrap_err().code, "bad_tool_arguments");
}

// Measuring.

fn dataset() -> KnowledgeEvalDataset {
    KnowledgeEvalDataset {
        version: 1,
        documents: vec![KnowledgeEvalDocument {
            path: "ops/errors.md".to_owned(),
            content: "# 错误码\n\n## RAG-504\n\nRAG-504 表示上游请求超时。".to_owned(),
        }],
        cases: vec![
            KnowledgeEvalCase {
                id: "exact".to_owned(),
                category: "identifier".to_owned(),
                query: "RAG-504".to_owned(),
                expected_sources: vec!["ops/errors.md".to_owned()],
                expect_no_hit: false,
            },
            KnowledgeEvalCase {
                id: "none".to_owned(),
                category: "no_hit".to_owned(),
                query: "zzunknownvalue".to_owned(),
                expected_sources: Vec::new(),
                expect_no_hit: true,
            },
        ],
    }
}

fn readings(dataset: &KnowledgeEvalDataset) -> Vec<PathReading> {
    dataset
        .documents
        .iter()
        .map(|document| PathReading {
            path: document.path.clone(),
            absolute: Path::new(&document.path).is_absolute(),
            parts: Path::new(&document.path)
                .components()
                .map(|component| match component {
                    Component::Prefix(_) => PathPart::Prefix,
                    Component::RootDir => PathPart::Root,
                    Component::CurDir => PathPart::Current,
                    Component::ParentDir => PathPart::Parent,
                    Component::Normal(_) => PathPart::Named,
                })
                .collect(),
        })
        .collect()
}

fn validate(dataset: &KnowledgeEvalDataset) -> Result<(), String> {
    validate_dataset(dataset, &readings(dataset))
}

#[test]
fn paths_are_judged_as_the_machine_reads_them() {
    let mut dataset = dataset();
    dataset.documents[0].path = "..\\secret.md".to_owned();
    dataset.cases[0].expected_sources = vec!["..\\secret.md".to_owned()];
    let read = |absolute: bool, parts: Vec<PathPart>| {
        vec![PathReading { path: "..\\secret.md".to_owned(), absolute, parts }]
    };
    let named = read(false, vec![PathPart::Current, PathPart::Named]);
    assert!(validate_dataset(&dataset, &named).is_ok());
    let climbing = read(false, vec![PathPart::Parent, PathPart::Named]);
    assert!(validate_dataset(&dataset, &climbing).is_err());
    let rooted = read(false, vec![PathPart::Root, PathPart::Named]);
    assert!(validate_dataset(&dataset, &rooted).is_err());
    let absolute = read(true, vec![PathPart::Prefix, PathPart::Named]);
    assert!(validate_dataset(&dataset, &absolute).is_err());
    assert!(validate_dataset(&dataset, &Vec::new()).is_err());
}

#[test]
fn dataset_rejects_parent_directory_paths() {
    let mut dataset = dataset();
    assert!(validate(&dataset).is_ok());
    dataset.documents[0].path = "../secret.md".to_owned();

    assert!(validate(&dataset).is_err());
}

#[test]
fn a_dataset_is_measured() {
    let dataset = dataset();
    let mut index = Index::new(false, &[]);
    for document in &dataset.documents {
        index.add(&document.path, &document.content);
    }
    let run = || -> Vec<KnowledgeEvalCaseResult> {
        dataset
            .cases
            .iter()
            .map(|case| case_result(case, &index.search_evidence(&case.query)))
            .collect()
    };
    let first = run();
    let second = run();
    assert_eq!(first[0].retrieved_sources, vec!["ops/errors.md"]);
    assert_eq!(first[0].matched_sources, 1);
    assert_eq!(first[1].no_evidence_correct, Some(true));
    assert_eq!(first[0].retrieved_sources, second[0].retrieved_sources);
    let tally = tally_cases(&first);
    assert_eq!(tally.evidence_cases, 1);
    assert_eq!(tally.hit_cases, 1);
    assert_eq!(tally.no_hit_cases, 1);
    assert_eq!(tally.correct_no_hit_cases, 1);
    assert_eq!(tally.injected_no_hit_cases, 0);
}

#[test]
fn datasets_are_checked() {
    let mut twice = dataset();
    twice.cases[1].id = "exact".to_owned();
    assert!(validate(&twice).is_err());
    let mut unknown = dataset();
    unknown.cases[0].expected_sources = vec!["other.md".to_owned()];
    assert!(validate(&unknown).is_err());
    let mut empty = dataset();
    empty.version = 0;
    assert_eq!(
        validate(&empty).unwrap_err(),
        "knowledge eval dataset requires a version, documents, and cases"
    );
}

#[test]
fn percentiles_are_values_of_the_list() {
    assert_eq!(percentile(&vec![], 50), 0);
    assert_eq!(percentile(&vec![1, 2, 3, 4], 50), 2);
    assert_eq!(percentile(&vec![1, 2, 3, 4], 95), 4);
}

// Texts.

#[test]
fn digests_are_sha_256() {
    assert_eq!(
        hash_text("abc"),
        "ba7816bf8f01cfea414140de5dae2223b00361a396177a9cb410ff61f20015ad"
    );
}

#[test]
fn tokens_are_lower_case() {
    assert_eq!(lexical_tokens("RAG-504 a TimeOut"), vec!["rag-504", "timeout"]);
    assert!(cjk_ngrams("知识检索").contains(&"知识".to_owned()));
    assert!(has_exact_identifier("RAG-504", "见 rag-504。"));
    assert!(!has_exact_identifier("RAG-504", "见 rag-5040。"));
    assert!(build_search_query("RAG", 8).contains("\"rag\""));
    assert_eq!(build_search_query(" ", 8), "");
}

#[test]
fn coverage_weighs_terms() {
    let all = lexical_coverage("rag timeout", "rag timeout");
    assert_eq!(all.matched, all.total);
    assert_eq!(all.count, 2);
    assert!(all.is_at_least(1, 1));
    let half = lexical_coverage("rag timeout", "rag");
    assert!(half.is_at_least(1, 2));
    assert!(!half.is_at_least(2, 3));
    assert!(all.is_more_than(&half));
}

#[test]
fn heads_are_read_and_cut_off() {
    let parsed = strip_frontmatter("---\ntitle: \"手册\"\ntags: [a, b]\n---\n正文");
    assert_eq!(parsed.metadata.title.as_deref(), Some("手册"));
    assert_eq!(parsed.body.trim(), "正文");
    assert_eq!(parsed.body_start_line, 5);
    assert_eq!(parse_yaml_string("'a'").as_deref(), Some("a"));
    assert_eq!(parse_yaml_string("true"), None);
}

#[test]
fn blocks_keep_their_place() {
    let blocks = parse_blocks_with_title("# 题\n\n这里有八个以上的文字\n\n- 项\n\n```rust\nfn f() {}\n```\n", 1, None);
    assert_eq!(blocks.len(), 3);
    assert_eq!(blocks[0].kind, BlockKind::Text);
    assert_eq!(blocks[0].document_title.as_deref(), Some("题"));
    assert_eq!((blocks[0].start_line, blocks[0].end_line), (3, 3));
    assert_eq!(blocks[1].kind, BlockKind::List);
    assert_eq!(blocks[2].kind, BlockKind::Code);
    assert_eq!(blocks[2].code_language.as_deref(), Some("rust"));
}

#[test]
fn chunks_are_numbered_and_named() {
    let chunks = chunk_markdown("ops/a.md", "# 题\n\n## 甲\n\n这里有八个以上的文字。\n\n## 乙\n\n那里也有八个以上的文字。");
    assert_eq!(chunks.len(), 2);
    assert_eq!(chunks[0].chunk_index, 0);
    assert_eq!(chunks[1].chunk_index, 1);
    assert_eq!(chunks[1].heading_path.as_deref(), Some("题 / 乙"));
    assert_ne!(chunks[0].chunk_id, chunks[1].chunk_id);
    assert!(chunks[0].chunk_id.starts_with(&stable_path_id("ops/a.md")));
    assert_eq!(chunks[0].content_hash.len(), 64);
}

#[test]
fn long_texts_are_cut_and_lose_nothing() {
    let long = "一二三四五。".repeat(30);
    let parts = split_long_text(&long, 40);
    assert!(parts.len() > 1);
    assert!(parts.iter().all(|part| part.chars().count() <= 40));
    assert_eq!(parts.concat(), long);
}

// Files and vectors.

#[test]
fn only_plain_notes_are_taken() {
    assert_eq!(scan_entry("a.md", EntryKind::File), EntryAction::Take);
    assert_eq!(scan_entry("a.txt", EntryKind::File), EntryAction::Skip);
    assert_eq!(scan_entry(".git", EntryKind::Directory), EntryAction::Skip);
    assert_eq!(scan_entry("ops", EntryKind::Directory), EntryAction::Enter);
    assert_eq!(scan_entry("a.md", EntryKind::Link), EntryAction::Skip);
    assert_eq!(
        relative_slash_path(&vec![Some("ops".to_owned()), Some("a.md".to_owned())]).as_deref(),
        Some("ops/a.md")
    );
    assert_eq!(relative_slash_path(&vec![Some("ops".to_owned()), None]), None);
    let file = |path: &str| ScannedMarkdown {
        relative_path: path.to_owned(),
        absolute_path: format!("/k/{path}"),
        modified_at: None,
    };
    let sorted = sort_scanned(vec![file("b.md"), file("a.md")]);
    assert_eq!(sorted[0].relative_path, "a.md");
}

#[test]
fn vectors_are_checked() {
    assert!(KnowledgeSemanticConfig::local("c".to_owned()).enabled);
    assert!(!KnowledgeSemanticConfig::disabled("c".to_owned()).enabled);
    assert_eq!(
        embed_query_text("问"),
        "为这个句子生成表示以用于检索相关文章：问"
    );
    assert_eq!(first_vector(vec![vec![1], vec![2]]).unwrap(), vec![1]);
    assert_eq!(
        first_vector(Vec::new()).unwrap_err().code,
        "knowledge_embedding_empty"
    );
    let mut index = guide();
    let sources = index.store.missing_embedding_sources(MODEL, SEMANTIC_EMBEDDING_VERSION);
    let error = sync_missing(&mut index.store, MODEL, &sources, &Vec::new()).unwrap_err();
    assert_eq!(error.code, "knowledge_embedding_count_mismatch");
}

#[test]
fn only_tables_that_fit_together_are_loaded() {
    let tables = || {
        let mut store = KnowledgeStore::new();
        let chunk = KnowledgeChunkDraft {
            chunk_id: "a-0000-abcd".to_owned(),
            relative_path: "a.md".to_owned(),
            document_title: None,
            heading_path: None,
            chunk_index: 0,
            chunk_type: "text".to_owned(),
            body: "正文".to_owned(),
            content_hash: "h".to_owned(),
            file_hash: "f".to_owned(),
            modified_at: None,
            start_line: None,
            end_line: None,
            code_language: None,
            chunking_version: 2,
            search_text: "正文".to_owned(),
        };
        store.replace_document("a.md", "f", None, &vec![chunk]).unwrap();
        store
    };
    let saved = tables();
    let loaded = KnowledgeStore::from_tables(
        saved.documents,
        saved.chunks,
        saved.embeddings,
        saved.next_document_id,
        saved.next_row_id,
    )
    .unwrap();
    assert_eq!(loaded.chunk_count(), 1);
    assert_eq!(loaded.full_text.len(), 1);
    assert_eq!(loaded.full_text[0].search_text, "正文");

    let orphaned = tables();
    assert!(KnowledgeStore::from_tables(
        Vec::new(),
        orphaned.chunks,
        orphaned.embeddings,
        orphaned.next_document_id,
        orphaned.next_row_id
    )
    .is_none());
}

#[test]
fn listed_paths_are_those_of_the_notes_that_are_left() {
    let mut store = KnowledgeStore::new();
    let none: Vec<KnowledgeChunkDraft> = Vec::new();
    for path in ["b.md", "a.md", "c.md", "a.md"] {
        store.replace_document(path, "f", None, &none).unwrap();
    }
    store.delete_document("b.md");
    store.delete_document("x.md");
    assert_eq!(store.list_document_paths(), vec!["a.md", "c.md"]);
    store.replace_document("b.md", "f", None, &none).unwrap();
    assert_eq!(store.list_document_paths(), vec!["a.md", "b.md", "c.md"]);
}
