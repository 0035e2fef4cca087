//! What tools ask for, what they answer and what is shown of it.
use qq_maid_core::json::{write_json, Json};
use qq_maid_core::labels::Labels;
use qq_maid_core::memory::outcome::{tool_outcome_from_result, SAVE_MEMORY_TOOL_NAME};
use qq_maid_core::memory::save::SaveMemoryTool;
use qq_maid_core::memory::store::MemoryStore;
use qq_maid_core::memory::types::MemoryKind;
use qq_maid_core::rss::tool::{RssManageSubscriptionsTool, RssRecentItemsTool};
use qq_maid_core::tools::metadata::CallEffect;
use qq_maid_core::tools::outcome::{
    one_block_outcome, structured_error_code, CommandBody, OutcomePresentation, ResponseBlock,
    ToolEffect, ToolExecutionOutcome, ToolExecutionResult, ToolOutcomeStatus,
};
use qq_maid_core::tools::presenters::{
    tool_outcome_from_knowledge_result, tool_outcome_from_web_search_result, web_search_error,
    WebSearchReplies,
};
use qq_maid_core::tools::rss_cards::{
    rss_fact_card, rss_manage_outcome, tool_outcome_from_rss_result, RssCardTexts,
};
use qq_maid_core::tools::search::{
    web_search_tool_output, QueryOutcome, QuerySource, WebSearchTool,
};
use qq_maid_core::tools::train::{
    train_schedule_from_output, tool_outcome_from_train_result, TrainReplies,
};
use qq_maid_core::tools::turn::{
    agent_turn_diagnostics, apply_agent_turn_outcome, guard_error_code, has_own_interaction,
    postprocess_tool_turn, present_result, project_tool_turn, tool_turn_error_code,
    AgentTurnOutcome, AgentTurnStatus,
    RespondOutput, ResultTexts, SuccessValidation,
};
use qq_maid_core::tools::weather::{
    format_wind, location_detail, tool_outcome_from_weather_result, weather_fact_card, WeatherTexts,
};

fn text(s: &str) -> Json {
    Json::Text(s.to_owned())
}

fn object(entries: Vec<(&str, Json)>) -> Json {
    Json::Object(
        entries
            .into_iter()
            .map(|(key, value)| (key.to_owned(), value))
            .collect(),
    )
}

fn result(name: &str, output: Json) -> ToolExecutionResult {
    ToolExecutionResult {
        name: name.to_owned(),
        output,
        succeeded: true,
    }
}

fn rss_manage_result(output: Json) -> ToolExecutionResult {
    result("manage_rss_subscriptions", output)
}

#[test]
fn rss_manage_failed_add_renders_business_failures() {
    let failure = object(vec![
        ("url", text("https://example.test/feed.xml")),
        ("error", text("rss subscription already exists")),
    ]);
    let outcome = rss_manage_outcome(
        &rss_manage_result(object(vec![
            ("ok", Json::Bool(false)),
            ("operation", text("add")),
            ("created", Json::List(vec![])),
            ("failed", Json::List(vec![failure])),
            ("message", text("RSS 批量新增完成：成功 0 个，失败 1 个。")),
        ])),
        ToolOutcomeStatus::Failed,
    );

    assert_eq!(outcome.status, ToolOutcomeStatus::Failed);
    let ResponseBlock::Error { body } = &outcome.blocks[0] else {
        panic!("expected RSS manage error block");
    };
    assert!(body.text.contains("RSS 新增结果"));
    assert!(body.text.contains("https://example.test/feed.xml"));
    assert!(body.text.contains("rss subscription already exists"));
    assert!(!body.text.contains("RSS 本地记录暂时无法读取"));
}

#[test]
fn rss_manage_failed_delete_renders_missing_targets() {
    let outcome = rss_manage_outcome(
        &rss_manage_result(object(vec![
            ("ok", Json::Bool(false)),
            ("operation", text("delete")),
            ("deleted", Json::List(vec![])),
            ("missing", Json::List(vec![text("1"), text("missing-id")])),
            ("message", text("RSS 批量删除完成：成功 0 个，未找到 2 个。")),
        ])),
        ToolOutcomeStatus::Failed,
    );

    assert_eq!(outcome.status, ToolOutcomeStatus::Failed);
    let ResponseBlock::Error { body } = &outcome.blocks[0] else {
        panic!("expected RSS manage error block");
    };
    assert!(body.text.contains("RSS 删除结果"));
    assert!(body.text.contains("未找到 2 个目标"));
    assert!(body.text.contains("missing-id"));
    assert!(!body.text.contains("RSS 本地记录暂时无法读取"));
}

fn rss_texts() -> RssCardTexts {
    RssCardTexts {
        summaries: Labels::new(),
        times: Labels::new(),
    }
}

#[test]
fn recent_items_are_shown() {
    let item = object(vec![
        ("subscription", object(vec![("title", text("订阅"))])),
        (
            "item",
            object(vec![
                ("title", text("题")),
                ("link", text("https://example.test/a")),
                ("summary", text("摘要")),
            ]),
        ),
    ]);
    let body = rss_fact_card(
        &object(vec![("items", Json::List(vec![item]))]),
        &rss_texts(),
    );
    assert!(body.text.contains("【订阅】题\n摘要\n链接：https://example.test/a"));
    let other = tool_outcome_from_rss_result(
        &result("other", Json::Null),
        ToolOutcomeStatus::Succeeded,
        &rss_texts(),
    );
    assert!(other.is_none());
}

// Web search.

fn search_arguments(query: &str, max_results: Json, context_size: Json) -> Json {
    object(vec![
        ("query", text(query)),
        ("raw_question", Json::Null),
        ("max_results", max_results),
        ("context_size", context_size),
        ("model_override", Json::Null),
    ])
}

#[test]
fn web_search_tool_reuses_query_executor() {
    let tool = WebSearchTool::new();

    let request = tool
        .execute(
            false,
            &object(vec![
                ("query", text("Rust 新闻")),
                ("raw_question", text("/查 Rust 新闻")),
                ("max_results", Json::Whole(3)),
                ("context_size", text("medium")),
                ("model_override", text("gpt-search")),
            ]),
        )
        .unwrap();
    let output = web_search_tool_output(&QueryOutcome {
        answer: format!("answer: {}", request.query),
        sources: vec![QuerySource {
            title: "source title".to_owned(),
            url: "https://example.com".to_owned(),
            snippet: "source snippet".to_owned(),
        }],
        provider: "mock-query".to_owned(),
        elapsed_ms: 12,
    });

    assert_eq!(request.query, "Rust 新闻");
    assert_eq!(request.raw_question.as_deref(), Some("/查 Rust 新闻"));
    assert_eq!(request.max_results, Some(3));
    assert_eq!(request.context_size.as_deref(), Some("medium"));
    assert_eq!(request.model_override.as_deref(), Some("gpt-search"));
    assert_eq!(output.get_str("answer"), Some("answer: Rust 新闻"));
    assert_eq!(
        output.get_list("sources").unwrap()[0].get_str("url"),
        Some("https://example.com")
    );
    assert_eq!(output.get_whole("elapsed_ms"), Some(12));
}

#[test]
fn web_search_tool_rejects_empty_query_without_calling_executor() {
    let err = WebSearchTool::new()
        .execute(false, &search_arguments(" ", Json::Null, Json::Null))
        .unwrap_err();

    assert_eq!(err.code, "bad_tool_arguments");
}

#[test]
fn web_search_tool_rejects_invalid_options() {
    let tool = WebSearchTool::new();

    let err = tool
        .execute(false, &search_arguments("Rust", Json::Whole(99), Json::Null))
        .unwrap_err();
    assert_eq!(err.code, "bad_tool_arguments");

    let err = tool
        .execute(false, &search_arguments("Rust", Json::Null, text("huge")))
        .unwrap_err();
    assert_eq!(err.code, "bad_tool_arguments");
}

fn replies() -> WebSearchReplies {
    WebSearchReplies {
        answer: CommandBody::plain("答案"),
        error: CommandBody::plain("错误"),
        research_error: CommandBody::plain("研究错误"),
    }
}

#[test]
fn failed_searches_are_shown_as_errors() {
    let output = object(vec![
        ("ok", Json::Bool(false)),
        ("error_code", text("timeout")),
    ]);
    let outcome = tool_outcome_from_web_search_result(
        &result("web_search", output),
        ToolOutcomeStatus::Failed,
        &replies(),
    )
    .unwrap();
    assert_eq!(outcome.status, ToolOutcomeStatus::Failed);
    assert!(matches!(&outcome.blocks[0], ResponseBlock::Error { body } if body.text == "错误"));
    let found = tool_outcome_from_web_search_result(
        &result("web_search", object(vec![("answer", text("x"))])),
        ToolOutcomeStatus::Succeeded,
        &replies(),
    )
    .unwrap();
    assert!(matches!(&found.blocks[0], ResponseBlock::FactCard { body } if body.text == "答案"));
}

#[test]
fn missing_evidence_is_said() {
    let output = object(vec![("ok", Json::Bool(true)), ("status", text("no_hit"))]);
    let outcome =
        tool_outcome_from_knowledge_result(&result("knowledge_search", output)).unwrap();
    assert!(matches!(outcome.presentation, OutcomePresentation::Trusted));
    assert!(!outcome.blocks.is_empty());
    assert!(tool_outcome_from_knowledge_result(&result("other", Json::Null)).is_none());
}

fn knowledge_result(evidence_status: &str, error_code: Json, message: &str) -> ToolExecutionResult {
    result(
        "knowledge_search",
        object(vec![
            ("ok", Json::Bool(evidence_status != "failed")),
            ("status", text(evidence_status)),
            ("items", Json::List(vec![])),
            ("error_code", error_code),
            ("message", text(message)),
        ]),
    )
}

/// What is sent after a call whose outcome takes the place of the model's words.
fn sent(result: &ToolExecutionResult, status: ToolOutcomeStatus, model_reply: &str) -> (String, ToolExecutionOutcome) {
    let texts = ResultTexts {
        weather: weather_texts(),
        train: TrainReplies {
            schedule: None,
            errors: Labels::new(),
        },
        rss: rss_texts(),
        web_search: replies(),
        memory_scope: None,
    };
    let outcome = present_result(result, status, &texts, outcome("general"));
    let mut told = output(model_reply);
    match &outcome.blocks[0] {
        ResponseBlock::Warning { body } | ResponseBlock::Error { body } => {
            apply_agent_turn_outcome(&mut told, body)
        }
        _ => panic!("expected a warning or an error"),
    }
    (told.text, outcome)
}

#[test]
fn no_hit_does_not_preserve_fabricated_model_conclusion() {
    let result = knowledge_result(
        "no_hit",
        Json::Null,
        "本地知识库没有找到相关证据，不要据此编造结论。",
    );
    let (text, outcome) = sent(
        &result,
        ToolOutcomeStatus::Succeeded,
        "ZZ-UNKNOWN-999 已确认表示数据库连接耗尽。",
    );

    assert!(text.contains("没有找到相关证据"));
    assert!(!text.contains("数据库连接耗尽"));
    assert_eq!(outcome.error_code.as_deref(), Some("knowledge_no_hit"));
}

#[test]
fn failed_search_does_not_preserve_fabricated_model_conclusion() {
    let result = knowledge_result(
        "failed",
        Json::Text("knowledge_db_error".to_owned()),
        "知识检索失败，不能据此生成知识库结论。",
    );
    let (text, outcome) = sent(
        &result,
        ToolOutcomeStatus::Failed,
        "RAG-504 已确认表示权限不足。",
    );

    assert!(text.contains("知识检索失败"));
    assert!(!text.contains("权限不足"));
    assert_eq!(outcome.error_code.as_deref(), Some("knowledge_db_error"));
}

// Weather and trains.

fn weather_texts() -> WeatherTexts {
    let mut numbers = Labels::new();
    numbers.insert("21.4".to_owned(), "21".to_owned());
    WeatherTexts {
        conditions: Labels::new(),
        numbers,
        times: Labels::new(),
        days: Labels::new(),
        rains: false,
    }
}

#[test]
fn the_weather_is_shown() {
    let output = object(vec![
        (
            "location",
            object(vec![("name", text("静安")), ("adm1", text("上海"))]),
        ),
        (
            "current",
            object(vec![
                ("text", text("晴")),
                ("temperature", Json::Decimal("21.4".to_owned())),
            ]),
        ),
    ]);
    let body = weather_fact_card(&output, &weather_texts());
    assert!(body.text.contains("静安"));
    assert_eq!(
        format_wind(&Some("东风".to_owned()), &Some("3".to_owned())).as_deref(),
        Some("东风 3级")
    );
    assert_eq!(format_wind(&None, &None), None);
    assert_eq!(location_detail("上海", "上海"), None);
    assert!(tool_outcome_from_weather_result(
        &result("other", Json::Null),
        ToolOutcomeStatus::Succeeded,
        &weather_texts(),
    )
    .is_none());
}

fn train_output(day: &str) -> Json {
    let stop = object(vec![
        ("station_no", Json::Whole(1)),
        ("station_name", text("北京南")),
        ("arrive_time", Json::Null),
        ("departure_time", text("08:00")),
        ("stopover_minutes", Json::Null),
        ("day_difference", Json::Whole(0)),
        ("day_difference_reliable", Json::Bool(true)),
        ("station_train_code", text("G1")),
    ]);
    object(vec![
        ("train_code", text("G1")),
        ("travel_date", text(day)),
        ("start_station", text("北京南")),
        ("end_station", text("上海虹桥")),
        ("stops", Json::List(vec![stop])),
    ])
}

#[test]
fn schedules_are_read_for_real_days() {
    let schedule = train_schedule_from_output(&train_output("2026-02-28")).unwrap();
    assert_eq!(schedule.travel_date, (2026, 2, 28));
    assert_eq!(schedule.train_code, "G1");
    assert_eq!(schedule.stops.len(), 1);
    assert_eq!(schedule.stops[0].station_name, "北京南");
    assert!(train_schedule_from_output(&train_output("2026-02-30")).is_none());
    let replies = TrainReplies {
        schedule: Some(CommandBody::plain("时刻")),
        errors: Labels::new(),
    };
    assert!(tool_outcome_from_train_result(
        &result("other", Json::Null),
        ToolOutcomeStatus::Succeeded,
        &replies,
    )
    .is_none());
}

// A turn.

fn outcome(name: &str) -> ToolExecutionOutcome {
    one_block_outcome(
        name,
        "domain",
        ToolOutcomeStatus::Succeeded,
        ToolEffect::ReadOnly,
        ResponseBlock::FactCard {
            body: CommandBody::plain("事实"),
        },
        None,
        "command",
    )
}

#[test]
fn outcomes_stay_in_the_order_of_the_calls() {
    let all = project_tool_turn(
        vec![outcome("a"), outcome("b"), outcome("c")],
        &vec![1],
        vec![(1, outcome("todo"))],
    );
    let names: Vec<&str> = all.iter().map(|o| o.tool_name.as_str()).collect();
    assert_eq!(names, vec!["a", "todo", "c"]);
}

fn output(reply: &str) -> RespondOutput {
    RespondOutput {
        reply: reply.to_owned(),
        text: reply.to_owned(),
        markdown: None,
        chat_reply: None,
    }
}

fn turn(status: AgentTurnStatus) -> AgentTurnOutcome {
    AgentTurnOutcome {
        status,
        can_replace_model_reply: false,
        should_preserve_model_reply: false,
        has_unhandled_outcome: false,
        has_outcomes: false,
        body: CommandBody::plain("正文"),
        compat_body: CommandBody::plain("正文"),
    }
}

#[test]
fn unproved_success_is_not_sent() {
    let post = postprocess_tool_turn(
        output("我已经完成了"),
        &turn(AgentTurnStatus::Succeeded),
        true,
        false,
        output("没有确认"),
    );
    assert_eq!(post.output.text, "没有确认");
    assert!(matches!(
        post.validation,
        SuccessValidation::ByReply { passed: false }
    ));
    let mut told = output("模型");
    apply_agent_turn_outcome(&mut told, &CommandBody::plain("事实"));
    assert_eq!(told.text, "事实");
}

#[test]
fn failures_of_a_turn_have_a_code() {
    assert_eq!(
        tool_turn_error_code(None, Some("guard".to_owned())).as_deref(),
        Some("guard")
    );
    assert_eq!(tool_turn_error_code(None, None), None);
    assert!(tool_turn_error_code(Some(&turn(AgentTurnStatus::Failed)), None).is_some());
    assert!(has_own_interaction("a", "b"));
    assert!(!has_own_interaction("a", "a"));
    assert!(write_json(&agent_turn_diagnostics(None)).contains("agent"));
    assert_eq!(
        structured_error_code(&object(vec![("error_code", text("x"))])).as_deref(),
        Some("x")
    );
}

#[test]
fn saved_memories_have_a_receipt() {
    let saved = object(vec![
        ("ok", Json::Bool(true)),
        ("scope", text("personal")),
        ("content", text("喜欢茶")),
    ]);
    let outcome = tool_outcome_from_result(
        &result(SAVE_MEMORY_TOOL_NAME, saved),
        ToolOutcomeStatus::Succeeded,
        Some(MemoryKind::Personal),
    )
    .unwrap();
    assert!(matches!(
        &outcome.blocks[0],
        ResponseBlock::MutationReceipt { body } if body.text.contains("喜欢茶")
    ));
}

#[test]
fn tools_describe_themselves() {
    assert_eq!(RssRecentItemsTool::new().effect(), CallEffect::ReadOnly);
    let memory = SaveMemoryTool::new(MemoryStore::new());
    assert_eq!(memory.effect(), CallEffect::SideEffecting);
    assert_eq!(memory.metadata().name, SAVE_MEMORY_TOOL_NAME);
    assert_eq!(WebSearchTool::new().metadata().name, "web_search");
    let manage = RssManageSubscriptionsTool::new(1, 1).metadata();
    assert!(write_json(&manage.parameters).contains("\"operation\""));
}

#[test]
fn json_texts_are_quoted() {
    assert_eq!(write_json(&text("a\"b\n")), "\"a\\\"b\\n\"");
    assert_eq!(
        write_json(&object(vec![
            ("a", Json::List(vec![Json::Whole(1), Json::Negative(-2)])),
            ("b", Json::Null),
        ])),
        "{\"a\":[1,-2],\"b\":null}"
    );
}

#[test]
fn control_characters_are_escaped() {
    assert_eq!(
        write_json(&text("\u{1}\u{8}\u{c}\u{1f}\u{7f}\\é")),
        "\"\\u0001\\b\\f\\u001f\u{7f}\\\\é\""
    );
}

#[test]
fn the_first_domain_that_objects_is_reported() {
    let code = |s: &str| Some(s.to_owned());
    assert_eq!(guard_error_code(&vec![None, code("a"), code("b")]).as_deref(), Some("a"));
    assert_eq!(guard_error_code(&vec![None, None]), None);
}

#[test]
fn a_failed_search_names_code_and_stage() {
    let code = Json::Text("timeout".to_owned());
    let stage = Json::Text("fetch".to_owned());
    let failed = object(vec![("error", object(vec![("code", code), ("stage", stage)]))]);
    assert_eq!(web_search_error(&failed), ("timeout".to_owned(), "fetch".to_owned()));
    let bare = object(Vec::new());
    assert_eq!(web_search_error(&bare), ("provider_error".to_owned(), "web_search".to_owned()));
}

#[test]
fn long_cards_are_cut() {
    let item = || {
        object(vec![
            ("subscription", object(vec![("title", text("订阅"))])),
            (
                "item",
                object(vec![("title", text("题")), ("summary", text(&"摘".repeat(300)))]),
            ),
        ])
    };
    let items: Vec<Json> = (0..8).map(|_| item()).collect();
    let body = rss_fact_card(&object(vec![("items", Json::List(items))]), &rss_texts());
    assert_eq!(body.text.chars().count(), 1200);
    assert_eq!(body.markdown.as_ref().unwrap().chars().count(), 1200);
    let one = rss_fact_card(&object(vec![("items", Json::List(vec![item()]))]), &rss_texts());
    assert_eq!(one.text.matches('摘').count(), 260);

    let place = object(vec![("name", text(&"城".repeat(1000)))]);
    let body = weather_fact_card(&object(vec![("location", place)]), &weather_texts());
    assert_eq!(body.text.chars().count(), 900);
    assert!(body.text.starts_with("🌦 城城"));
}
