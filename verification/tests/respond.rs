//! Routing messages to tools, and what is shown meanwhile.
use qq_maid_core::respond::route::{
    classify_semantic_route, route_tool_loop, SemanticRoute, ToolDomain, ToolLoopRoute,
    ToolRouteContext, ToolRouteDecision,
};
use qq_maid_core::respond::runtime::{exposed_tool_names, is_quoted_bot_message, AgentToolMode};
use qq_maid_core::respond::status::{
    classify_status_hint, has_local_text_processing_intent, local_text_processing_instruction,
    InteractionDomain, InteractionDomainState, InteractionStateSnapshot, StatusAction, StatusHint,
    StatusSubject,
};
use qq_maid_core::respond::runtime::{ToolKind, ToolRuntime};
use qq_maid_core::respond::types::{
    ChatResponse, ErrorInfo, LlmMetrics, MessageInputPart, RespondPurpose, RespondRequest,
    RespondResponse,
};

fn request(text: &str) -> RespondRequest {
    RespondRequest {
        content: text.to_owned(),
        scope_key: "private:u1".to_owned(),
        user_id: Some("u1".to_owned()),
        platform: "qq_official".to_owned(),
        ..Default::default()
    }
}

fn recent(domain: InteractionDomain) -> InteractionStateSnapshot {
    InteractionStateSnapshot::from_domains(vec![InteractionDomainState {
        domain,
        has_visible_snapshot: true,
        has_recent_operation: true,
    }])
}

fn context() -> ToolRouteContext {
    ToolRouteContext {
        scene_enabled: true,
        tool_calling_enabled: true,
        group_tool_calling_enabled: false,
        provider_supports_tool_calling: true,
        enabled_tools_available: true,
        interaction_state: InteractionStateSnapshot::default(),
        has_due_date: false,
    }
}

fn context_with_recent_todo() -> ToolRouteContext {
    ToolRouteContext {
        interaction_state: recent(InteractionDomain::Todo),
        ..context()
    }
}

/// Whether the text names a day.
fn has_due_date(text: &str) -> bool {
    ["今天", "明天", "后天", "周四", "周五", "月底", "月末", "下个月", "10 号"]
        .iter()
        .any(|word| text.contains(word))
}

fn route(text: &str, context: ToolRouteContext) -> ToolRouteDecision {
    route_tool_loop(
        &request(text),
        &ToolRouteContext {
            has_due_date: has_due_date(text),
            ..context
        },
    )
}

#[test]
fn private_plain_messages_keep_streaming_chat() {
    for input in [
        "晚上好",
        "下午好呀",
        "早上好",
        "我晚上有点累",
        "你下午在吗",
        "你在吗",
        "能试试输出一段长文本，我试试流式输出",
        "写一段长文本测试流式",
        "讲个故事",
        "解释一下 Rust 所有权",
        "C2C 流式还有问题",
        "C2C 消息发送失败",
        "T3 架构怎么设计",
        "D1 版本说明",
        "T3架构怎么设计",
        "D1版本说明",
        "GPT-5 怎么选模型",
        "天气",
        "今天天气真好",
        "天气怎么设计",
        "聊聊天气",
        "温度参数怎么设计",
    ] {
        let decision = route(input, context());
        assert_eq!(decision.route, ToolLoopRoute::PlainChat, "{input}");
        assert_eq!(decision.semantic_route, SemanticRoute::PlainChat, "{input}");
        assert_eq!(decision.status_hint, None, "{input}");
    }
}

#[test]
fn scheduled_task_negative_phrases_do_not_enter_tool_loop() {
    for input in [
        "下午发烧了怎么办",
        "今天买的东西怎么保存",
        "周四确认这个方案为什么不行",
        "晚上发朋友圈文案怎么写",
    ] {
        let decision = route(input, context());
        assert_eq!(decision.route, ToolLoopRoute::PlainChat, "{input}");
        assert_ne!(decision.semantic_route, SemanticRoute::ToolLoop, "{input}");
        assert_eq!(decision.status_hint, None, "{input}");
    }
}

#[test]
fn private_tool_intent_uses_tool_loop_when_tool_calling_enabled() {
    for input in [
        "删除第二条",
        "处理第一项",
        "处理第一条",
        "把第一条改一下",
        "新增待办，明天接老公",
        "编辑第三条，其他不动",
        "记一下我喜欢少糖",
        "别忘了买菜",
        "别忘了交水电费",
        "提醒我续费",
        "帮我提醒一下检查日志",
        "回头提醒我检查日志",
        "明天别忘了买菜",
        "晚上提醒我提交周报",
        "下午检查发布清单",
        "明天上午整理方案",
        "周四项目 A 完成初稿",
        "周四下午项目 A 完成初稿",
        "下周五提醒我验收",
        "周五别忘了开会",
        "月底提醒我续费",
        "月末提醒我续费",
        "下个月初提醒我看账单",
        "7 月 10 号提醒我验收",
        "杭州天气",
        "杭州天气如何",
        "杭州明天要带伞吗",
        "明天会不会下雨",
        "查一下 G1 时刻",
        "G1 明天几点",
        "高铁 G1 时刻",
        "明天有没有g1，我想看看，如果有车，我要加个待办，是上海到北京么",
        "明天上海到北京有高铁吗，有的话提醒我",
        "如果明天下雨，帮我加个带伞的待办",
        "查看上次 codex 发布的 rss",
    ] {
        let decision = route(input, context());
        assert_eq!(decision.route, ToolLoopRoute::CompleteToolLoop, "{input}");
        assert_eq!(decision.semantic_route, SemanticRoute::ToolLoop, "{input}");
        assert!(decision.status_hint.is_some(), "{input}");
    }
}

#[test]
fn private_tool_intent_carries_status_hint_without_changing_route() {
    let cases = [
        (
            "杭州明天要带伞吗",
            StatusHint::new(StatusSubject::Weather, StatusAction::Query),
        ),
        (
            "新增待办，明天接老公",
            StatusHint::new(StatusSubject::Todo, StatusAction::Write),
        ),
        (
            "下午检查发布清单",
            StatusHint::new(StatusSubject::Todo, StatusAction::Write),
        ),
        (
            "完成第一条",
            StatusHint::new(StatusSubject::Todo, StatusAction::Confirm),
        ),
        (
            "查看待办有哪些",
            StatusHint::new(StatusSubject::Todo, StatusAction::Query),
        ),
        (
            "查看上次 codex 发布的 rss",
            StatusHint::new(StatusSubject::Rss, StatusAction::Query),
        ),
        (
            "查一下 G1 时刻",
            StatusHint::new(StatusSubject::Train, StatusAction::Query),
        ),
    ];

    for (input, expected_hint) in cases {
        let decision = route(input, context());
        assert_eq!(decision.route, ToolLoopRoute::CompleteToolLoop, "{input}");
        assert_eq!(decision.status_hint, Some(expected_hint), "{input}");
    }
}

#[test]
fn ambiguous_private_defaults_to_plain_chat() {
    for input in ["安排一下", "帮我处理一下", "刚刚没看到，再来一条"] {
        let decision = route(input, context());
        assert_eq!(decision.route, ToolLoopRoute::PlainChat, "{input}");
        assert_eq!(decision.semantic_route, SemanticRoute::Ambiguous, "{input}");
        assert_eq!(decision.reason, "semantic_ambiguous_plain", "{input}");
        assert_eq!(decision.status_hint, None, "{input}");
    }
}

#[test]
fn private_todo_reference_routes_by_strength_and_recent_context() {
    for input in [
        "完成第一条",
        "处理第一项",
        "取消它",
        "删掉这个",
        "这些完成了",
    ] {
        let decision = route(input, context());
        assert_eq!(decision.route, ToolLoopRoute::CompleteToolLoop, "{input}");
        assert_eq!(decision.semantic_route, SemanticRoute::ToolLoop, "{input}");
        assert_eq!(decision.domain, ToolDomain::Todo, "{input}");
    }

    for input in ["这个改一下", "都删除了吧"] {
        let weak_without_context = route(input, context());
        assert_eq!(
            weak_without_context.route,
            ToolLoopRoute::PlainChat,
            "{input}"
        );
        assert_eq!(
            weak_without_context.semantic_route,
            SemanticRoute::PlainChat,
            "{input}"
        );
        assert_eq!(
            weak_without_context.reason, "todo_reference_context_missing",
            "{input}"
        );
    }

    for input in ["这个改一下", "都删除了吧"] {
        let weak_with_context = route(input, context_with_recent_todo());
        assert_eq!(
            weak_with_context.route,
            ToolLoopRoute::CompleteToolLoop,
            "{input}"
        );
        assert_eq!(
            weak_with_context.semantic_route,
            SemanticRoute::ToolLoop,
            "{input}"
        );
        assert_eq!(weak_with_context.domain, ToolDomain::Todo, "{input}");
    }
}

#[test]
fn bare_number_todo_operations_require_recent_context() {
    for input in [
        "7删除",
        "删除7",
        "7取消",
        "取消7",
        "7完成",
        "把7合并到6",
        "6和7合并",
    ] {
        let without_context = route(input, context());
        assert_eq!(without_context.route, ToolLoopRoute::PlainChat, "{input}");
        assert_eq!(
            without_context.reason, "todo_number_context_missing",
            "{input}"
        );

        let with_context = route(input, context_with_recent_todo());
        assert_eq!(
            with_context.route,
            ToolLoopRoute::CompleteToolLoop,
            "{input}"
        );
        assert_eq!(
            with_context.semantic_route,
            SemanticRoute::ToolLoop,
            "{input}"
        );
        assert_eq!(with_context.domain, ToolDomain::Todo, "{input}");
    }
}

#[test]
fn bare_numbers_without_todo_action_do_not_route_to_tools() {
    for input in [
        "407 笑死我了",
        "T3 架构怎么设计",
        "D1 版本说明",
        "2026 年计划",
    ] {
        let decision = route(input, context_with_recent_todo());
        assert_eq!(decision.route, ToolLoopRoute::PlainChat, "{input}");
        assert_ne!(decision.domain, ToolDomain::Todo, "{input}");
    }
}

#[test]
fn plain_text_generation_without_tool_affordance_keeps_plain_chat() {
    for input in [
        "能不能给我发一条，三行的信息",
        "刚刚没看到，再来一条",
        "帮我写个文案",
        "解释一下这个问题",
        "我好烦，陪我聊会",
    ] {
        let decision = route(input, context());
        assert_eq!(decision.route, ToolLoopRoute::PlainChat, "{input}");
        assert_ne!(decision.reason, "semantic_tool_intent", "{input}");
        assert_ne!(decision.semantic_route, SemanticRoute::ToolLoop, "{input}");
        assert_eq!(decision.status_hint, None, "{input}");
    }

    for input in ["能不能给我发一条，三行的信息", "刚刚没看到，再来一条"]
    {
        let decision = route(input, context());
        assert_eq!(decision.semantic_route, SemanticRoute::Ambiguous, "{input}");
    }
}

#[test]
fn enabled_tools_alone_do_not_force_tool_loop() {
    let decision = route("安排一下", context());
    assert_eq!(decision.route, ToolLoopRoute::PlainChat);
    assert_eq!(decision.semantic_route, SemanticRoute::Ambiguous);
}

#[test]
fn provider_tool_support_alone_do_not_force_tool_loop() {
    let decision = route("普通说两句", context());
    assert_eq!(decision.route, ToolLoopRoute::PlainChat);
    assert_eq!(decision.semantic_route, SemanticRoute::Ambiguous);
}

#[test]
fn reminder_without_date_but_with_payload_routes_to_todo_write_tool_loop() {
    for input in [
        "别忘了买菜",
        "别忘了交水电费",
        "提醒我续费",
        "帮我提醒一下检查日志",
        "回头提醒我检查日志",
    ] {
        let decision = route(input, context());
        assert_eq!(decision.route, ToolLoopRoute::CompleteToolLoop, "{input}");
        assert_eq!(decision.semantic_route, SemanticRoute::ToolLoop, "{input}");
        assert_eq!(decision.domain, ToolDomain::Todo, "{input}");
        assert_eq!(
            decision.status_hint,
            Some(StatusHint::new(StatusSubject::Todo, StatusAction::Write)),
            "{input}"
        );
    }
}

#[test]
fn reminder_with_date_still_routes_to_todo_write_tool_loop() {
    for input in [
        "明天别忘了",
        "明天别忘了买菜",
        "下周五提醒我验收",
        "月底提醒我续费",
    ] {
        let decision = route(input, context());
        assert_eq!(decision.route, ToolLoopRoute::CompleteToolLoop, "{input}");
        assert_eq!(decision.semantic_route, SemanticRoute::ToolLoop, "{input}");
        assert_eq!(decision.domain, ToolDomain::Todo, "{input}");
        assert_eq!(
            decision.status_hint,
            Some(StatusHint::new(StatusSubject::Todo, StatusAction::Write)),
            "{input}"
        );
    }
}

#[test]
fn reminder_action_without_date_or_payload_stays_ambiguous_plain() {
    for input in ["别忘了", "提醒我"] {
        let decision = route(input, context());
        assert_eq!(decision.route, ToolLoopRoute::PlainChat, "{input}");
        assert_eq!(decision.semantic_route, SemanticRoute::Ambiguous, "{input}");
        assert_eq!(decision.status_hint, None, "{input}");
    }
}

#[test]
fn disabled_or_group_request_keeps_plain_route() {
    let mut group = request("杭州明天要带伞吗");
    group.group_id = Some("g1".to_owned());
    assert_eq!(
        route_tool_loop(&group, &context()).route,
        ToolLoopRoute::PlainChat
    );
    assert_eq!(
        route_tool_loop(
            &request("杭州明天要带伞吗"),
            &ToolRouteContext {
                scene_enabled: true,
                tool_calling_enabled: false,
                group_tool_calling_enabled: false,
                provider_supports_tool_calling: true,
                enabled_tools_available: true,
                interaction_state: InteractionStateSnapshot::default(),
                has_due_date: true,
            },
        )
        .route,
        ToolLoopRoute::PlainChat
    );
}

#[test]
fn group_request_uses_tool_loop_when_group_switch_enabled() {
    let mut group = request("杭州明天要带伞吗");
    group.group_id = Some("g1".to_owned());
    assert_eq!(
        route_tool_loop(
            &group,
            &ToolRouteContext {
                group_tool_calling_enabled: true,
                ..context()
            },
        )
        .route,
        ToolLoopRoute::CompleteToolLoop
    );
}

#[test]
fn group_plain_and_ambiguous_keep_plain_route_even_when_group_switch_enabled() {
    for input in ["晚上好", "写一段长文本测试流式", "那个帮我处理一下"] {
        assert_eq!(
            route_tool_loop(
                &{
                    let mut group = request(input);
                    group.group_id = Some("g1".to_owned());
                    group
                },
                &ToolRouteContext {
                    group_tool_calling_enabled: true,
                    ..context()
                },
            )
            .route,
            ToolLoopRoute::PlainChat,
            "{input}"
        );
    }
}

#[test]
fn disabled_scene_keeps_plain_route_even_when_tools_supported() {
    assert_eq!(
        route_tool_loop(
            &request("晚上好"),
            &ToolRouteContext {
                scene_enabled: false,
                ..context()
            },
        )
        .route,
        ToolLoopRoute::PlainChat
    );
}

#[test]
fn empty_enabled_tools_keep_plain_route() {
    assert_eq!(
        route_tool_loop(
            &request("杭州明天要带伞吗"),
            &ToolRouteContext {
                enabled_tools_available: false,
                ..context()
            },
        )
        .route,
        ToolLoopRoute::PlainChat
    );
}

#[test]
fn todo_weak_references_only_use_todo_domain_context() {
    let todo_context = recent(InteractionDomain::Todo);
    let no_context = InteractionStateSnapshot::default();
    let non_todo_context = recent(InteractionDomain::Other);

    for input in ["这个改一下", "删除7", "把7合并到6"] {
        assert!(
            classify_status_hint(input, &todo_context, false, false)
                .is_some_and(|hint| hint.subject == StatusSubject::Todo),
            "{input}"
        );
        assert_eq!(classify_status_hint(input, &no_context, false, false), None, "{input}");
        assert_eq!(
            classify_status_hint(input, &non_todo_context, false, false),
            None,
            "{input}"
        );
    }
}

#[test]
fn explicit_status_semantics_do_not_depend_on_recent_context() {
    let context = InteractionStateSnapshot::default();
    let cases = [
        (
            "杭州明天要带伞吗",
            StatusHint::new(StatusSubject::Weather, StatusAction::Query),
        ),
        (
            "新增待办，明天接人",
            StatusHint::new(StatusSubject::Todo, StatusAction::Write),
        ),
        (
            "完成第一条",
            StatusHint::new(StatusSubject::Todo, StatusAction::Confirm),
        ),
        (
            "查一下今天 AI 新闻",
            StatusHint::new(StatusSubject::Search, StatusAction::Query),
        ),
    ];
    for (input, expected) in cases {
        let is_search = input.contains("新闻");
        assert_eq!(
            classify_status_hint(input, &context, has_due_date(input), is_search),
            Some(expected),
            "{input}"
        );
    }
}

#[test]
fn weak_references_need_a_recent_task() {
    let with = classify_semantic_route("这个改一下", false, true);
    let without = classify_semantic_route("这个改一下", false, false);
    assert_eq!(with.semantic_route, SemanticRoute::ToolLoop);
    assert_eq!(with.domain, ToolDomain::Todo);
    assert_eq!(without.semantic_route, SemanticRoute::PlainChat);
    assert_eq!(without.reason, "todo_reference_context_missing");
}

#[test]
fn messages_with_media_stay_in_plain_chat() {
    let mut message = request("删除第二条");
    message.input_parts = vec![MessageInputPart::Media {
        url: "https://example.test/a.png".to_owned(),
    }];
    let decision = route_tool_loop(&message, &context());
    assert_eq!(decision.route, ToolLoopRoute::PlainChat);
    assert_eq!(decision.reason, "multimodal_plain_chat");
}

#[test]
fn unavailable_tools_are_said() {
    let decision = route_tool_loop(
        &request("删除第二条"),
        &ToolRouteContext {
            provider_supports_tool_calling: false,
            ..context()
        },
    );
    assert_eq!(decision.reason, "tool_loop_unavailable");
}

#[test]
fn the_last_short_line_is_the_instruction() {
    assert_eq!(local_text_processing_instruction("  "), None);
    assert_eq!(
        local_text_processing_instruction(" 总结一下 ").as_deref(),
        Some("总结一下")
    );
    let long = format!("{}\n\n 说人话 \n", "字".repeat(100));
    assert_eq!(local_text_processing_instruction(&long).as_deref(), Some("说人话"));
    assert_eq!(local_text_processing_instruction(&"字".repeat(81)), None);
}

#[test]
fn an_online_search_is_no_local_work() {
    assert!(has_local_text_processing_intent("帮我总结一下"));
    assert!(!has_local_text_processing_intent("联网搜索后总结一下"));
}

#[test]
fn request_text_falls_back_to_the_content() {
    let mut message = request("内容");
    assert_eq!(message.effective_user_text(), "内容");
    message.user_text = " 原文 ".to_owned();
    assert_eq!(message.effective_user_text(), " 原文 ");
    let parts = message.effective_input_parts();
    assert_eq!(parts.len(), 1);
    assert!(matches!(&parts[0], MessageInputPart::Text { text } if text == " 原文 "));
    assert!(!message.has_non_text_input_parts());
    assert!(matches!(RespondPurpose::default(), RespondPurpose::Chat));
}

fn metrics() -> LlmMetrics {
    LlmMetrics {
        provider: "p".to_owned(),
        model: "m".to_owned(),
        stream: false,
        ttfe_ms: None,
        ttft_ms: None,
        total_latency_ms: 7,
    }
}

#[test]
fn responses_carry_the_chat() {
    let ok = ChatResponse::ok("好".to_owned(), metrics(), None);
    assert!(ok.ok);
    assert_eq!(ok.reply.as_deref(), Some("好"));
    let response = RespondResponse::from_chat(ok, Some("文".to_owned()), None);
    assert!(response.ok);
    assert_eq!(response.text.as_deref(), Some("文"));
    assert_eq!(response.metrics.total_latency_ms, 7);
    let failed = ChatResponse::error(
        metrics(),
        ErrorInfo {
            code: "timeout".to_owned(),
            message: "late".to_owned(),
            stage: "chat".to_owned(),
        },
    );
    assert!(!failed.ok);
    assert_eq!(failed.error.unwrap().code, "timeout");
}

#[test]
fn quoted_messages_are_the_bots_only_if_that_is_known() {
    assert!(is_quoted_bot_message(true, Some(true)));
    assert!(!is_quoted_bot_message(true, Some(false)));
}

#[test]
fn a_tool_mode_limits_what_is_exposed() {
    let enabled = vec!["save_memory".to_owned(), "web_search".to_owned()];
    let white = exposed_tool_names(
        AgentToolMode::ConfiguredWhitelist,
        &enabled,
        vec!["web_search".to_owned()],
    );
    assert_eq!(white, vec!["web_search".to_owned()]);
    let memory = exposed_tool_names(AgentToolMode::MemoryOnly, &enabled, Vec::new());
    assert_eq!(memory, vec!["save_memory".to_owned()]);
}

#[test]
fn messages_with_a_scope_or_content_are_standard() {
    let mut message = RespondRequest::default();
    assert!(!message.is_standard_message());
    message.content = " ".to_owned();
    assert!(!message.is_standard_message());
    message.scope_key = "private:u1".to_owned();
    assert!(message.is_standard_message());
    message.scope_key = String::new();
    message.content = "你好".to_owned();
    assert!(message.is_standard_message());
}

#[test]
fn every_tool_is_registered_once() {
    let runtime = ToolRuntime::new(500, 200, 8000, 3000);
    assert_eq!(runtime.registry.len(), 16);
    assert_eq!(runtime.registry[0], ToolKind::Weather);
    assert!(runtime.registry.contains(&ToolKind::SaveMemory));
    assert!(runtime.registry.contains(&ToolKind::KnowledgeSearch));
    for (index, tool) in runtime.registry.iter().enumerate() {
        assert!(!runtime.registry[..index].contains(tool));
    }
}
