//! What becomes of words that a user wants remembered: which are taken, where they go, and
//! how a change that waits is carried out.
use vstd::prelude::*;
use vstd::string::*;

use crate::memory::draft;
use crate::memory::flow;
use crate::memory::flow::{
    PendingAnswer, PendingFacts, PendingNotice, PendingReplyKind, PendingStep, PreparedActionState,
    Revision,
};
use crate::memory::operation_laws;
use crate::memory::operations;
use crate::memory::pending;
use crate::memory::pending::{MemoryPendingPayload, PreparedMemoryDraft};
use crate::memory::save;
use crate::memory::save::{ConversationKind, SaveCall, SaveOutcome};
use crate::memory::store::{MemoryRow, StoreView};
use crate::memory::types::{
    MemoryActor, MemoryCategory, MemoryError, MemoryKind, MemoryMutationResult, MemoryRecord,
    MemoryScopeType, MemorySourceType, MemoryStatus, MemoryTarget, MemoryVisibility,
    MemoryWriteResult, SaveMemoryRequest,
};
use crate::text;

verus! {

// Words.

/// Whether the words start with one of the labels that a draft may carry.
pub open spec fn starts_with_label(words: Seq<char>) -> bool {
    text::starts_with(words, "记忆草稿"@) || text::starts_with(words, "记忆"@) || text::starts_with(
        words,
        "内容"@,
    ) || text::starts_with(words, "可写入记忆"@) || text::starts_with(words, "写入内容"@)
}

/// Plain words of at most 600 characters are taken as they are.
pub proof fn plain_words_are_taken(raw: Seq<char>, words: Seq<char>)
    requires
        0 < words.len() <= 600,
        !text::is_space(words[0]) && !text::is_space(words[words.len() - 1]),
        words[0] != '。' && words[words.len() - 1] != '。',
        words[0] != '{',
        !starts_with_label(words),
        !text::starts_with(text::trim_start(raw), "```"@),
    ensures
        draft::sanitized(raw, words) == Some(words),
{
    reveal_strlit("。");
    reveal_strlit("{");
    lemma_trimmed_whole(words);
    assert(!"。"@.contains(words[0])) by {
        if "。"@.contains(words[0]) {
            let k = choose|k: int| 0 <= k < "。"@.len() && "。"@[k] == words[0];
        }
    }
    assert(!"。"@.contains(words[words.len() - 1])) by {
        if "。"@.contains(words[words.len() - 1]) {
            let k = choose|k: int| 0 <= k < "。"@.len() && "。"@[k] == words[words.len() - 1];
        }
    }
    text::lemma_trim_set_start(words, "。"@, 0);
    assert(words.skip(0) =~= words);
    text::lemma_trim_set_end(words, "。"@, words.len() as int);
    assert(words.take(words.len() as int) =~= words);
    assert(text::trim_start(words) == words) by {
        text::lemma_trim_start(words, 0);
    }
    assert(words.subrange(0, 1)[0] != '{');
    assert(!text::starts_with(words, "{"@));
}

proof fn lemma_trimmed_whole(s: Seq<char>)
    requires
        s.len() > 0,
        !text::is_space(s[0]),
        !text::is_space(s[s.len() - 1]),
    ensures
        text::trimmed(s) == s,
{
    text::lemma_trim_start(s, 0);
    assert(s.skip(0) =~= s);
    text::lemma_trim_end(s, s.len() as int);
    assert(s.take(s.len() as int) =~= s);
}

proof fn lemma_no_stops(words: Seq<char>)
    requires
        words.len() > 0,
        words[0] != '。',
        words[words.len() - 1] != '。',
    ensures
        text::trim_set(words, "。"@) == words,
{
    reveal_strlit("。");
    assert(!"。"@.contains(words[0])) by {
        if "。"@.contains(words[0]) {
            let k = choose|k: int| 0 <= k < "。"@.len() && "。"@[k] == words[0];
        }
    }
    assert(!"。"@.contains(words[words.len() - 1])) by {
        if "。"@.contains(words[words.len() - 1]) {
            let k = choose|k: int| 0 <= k < "。"@.len() && "。"@[k] == words[words.len() - 1];
        }
    }
    text::lemma_trim_set_start(words, "。"@, 0);
    assert(words.skip(0) =~= words);
    text::lemma_trim_set_end(words, "。"@, words.len() as int);
    assert(words.take(words.len() as int) =~= words);
}

/// A label in front of the words, with a colon, is not saved with them.
pub proof fn labels_are_not_saved(raw: Seq<char>, label: Seq<char>, words: Seq<char>)
    requires
        label == "记忆草稿"@ || label == "记忆"@ || label == "内容"@ || label == "可写入记忆"@ || label == "写入内容"@,
        0 < words.len() <= 600,
        !text::is_space(words[0]) && !text::is_space(words[words.len() - 1]),
        words[words.len() - 1] != '。',
        words[0] != '{',
        !text::starts_with(text::trim_start(raw), "```"@),
    ensures
        draft::sanitized(raw, label + seq!['：'] + words) == Some(words),
        draft::sanitized(raw, label + seq![':'] + words) == Some(words),
{
    lemma_label(raw, label, '：', words);
    lemma_label(raw, label, ':', words);
}

proof fn lemma_label(raw: Seq<char>, label: Seq<char>, colon: char, words: Seq<char>)
    requires
        label == "记忆草稿"@ || label == "记忆"@ || label == "内容"@ || label == "可写入记忆"@ || label == "写入内容"@,
        colon == '：' || colon == ':',
        0 < words.len() <= 600,
        !text::is_space(words[0]) && !text::is_space(words[words.len() - 1]),
        words[words.len() - 1] != '。',
        words[0] != '{',
        !text::starts_with(text::trim_start(raw), "```"@),
    ensures
        draft::sanitized(raw, label + seq![colon] + words) == Some(words),
{
    reveal_strlit("记忆草稿");
    reveal_strlit("记忆");
    reveal_strlit("内容");
    reveal_strlit("可写入记忆");
    reveal_strlit("写入内容");
    reveal_strlit("{");
    let s = label + seq![colon] + words;
    let n = label.len() as int;
    assert(s[0] == label[0]);
    assert(s[n] == colon);
    assert(s[s.len() - 1] == words[words.len() - 1]);
    lemma_trimmed_whole(s);
    lemma_no_stops(s);
    assert(s.subrange(0, n) =~= label);
    let rest = s.skip(n);
    assert(rest =~= seq![colon] + words);
    text::lemma_trim_start(rest, 0);
    assert(rest.skip(0) =~= rest);
    assert(rest.skip(1) =~= words);
    lemma_trimmed_whole(words);
    assert(draft::labelled(s, label) == Some(words));
    lemma_other_label(s, label, "记忆草稿"@);
    lemma_other_label(s, label, "记忆"@);
    lemma_other_label(s, label, "内容"@);
    lemma_other_label(s, label, "可写入记忆"@);
    lemma_other_label(s, label, "写入内容"@);
    if label == "记忆"@ {
        assert(draft::labelled(s, "记忆草稿"@) is None) by {
            if text::starts_with(s, "记忆草稿"@) {
                assert(s.subrange(0, 4)[2] == s[2]);
                assert("记忆草稿"@[2] == '草');
            }
        }
    }
    assert(draft::unlabelled(s) == words);
    text::lemma_trim_start(words, 0);
    assert(words.skip(0) =~= words);
    assert(words.subrange(0, 1)[0] != '{');
}

proof fn lemma_other_label(s: Seq<char>, label: Seq<char>, other: Seq<char>)
    requires
        s.len() > 0,
        label.len() > 0,
        other.len() > 0,
        s[0] == label[0],
    ensures
        other[0] != label[0] ==> draft::labelled(s, other) is None,
{
    if other[0] != label[0] && text::starts_with(s, other) {
        assert(s.subrange(0, other.len() as int)[0] == s[0]);
    }
}

/// Of long words the first 600 characters are saved.
pub proof fn long_words_are_cut(raw: Seq<char>, words: Seq<char>)
    requires
        words.len() > 600,
        !text::is_space(words[0]) && !text::is_space(words[words.len() - 1]),
        !text::is_space(words[599]),
        words[0] != '。' && words[words.len() - 1] != '。',
        words[0] != '{',
        !starts_with_label(words),
        !text::starts_with(text::trim_start(raw), "```"@),
    ensures
        draft::sanitized(raw, words) == Some(words.take(600)),
{
    reveal_strlit("{");
    lemma_trimmed_whole(words);
    lemma_no_stops(words);
    text::lemma_trim_start(words, 0);
    assert(words.skip(0) =~= words);
    assert(words.subrange(0, 1)[0] != '{');
    let cut = words.take(600);
    text::lemma_trim_end(cut, 600);
    assert(cut.take(600) =~= cut);
}

// Replies that hold a draft.

/// A reply in JSON gives the words under its key; one that is not is read inside its fence, and
/// else between its outermost braces; without JSON it gives none.
pub proof fn replies_are_read_as_json(
    whole: Option<Option<Seq<char>>>,
    fenced: Option<Option<Seq<char>>>,
    part: Option<Option<Seq<char>>>,
)
    ensures
        whole matches Some(w) ==> draft::first_reading(whole, fenced, part) == w,
        whole is None ==> (fenced matches Some(w) ==> draft::first_reading(whole, fenced, part) == w),
        whole is None && fenced is None ==> (part matches Some(w) ==> draft::first_reading(whole, fenced, part)
            == w),
        whole is None && fenced is None && part is None ==> draft::first_reading(whole, fenced, part) is None,
{
}

/// What stands in a fence is read without the fence.
pub proof fn fences_are_taken_away(inside: Seq<char>)
    requires
        inside.len() > 0,
        !text::is_space(inside[0]) && !text::is_space(inside[inside.len() - 1]),
        inside[0] != 'j',
    ensures
        draft::fenced_json("```json\n"@ + inside + "\n```"@) == Some(inside),
        draft::fenced_json("```\n"@ + inside + "\n```"@) == Some(inside),
{
    lemma_fence("```json\n"@, inside);
    lemma_fence("```\n"@, inside);
}

proof fn lemma_fence(lead: Seq<char>, inside: Seq<char>)
    requires
        lead == "```json\n"@ || lead == "```\n"@,
        inside.len() > 0,
        !text::is_space(inside[0]) && !text::is_space(inside[inside.len() - 1]),
        inside[0] != 'j',
    ensures
        draft::fenced_json(lead + inside + "\n```"@) == Some(inside),
{
    reveal_strlit("```json\n");
    reveal_strlit("```\n");
    reveal_strlit("\n```");
    reveal_strlit("```");
    reveal_strlit("json");
    let s = lead + inside + "\n```"@;
    assert(s.subrange(0, 3) =~= "```"@);
    let body = s.skip(3);
    let end = inside + "\n```"@;
    let rest = seq!['\n'] + end;
    if lead == "```json\n"@ {
        assert(body =~= "json"@ + rest);
        assert(body.subrange(0, 4) =~= "json"@);
        assert(body.skip(4) =~= rest);
    } else {
        assert(body =~= rest);
        assert(body.subrange(0, 4)[0] == '\n');
    }
    assert(rest[0] == '\n');
    assert(rest[1] == inside[0]);
    text::lemma_trim_start(rest, 1);
    assert(rest.skip(1) =~= end);
    assert(end.subrange(end.len() - 3, end.len() as int) =~= "```"@);
    let t = inside.push('\n');
    assert(end.take(end.len() - 3) =~= t);
    text::lemma_trim_start(t, 0);
    assert(t.skip(0) =~= t);
    text::lemma_trim_end(t, inside.len() as int);
    assert(t.take(inside.len() as int) =~= inside);
}

/// What is taken is never longer than 600 characters and never nothing; code and JSON are not
/// taken.
pub proof fn taken_words_are_short(raw: Seq<char>, plain: Seq<char>)
    ensures
        draft::sanitized(raw, plain) matches Some(words) ==> 0 < words.len() <= 600,
        text::starts_with(text::trim_start(raw), "```"@) ==> draft::sanitized(raw, plain) is None,
{
    let c = draft::unlabelled(text::trimmed(text::trim_set(text::trimmed(plain), "。"@)));
    if c.len() > 600 {
        lemma_end_is_shorter(c.take(600));
    }
}

proof fn lemma_end_is_shorter(s: Seq<char>)
    ensures
        text::trim_end(s).len() <= s.len(),
    decreases s.len(),
{
    if s.len() > 0 && text::is_space(s.last()) {
        lemma_end_is_shorter(s.drop_last());
    }
}

/// A text that masking changes, that names a kind of secret, or that holds an identity number
/// is never remembered; any other is.
pub proof fn secrets_are_recognised(s: Seq<char>, masked: Seq<char>, i: int)
    ensures
        ({
            let low = text::ascii_lowered(s);
            let secret = |w: Seq<char>| text::has_sub(low, w);
            &&& masked != s ==> draft::is_sensitive(s, masked)
            &&& secret("身份证"@) || secret("护照号"@) || secret("银行卡"@) ==> draft::is_sensitive(s, masked)
            &&& secret("账号密码"@) || secret("登录密码"@) || secret("支付密码"@) ==> draft::is_sensitive(
                s,
                masked,
            )
            &&& secret("api key"@) || secret("apikey"@) || secret("credential"@) || secret(
                "private key"@,
            ) ==> draft::is_sensitive(s, masked)
            &&& secret("access token"@) || secret("refresh token"@) || secret("bearer "@)
                ==> draft::is_sensitive(s, masked)
            &&& 0 <= i && i + 18 <= s.len() && (forall|k: int|
                i <= k < i + 17 ==> '0' <= #[trigger] s[k] <= '9') && ('0' <= s[i + 17] <= '9' || s[i
                + 17] == 'x' || s[i + 17] == 'X') ==> draft::is_sensitive(s, masked)
        }),
{
    if 0 <= i && i + 18 <= s.len() && (forall|k: int| i <= k < i + 17 ==> '0' <= #[trigger] s[k] <= '9') && (
    '0' <= s[i + 17] <= '9' || s[i + 17] == 'x' || s[i + 17] == 'X') {
        assert forall|k: int| i <= k < i + 17 implies text::is_digit(#[trigger] s[k]) by {
            assert('0' <= s[k] <= '9');
        }
        assert(draft::id_number_at(s, i));
    }
}

/// Names and identities replace what was said of them before; likes are preferences; rules and
/// dates of a group are instructions; all else is a note.
pub proof fn words_are_sorted_by_what_they_say(s: Seq<char>, kind: MemoryKind)
    ensures
        ({
            let holds = |w: Seq<char>| text::has_sub(s, w);
            let name = holds("叫我"@) || holds("称呼"@) || holds("昵称"@);
            let role = holds("身份"@) || holds("角色"@) || holds("人设"@);
            let liking = holds("喜欢"@) || holds("偏好"@) || holds("希望你回复"@);
            let rule = holds("群规"@) || holds("约定"@) || holds("每周"@) || holds("公告"@);
            let sorted = draft::classified(s, kind);
            &&& name ==> sorted == (MemoryCategory::Identity, Some("nickname"@))
            &&& !name && role ==> sorted == (MemoryCategory::Identity, Some("identity"@))
            &&& !name && !role && liking ==> sorted == (
                MemoryCategory::Preference,
                None::<Seq<char>>,
            )
            &&& !name && !role && !liking && !holds("不喜欢"@) && rule && kind == MemoryKind::Group
                ==> sorted == (MemoryCategory::Instruction, None::<Seq<char>>)
            &&& !name && !role && !liking && !holds("不喜欢"@) && !(rule && kind == MemoryKind::Group)
                ==> sorted == (MemoryCategory::Note, None::<Seq<char>>)
        }),
{
}

// Where they go.

/// With one user alone, words go to that user's notes.
pub proof fn private_words_go_to_the_user(
    r: Result<Option<MemoryTarget>, &'static str>,
    conversation: ConversationKind,
    actor: MemoryActor,
    inferred: Option<MemoryKind>,
    suggested: Seq<char>,
)
    requires
        save::is_resolution(r, conversation, actor, inferred, suggested),
        conversation == ConversationKind::Private || conversation == ConversationKind::ServiceAccount,
        suggested == "auto"@ || suggested == "personal"@,
    ensures
        r is Ok && r->Ok_0 is Some,
        r->Ok_0->0.scope_type == MemoryScopeType::Personal,
        r->Ok_0->0.memory_kind == MemoryKind::Personal,
        r->Ok_0->0.scope_id@ == actor.personal_scope_id@,
        r->Ok_0->0.subject_id is None,
{
}

/// In a group, words go where the user says: to the user's own notes, to the notes on the user
/// in this group, or to the group; unless the proposal says otherwise, which is asked about.
pub proof fn group_words_go_where_the_user_says(
    r: Result<Option<MemoryTarget>, &'static str>,
    actor: MemoryActor,
    kind: MemoryKind,
    suggested: Seq<char>,
)
    requires
        save::is_resolution(r, ConversationKind::Group, actor, Some(kind), suggested),
        actor.group_scope_id is Some,
        kind != MemoryKind::LegacyUnassigned,
    ensures
        ({
            let proposed = |k: MemoryKind|
                (k == MemoryKind::Personal && suggested == "personal"@) || (k
                    == MemoryKind::GroupProfile && suggested == "profile"@) || (k == MemoryKind::Group
                    && suggested == "group"@);
            let target = r->Ok_0->0;
            &&& suggested == "auto"@ || (proposed(kind)) ==> {
                &&& r is Ok && r->Ok_0 is Some
                &&& target.memory_kind == kind
                &&& kind == MemoryKind::Personal ==> target.scope_type == MemoryScopeType::Personal
                    && target.scope_id@ == actor.personal_scope_id@ && target.subject_id is None
                &&& kind == MemoryKind::GroupProfile ==> target.scope_type == MemoryScopeType::Group
                    && target.scope_id@ == actor.group_scope_id->0@ && text::opt_view(
                    target.subject_id,
                ) == Some(actor.personal_scope_id@)
                &&& kind == MemoryKind::Group ==> target.scope_type == MemoryScopeType::Group
                    && target.scope_id@ == actor.group_scope_id->0@ && target.subject_id is None
            }
        }),
{
    lemma_proposals_differ();
}

proof fn lemma_proposals_differ()
    ensures
        "personal"@ != "profile"@ && "personal"@ != "group"@ && "personal"@ != "auto"@,
        "profile"@ != "group"@ && "profile"@ != "auto"@ && "group"@ != "auto"@,
{
    reveal_strlit("personal");
    reveal_strlit("profile");
    reveal_strlit("group");
    reveal_strlit("auto");
    assert("personal"@.len() == 8 && "profile"@.len() == 7 && "group"@.len() == 5 && "auto"@.len() == 4);
}

/// Whether the record says these words for the target, as a user confirmed them.
pub open spec fn keeps(record: MemoryRecord, words: Seq<char>, target: MemoryTarget, actor: MemoryActor) -> bool {
    &&& record.content@ == text::trimmed(words)
    &&& record.status == MemoryStatus::Active
    &&& record.source_type == MemorySourceType::UserConfirmed
    &&& !record.pinned
    &&& record.scope_type == target.scope_type
    &&& record.memory_kind == target.memory_kind
    &&& text::opt_view(record.scope_id) == Some(text::trimmed(target.scope_id@))
    &&& text::opt_view(record.subject_id) == operation_laws::kept_text(target.subject_id)
    &&& text::opt_view(record.created_by_user_id) == Some(text::trimmed(actor.personal_scope_id@))
    &&& target.memory_kind == MemoryKind::Personal ==> record.visibility == MemoryVisibility::Private
    &&& target.memory_kind == MemoryKind::GroupProfile || target.memory_kind == MemoryKind::Group
        ==> record.visibility == MemoryVisibility::GroupMembers
}

/// A call that says that it saved has stored the words in a new last row: with one user alone
/// among that user's notes, in a group where the user's words say, and for a group only by one
/// who manages it.
pub proof fn calls_save_what_they_say(
    s: StoreView,
    t: StoreView,
    o: SaveOutcome,
    message: Option<String>,
    call: SaveCall,
) -> (target: MemoryTarget)
    requires
        save::is_call(s, t, o, message, call),
        o is Saved,
    ensures
        call.actor is Some,
        save::call_text(call) is Some,
        t.rows.len() == s.rows.len() + 1,
        t.rows.last().record == o->result.memory,
        keeps(t.rows.last().record, save::call_text(call)->0, target, call.actor->0),
        call.conversation != ConversationKind::Group ==> target.memory_kind == MemoryKind::Personal
            && target.scope_id@ == call.actor->0.personal_scope_id@,
        call.conversation == ConversationKind::Group ==> call.inferred_kind == Some(target.memory_kind),
        target.memory_kind == MemoryKind::Group ==> call.actor->0.can_manage_group_memory,
        !call.negated,
        call.conversation != ConversationKind::Channel && call.conversation
            != ConversationKind::Unknown,
{
    let actor = call.actor->0;
    let source = text::trimmed(save::text_or_empty(message));
    let content = save::call_text(call)->0;
    let r = choose|r: Result<Option<MemoryTarget>, &'static str>| #[trigger]
        save::is_resolution(r, call.conversation, actor, call.inferred_kind, save::proposal(call))
            && match r {
            Err(code) => t == s && save::fails(o, code@, crate::memory::receipt::refusal(code@)),
            Ok(None) => t == s && save::is_question(o, call, actor, content, source),
            Ok(Some(target)) => save::is_saved(s, t, o, call, actor, target, content, source),
        };
    let target = r->Ok_0->0;
    lemma_saved(s, t, o, call, actor, target, content, source);
    target
}

proof fn lemma_saved(
    s: StoreView,
    t: StoreView,
    o: SaveOutcome,
    call: SaveCall,
    actor: MemoryActor,
    target: MemoryTarget,
    content: Seq<char>,
    source: Seq<char>,
)
    requires
        save::is_saved(s, t, o, call, actor, target, content, source),
        o is Saved,
    ensures
        t.rows.len() == s.rows.len() + 1,
        t.rows.last().record == o->result.memory,
        keeps(t.rows.last().record, content, target, actor),
        target.memory_kind == MemoryKind::Group ==> actor.can_manage_group_memory,
{
    let (d, now, req, w) = choose|
        d: PreparedMemoryDraft,
        now: String,
        req: SaveMemoryRequest,
        w: Result<MemoryWriteResult, MemoryError>,
    |
        draft::is_prepared(
            d,
            target,
            content,
            source,
            save::source_ref(text::opt_view(call.tool_call_id), call.task_id@),
            "create"@,
        ) && #[trigger] d.as_save_request(actor, now, req) && #[trigger] operations::save_answer(
            s,
            t,
            w,
            req,
        ) && match w {
            Ok(done) => o matches SaveOutcome::Saved { result } && result == done,
            Err(e) => save::fails(o, e.code_text(), crate::memory::receipt::refusal(e.code_text())),
        };
    operation_laws::saving_stores_what_was_said(s, t, w, req);
}

/// Words that are in order, from a user who is known, with that user alone, are saved wherever
/// the tables take them.
pub proof fn private_words_are_saved(
    s: StoreView,
    t: StoreView,
    o: SaveOutcome,
    message: Option<String>,
    call: SaveCall,
)
    requires
        save::is_call(s, t, o, message, call),
        message is Some && !text::blank(message->0@),
        !call.negated,
        !draft::is_sensitive(text::trimmed(message->0@), call.source_masked@),
        call.content is Some && !draft::is_sensitive(call.content->0@, call.content_masked@),
        save::call_text(call) is Some,
        call.actor is Some && !text::blank(call.actor->0.personal_scope_id@),
        call.conversation == ConversationKind::Private,
        call.suggested is None || call.suggested->0@ == "auto"@ || call.suggested->0@ == "personal"@,
        !s.faults.table_dropped && !s.faults.insert_aborts && !s.faults.archive_aborts,
        s.last_row_id < i64::MAX,
    ensures
        o is Saved || exists|id: Seq<char>|
            crate::outside::is_record_id(id) && #[trigger] crate::memory::store::id_taken(s.rows, id),
{
    let actor = call.actor->0;
    let source = text::trimmed(save::text_or_empty(message));
    let content = save::call_text(call)->0;
    let r = choose|r: Result<Option<MemoryTarget>, &'static str>| #[trigger]
        save::is_resolution(r, call.conversation, actor, call.inferred_kind, save::proposal(call))
            && match r {
            Err(code) => t == s && save::fails(o, code@, crate::memory::receipt::refusal(code@)),
            Ok(None) => t == s && save::is_question(o, call, actor, content, source),
            Ok(Some(target)) => save::is_saved(s, t, o, call, actor, target, content, source),
        };
    private_words_go_to_the_user(r, call.conversation, actor, call.inferred_kind, save::proposal(call));
    let target = r->Ok_0->0;
    let (d, now, req, w) = choose|
        d: PreparedMemoryDraft,
        now: String,
        req: SaveMemoryRequest,
        w: Result<MemoryWriteResult, MemoryError>,
    |
        draft::is_prepared(
            d,
            target,
            content,
            source,
            save::source_ref(text::opt_view(call.tool_call_id), call.task_id@),
            "create"@,
        ) && #[trigger] d.as_save_request(actor, now, req) && #[trigger] operations::save_answer(
            s,
            t,
            w,
            req,
        ) && match w {
            Ok(done) => o matches SaveOutcome::Saved { result } && result == done,
            Err(e) => save::fails(o, e.code_text(), crate::memory::receipt::refusal(e.code_text())),
        };
    lemma_draft_is_not_blank(call);
    operation_laws::complete_memories_are_saved(s, t, w, req);
}

proof fn lemma_draft_is_not_blank(call: SaveCall)
    requires
        save::call_text(call) is Some,
    ensures
        !text::blank(save::call_text(call)->0),
{
    let d = draft::sanitized(save::text_or_empty(call.content), call.plain@)->0;
    assert(!draft::says_nothing(d));
}

// Changes that wait.

/// Whoever started a change goes on with it, in its own conversation and in time: a
/// confirmation carries it out, a refusal drops it, other words revise it.
pub proof fn the_starter_goes_on_with_a_change(
    p: PendingFacts,
    scope_key: Seq<char>,
    actor: MemoryActor,
    reply: PendingReplyKind,
)
    requires
        !p.expired,
        p.scope_key@ == scope_key,
        p.initiator_user_id is Some && p.initiator_user_id->0@ == actor.user_id@,
        p.owner_key is Some && p.owner_key->0@ == actor.personal_scope_id@,
        p.state == PreparedActionState::WaitingConfirmation,
    ensures
        ({
            let step = flow::next_step(p, scope_key, Some(actor), reply);
            &&& p.asks_for_scope ==> step == PendingStep::AskScope
            &&& !p.asks_for_scope && reply == PendingReplyKind::Confirm ==> step == PendingStep::Claim
            &&& !p.asks_for_scope && reply == PendingReplyKind::Revise ==> step == PendingStep::Revise
            &&& !p.asks_for_scope && reply == PendingReplyKind::Cancel ==> step == PendingStep::Notify(
                PendingNotice::Cancelled,
            )
            &&& !p.asks_for_scope && reply == PendingReplyKind::Wait ==> step == PendingStep::Notify(
                PendingNotice::Wait,
            )
        }),
{
}

/// A change is dropped when it is too old, out of its place, without an owner or refused; it
/// is kept while it is carried out, while somebody else writes, and while an answer is awaited.
pub proof fn changes_are_dropped_for_a_reason(
    p: PendingFacts,
    scope_key: Seq<char>,
    actor: Option<MemoryActor>,
    reply: PendingReplyKind,
)
    ensures
        ({
            let step = flow::next_step(p, scope_key, actor, reply);
            &&& p.expired ==> step == PendingStep::Notify(PendingNotice::Expired)
            &&& !p.expired && p.scope_key@ != scope_key ==> step == PendingStep::Notify(
                PendingNotice::ScopeMismatch,
            )
            &&& !p.expired && p.scope_key@ == scope_key && actor is None ==> step
                == PendingStep::Notify(PendingNotice::ActorMissing)
        }),
        PendingNotice::Expired.drops() && PendingNotice::ScopeMismatch.drops()
            && PendingNotice::ActorMissing.drops() && PendingNotice::Cancelled.drops()
            && PendingNotice::FailedCancelled.drops(),
        !PendingNotice::Executing.drops() && !PendingNotice::Wait.drops()
            && !PendingNotice::ActorMismatch.drops() && !PendingNotice::Failed.drops()
            && !PendingNotice::ClaimRejected.drops(),
{
}

/// The draft of a memory that was confirmed is stored as the user saw it.
pub proof fn a_confirmed_draft_is_stored(
    s: StoreView,
    t: StoreView,
    r: Result<String, MemoryError>,
    actor: MemoryActor,
    payload: MemoryPendingPayload,
)
    requires
        flow::is_executed(s, t, r, actor, payload),
        payload is Save,
    ensures
        r is Err ==> t == s,
        r is Ok ==> {
            let d = payload->Save_draft;
            let record = t.rows.last().record;
            &&& t.rows.len() == s.rows.len() + 1
            &&& record.content@ == text::trimmed(d.content@)
            &&& record.visibility == d.visibility
            &&& record.memory_type@ == d.category.name()
            &&& record.scope_type == d.target.scope_type
            &&& record.memory_kind == d.target.memory_kind
            &&& text::opt_view(record.scope_id) == Some(text::trimmed(d.target.scope_id@))
            &&& record.status == MemoryStatus::Active
            &&& record.source_type == MemorySourceType::UserConfirmed
        },
{
    let d = payload->Save_draft;
    let (now, req, w) = choose|
        now: String,
        req: SaveMemoryRequest,
        w: Result<MemoryWriteResult, MemoryError>,
    |
        #[trigger] d.as_save_request(actor, now, req) && #[trigger] operations::save_answer(s, t, w, req)
            && flow::relays(
            r,
            w,
            "已保存"@ + pending::kind_title(w->Ok_0.memory.memory_kind) + "："@
                + w->Ok_0.memory.content@,
        );
    operation_laws::refused_requests_change_nothing(s, t, w, req);
    if r is Ok {
        operation_laws::saving_stores_what_was_said(s, t, w, req);
    }
}

/// A confirmed clearing takes the active records of its target, as long as they are still
/// those that the user saw; else nothing changes.
pub proof fn a_confirmed_clearing_takes_what_was_seen(
    s: StoreView,
    t: StoreView,
    r: Result<String, MemoryError>,
    actor: MemoryActor,
    payload: MemoryPendingPayload,
)
    requires
        !s.faults.table_dropped,
        flow::is_executed(s, t, r, actor, payload),
        payload is Clear,
        !text::blank(payload->Clear_target.scope_id@),
        operations::may_use(payload->Clear_target, actor, true),
    ensures
        ({
            let gone = |row: MemoryRow|
                row.record.status == MemoryStatus::Active && operation_laws::is_of(
                    row.record,
                    payload->Clear_target,
                );
            let ids = s.rows.filter(gone).map_values(|row: MemoryRow| row.record.id@);
            let seen = text::views(payload->Clear_record_ids@);
            &&& r is Ok <==> ids.len() == seen.len() && forall|x: Seq<char>|
                ids.contains(x) <==> seen.contains(x)
            &&& r is Ok ==> t.rows == s.rows.filter(|row: MemoryRow| !gone(row))
            &&& r is Err ==> t == s
        }),
{
    let target = payload->Clear_target;
    let seen = text::views(payload->Clear_record_ids@);
    let w = choose|w: Result<MemoryMutationResult, MemoryError>| #[trigger]
        operations::clear_answer(s, t, w, actor, target, seen) && flow::relays(
            r,
            w,
            "已清空"@ + payload->Clear_scope_label@ + "中的 "@ + text::decimal(w->Ok_0.count as nat)
                + " 条记忆。"@,
        );
    let done = choose|done: Result<Vec<String>, MemoryError>|
        operations::passes_on_all(w, done) && #[trigger] crate::memory::mutations::is_clear_unchanged(
            s,
            t,
            done,
            target,
            seen,
        );
    operation_laws::a_changed_list_is_not_cleared(s, t, done, target, seen);
}

/// Nobody changes what they may not use: without the right nothing changes and the user is told
/// so.
pub proof fn confirmations_need_the_right(
    s: StoreView,
    t: StoreView,
    r: Result<String, MemoryError>,
    actor: MemoryActor,
    payload: MemoryPendingPayload,
)
    requires
        flow::is_executed(s, t, r, actor, payload),
        match payload {
            MemoryPendingPayload::Save { draft, .. } => !operations::may_use(draft.target, actor, true),
            MemoryPendingPayload::Replace { draft, .. } => !operations::may_use(draft.target, actor, true),
            MemoryPendingPayload::Delete { target, .. } => !operations::may_use(target, actor, true),
            MemoryPendingPayload::Clear { target, .. } => !operations::may_use(target, actor, true),
            MemoryPendingPayload::SetProfileEnabled { target, .. } => !operations::may_use(target, actor, true),
            _ => false,
        },
    ensures
        r is Err,
        t == s,
{
}

/// A deletion that was confirmed takes the record if it still is as it was; otherwise, and
/// where the record was not known, nothing changes.
pub proof fn a_confirmed_deletion_takes_the_record(
    s: StoreView,
    t: StoreView,
    r: Result<String, MemoryError>,
    actor: MemoryActor,
    payload: MemoryPendingPayload,
    k: int,
)
    requires
        s.wf(),
        !s.faults.table_dropped,
        flow::is_executed(s, t, r, actor, payload),
        payload is Delete,
        !text::blank(payload->Delete_target.scope_id@),
        0 <= k < s.rows.len(),
        s.rows[k].record.id@ == payload->Delete_record_id@,
    ensures
        r is Err ==> t == s,
        payload->Delete_expected_record is None ==> r is Err,
        payload->Delete_expected_record is Some && s.rows[k].record.content@
            != payload->Delete_expected_record->0.content@ ==> r is Err,
        payload->Delete_expected_record is Some && s.rows[k].record
            == payload->Delete_expected_record->0 && s.rows[k].record.status == MemoryStatus::Active
            && operation_laws::is_of(s.rows[k].record, payload->Delete_target) && operations::may_use(
            payload->Delete_target,
            actor,
            true,
        ) ==> r is Ok && t.rows == s.rows.remove(k),
{
    if payload->Delete_expected_record is Some {
        let target = payload->Delete_target;
        let expected = payload->Delete_expected_record->0;
        let id = payload->Delete_record_id@;
        let w = choose|w: Result<MemoryMutationResult, MemoryError>| #[trigger]
            operations::delete_answer(s, t, w, actor, target, id, expected) && flow::relays(
                r,
                w,
                "已删除这条记忆。"@,
            );
        if operations::may_use(target, actor, true) {
            let done = choose|done: Result<String, MemoryError>|
                operations::passes_on_one(w, done)
                    && #[trigger] crate::memory::mutations::is_delete_unchanged(
                    s,
                    t,
                    done,
                    target,
                    id,
                    expected,
                );
            operation_laws::a_changed_record_is_not_deleted(s, t, done, target, id, expected, k);
        }
    }
}

/// A revision keeps where a draft goes and takes the new words, unless these hold a secret.
pub proof fn a_revision_takes_the_new_words(
    r: Revision,
    user_text: Seq<char>,
    masked: Seq<char>,
    actor: MemoryActor,
    payload: MemoryPendingPayload,
    now: String,
)
    requires
        flow::is_revision(r, user_text, masked, actor, payload, now),
        payload is Save,
    ensures
        draft::is_sensitive(user_text, masked) ==> r is Unchanged,
        !draft::is_sensitive(user_text, masked) ==> {
            &&& r is Revised
            &&& r->payload is Save
            &&& r->payload->Save_draft.content@ == text::trimmed(user_text)
            &&& r->payload->Save_draft.target == payload->Save_draft.target
            &&& r->payload->Save_draft.source_text@ == payload->Save_draft.source_text@
            &&& r->payload->Save_initiator_user_id == actor.user_id
            &&& r->payload->Save_owner_key == actor.personal_scope_id
        },
{
}

/// Whether the words name this kind of memory.
pub open spec fn names_kind(word: Seq<char>, kind: MemoryKind) -> bool {
    match kind {
        MemoryKind::Personal => word == "个人"@ || word == "个人记忆"@ || word == "personal"@,
        MemoryKind::GroupProfile => word == "画像"@ || word == "群画像"@ || word == "群内画像"@ || word
            == "当前群画像"@ || word == "profile"@,
        MemoryKind::Group => word == "群"@ || word == "群组"@ || word == "群记忆"@ || word
            == "群组记忆"@ || word == "group"@,
        MemoryKind::LegacyUnassigned => false,
    }
}

/// A user chooses where a memory goes by a word for it, whatever marks stand behind it.
pub proof fn a_word_chooses_the_kind(word: Seq<char>, marks: Seq<char>, kind: MemoryKind)
    requires
        names_kind(word, kind),
        forall|i: int| 0 <= i < marks.len() ==> "。！!，,"@.contains(#[trigger] marks[i]),
    ensures
        flow::scope_choice(word + marks) == Some(kind),
{
    reveal_strlit("。！!，,");
    lemma_kind_words(word, kind);
    let s = word + marks;
    let set = "。！!，,"@;
    assert(set[0] == '。' && set[1] == '！' && set[2] == '!' && set[3] == '，' && set[4] == ',');
    assert(s[0] == word[0]);
    if marks.len() > 0 {
        assert(s[s.len() - 1] == marks[marks.len() - 1]);
        let k = choose|k: int| 0 <= k < set.len() && set[k] == marks[marks.len() - 1];
        assert(!text::is_space(set[k]));
    } else {
        assert(s[s.len() - 1] == word[word.len() - 1]);
    }
    lemma_trimmed_whole(s);
    text::lemma_trim_set_start(s, set, 0);
    assert(s.skip(0) =~= s);
    assert forall|i: int| word.len() <= i < s.len() implies set.contains(#[trigger] s[i]) by {
        assert(s[i] == marks[i - word.len()]);
    }
    assert(s[word.len() - 1] == word[word.len() - 1]);
    text::lemma_trim_set_end(s, set, word.len() as int);
    assert(s.take(word.len() as int) =~= word);
    lemma_kind_words_differ(word, kind);
}

proof fn lemma_kind_words(word: Seq<char>, kind: MemoryKind)
    requires
        names_kind(word, kind),
    ensures
        word.len() > 0,
        !text::is_space(word[0]) && !text::is_space(word[word.len() - 1]),
        !"。！!，,"@.contains(word[0]) && !"。！!，,"@.contains(word[word.len() - 1]),
{
    reveal_strlit("。！!，,");
    reveal_strlit("个人");
    reveal_strlit("个人记忆");
    reveal_strlit("personal");
    reveal_strlit("画像");
    reveal_strlit("群画像");
    reveal_strlit("群内画像");
    reveal_strlit("当前群画像");
    reveal_strlit("profile");
    reveal_strlit("群");
    reveal_strlit("群组");
    reveal_strlit("群记忆");
    reveal_strlit("群组记忆");
    reveal_strlit("group");
    let set = "。！!，,"@;
    if set.contains(word[0]) {
        let k = choose|k: int| 0 <= k < set.len() && set[k] == word[0];
    }
    if set.contains(word[word.len() - 1]) {
        let k = choose|k: int| 0 <= k < set.len() && set[k] == word[word.len() - 1];
    }
}

proof fn lemma_kind_words_differ(word: Seq<char>, kind: MemoryKind)
    requires
        names_kind(word, kind),
    ensures
        kind == MemoryKind::GroupProfile ==> !names_kind(word, MemoryKind::Personal),
        kind == MemoryKind::Group ==> !names_kind(word, MemoryKind::Personal) && !names_kind(
            word,
            MemoryKind::GroupProfile,
        ),
{
    reveal_strlit("个人");
    reveal_strlit("个人记忆");
    reveal_strlit("personal");
    reveal_strlit("画像");
    reveal_strlit("群画像");
    reveal_strlit("群内画像");
    reveal_strlit("当前群画像");
    reveal_strlit("profile");
    reveal_strlit("群");
    reveal_strlit("群组");
    reveal_strlit("群记忆");
    reveal_strlit("群组记忆");
    reveal_strlit("group");
    if kind == MemoryKind::GroupProfile {
        assert(word[0] != '个');
        assert(word.len() == 8 ==> word[0] != 'p');
    }
    if kind == MemoryKind::Group {
        assert(word[0] == '群' || word[0] == 'g');
        if word.len() == 3 {
            assert(word[1] == '记');
        }
        if word.len() == 4 {
            assert(word[1] == '组');
        }
    }
}

/// An answer that names no place changes nothing and asks again; one that cancels ends the
/// question.
pub proof fn unclear_answers_change_nothing(
    s: StoreView,
    t: StoreView,
    a: PendingAnswer,
    cancels: bool,
    user_text: Seq<char>,
    personal: Option<Seq<char>>,
    group: Option<Seq<char>>,
    actor: MemoryActor,
    content: Seq<char>,
    source_text: Seq<char>,
    source_ref: Option<Seq<char>>,
)
    requires
        flow::is_scope_answer(
            s,
            t,
            a,
            cancels,
            user_text,
            personal,
            group,
            actor,
            content,
            source_text,
            source_ref,
        ),
        cancels || flow::scope_choice(user_text) is None,
    ensures
        t == s,
        a.clears == cancels,
        !a.failed,
{
}

/// An answer that names a place saves the words there, for a group only by one who manages it.
pub proof fn clear_answers_save_the_words(
    s: StoreView,
    t: StoreView,
    a: PendingAnswer,
    user_text: Seq<char>,
    kind: MemoryKind,
    personal: Option<Seq<char>>,
    group: Option<Seq<char>>,
    actor: MemoryActor,
    content: Seq<char>,
    source_text: Seq<char>,
    source_ref: Option<Seq<char>>,
)
    requires
        flow::is_scope_answer(
            s,
            t,
            a,
            false,
            user_text,
            personal,
            group,
            actor,
            content,
            source_text,
            source_ref,
        ),
        flow::scope_choice(user_text) == Some(kind),
    ensures
        t != s ==> {
            let record = t.rows.last().record;
            &&& t.rows.len() == s.rows.len() + 1
            &&& record.content@ == text::trimmed(content)
            &&& record.memory_kind == kind
            &&& kind == MemoryKind::Personal ==> personal is Some && text::opt_view(record.scope_id)
                == Some(text::trimmed(personal->0))
            &&& kind == MemoryKind::Group ==> actor.can_manage_group_memory && group is Some
                && text::opt_view(record.scope_id) == Some(text::trimmed(group->0))
        },
        kind == MemoryKind::Group && !actor.can_manage_group_memory ==> t == s,
{
    let target = choose|target: Option<MemoryTarget>| #[trigger]
        flow::is_chosen(target, user_text, personal, group) && match target {
            None => t == s && flow::says(
                a,
                false,
                false,
                "请只选择“个人”“画像”或“群组”；回复“取消”放弃。"@,
                "memory_scope_clarify"@,
            ),
            Some(target) => if target.memory_kind == MemoryKind::Group
                && !actor.can_manage_group_memory {
                t == s && flow::says(
                    a,
                    true,
                    false,
                    "群组公共记忆只能由当前群的群主或管理员保存，本次草稿未提交。"@,
                    "group_admin_required"@,
                )
            } else {
                exists|
                    d: PreparedMemoryDraft,
                    now: String,
                    req: SaveMemoryRequest,
                    w: Result<MemoryWriteResult, MemoryError>,
                |
                    draft::is_prepared(d, target, content, source_text, source_ref, "create"@)
                        && #[trigger] d.as_save_request(actor, now, req) && #[trigger]
                    operations::save_answer(s, t, w, req) && flow::tells_saved(a, w)
            },
        };
    if target is Some && !(target->0.memory_kind == MemoryKind::Group && !actor.can_manage_group_memory) {
        let (d, now, req, w) = choose|
            d: PreparedMemoryDraft,
            now: String,
            req: SaveMemoryRequest,
            w: Result<MemoryWriteResult, MemoryError>,
        |
            draft::is_prepared(d, target->0, content, source_text, source_ref, "create"@)
                && #[trigger] d.as_save_request(actor, now, req) && #[trigger] operations::save_answer(
                s,
                t,
                w,
                req,
            ) && flow::tells_saved(a, w);
        operation_laws::refused_requests_change_nothing(s, t, w, req);
        if w is Ok {
            operation_laws::saving_stores_what_was_said(s, t, w, req);
        }
    }
}

} // verus!
