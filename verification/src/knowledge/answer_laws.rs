//! What a model gets of the evidence that it asked for: which questions are searched, what is
//! shown of each item, and what goes first where there is too much.
use vstd::prelude::*;
use vstd::string::*;

use crate::error::ToolError;
use crate::json::Json;
use crate::knowledge::evidence;
use crate::knowledge::evidence::{
    KnowledgeEvidence, KnowledgeEvidenceItem, KnowledgeEvidenceStatus, KnowledgeRecallType,
    KnowledgeTruncationReason,
};
use crate::knowledge::tool;
use crate::knowledge::tool::SearchArguments;
use crate::text;
use crate::text_laws::{lemma_sub_behind, lemma_sub_between};

verus! {

// Questions.

/// The question is searched without the blanks around it, alone where no other is given, and
/// for as many results as were named, or eight.
pub proof fn questions_are_searched(
    r: Result<SearchArguments, ToolError>,
    arguments: Json,
    query: String,
    n: u64,
)
    requires
        tool::is_parsed(r, arguments),
        arguments.entry("query"@) == Some(Json::Text(query)),
        0 < text::trimmed(query@).len() <= 2000,
        arguments.entry("additional_queries"@) is None,
    ensures
        arguments.entry("max_results"@) is None ==> {
            &&& r matches Ok(a)
            &&& a.max_results == 8
            &&& a.queries@.len() == 1
            &&& a.queries@[0]@ == text::trimmed(query@)
        },
        arguments.entry("max_results"@) == Some(Json::Whole(n)) && 1 <= n <= 8 ==> {
            &&& r matches Ok(a)
            &&& a.max_results == n
            &&& a.queries@.len() == 1
            &&& a.queries@[0]@ == text::trimmed(query@)
        },
        arguments.entry("max_results"@) == Some(Json::Whole(n)) && !(1 <= n <= 8) ==> r is Err,
{
    text::lemma_trimmed_is_clean(query@);
    if r is Ok {
        let q = r->Ok_0.queries@;
        assert(text::views(q).len() == q.len());
        assert(text::views(q)[0] == q[0]@);
    }
}

/// A search without a question, or with one that is too long, is refused.
pub proof fn searches_need_a_question(r: Result<SearchArguments, ToolError>, arguments: Json, query: String)
    requires
        tool::is_parsed(r, arguments),
        arguments.entry("query"@) is None || (arguments.entry("query"@) == Some(Json::Text(query)) && (
        text::trimmed(query@).len() == 0 || text::trimmed(query@).len() > 2000)),
    ensures
        r matches Err(e) && e.code@ == "bad_tool_arguments"@,
{
    text::lemma_trimmed_is_clean(query@);
}

/// Every further question is searched too, and none twice.
pub proof fn further_questions_are_searched(first: Seq<char>, more: Seq<Json>)
    ensures
        tool::with_more(seq![first], more) matches Some(all) ==> {
            &&& all.len() > 0 && all[0] == first
            &&& all.len() <= 1 + more.len()
            &&& forall|i: int|
                0 <= i < more.len() ==> ((#[trigger] more[i]) matches Json::Text(s) && text::trimmed(s@).len()
                    > 0 && all.contains(text::trimmed(s@)))
            &&& forall|i: int, j: int| 0 <= i < j < all.len() ==> #[trigger] all[i] != #[trigger] all[j]
        },
    decreases more.len(),
{
    if more.len() > 0 {
        let front = more.drop_last();
        further_questions_are_searched(first, front);
        if tool::with_more(seq![first], more) is Some {
            let before = tool::with_more(seq![first], front)->0;
            let all = tool::with_more(seq![first], more)->0;
            let s = tool::query_in(more.last().words())->0;
            assert forall|i: int| 0 <= i < more.len() implies ((#[trigger] more[i]) matches Json::Text(s)
                && text::trimmed(s@).len() > 0 && all.contains(text::trimmed(s@))) by {
                if i < front.len() {
                    assert(front[i] == more[i]);
                    let t = text::trimmed(more[i]->Text_0@);
                    let k = choose|k: int| 0 <= k < before.len() && before[k] == t;
                    assert(all[k] == t);
                } else {
                    assert(more.last() == more[i]);
                    text::lemma_trimmed_is_clean(more[i]->Text_0@);
                    if !before.contains(s) {
                        assert(all[before.len() as int] == s);
                    }
                }
            }
        }
    }
}

// Showing.

/// A model is shown path and text of every item.
pub proof fn every_item_is_shown(items: Seq<KnowledgeEvidenceItem>, k: int)
    requires
        0 <= k < items.len(),
    ensures
        text::has_sub(evidence::context_shown(items), "来源："@ + items[k].relative_path@),
        text::has_sub(evidence::context_shown(items), "\n正文：\n"@ + items[k].body_excerpt@),
        items[k].heading_path matches Some(h) ==> (!text::blank(h@) ==> text::has_sub(
            evidence::context_shown(items),
            "章节："@ + h@,
        )),
        evidence::context_shown(Seq::empty()).len() == 0,
{
    lemma_item(items[k]);
    lemma_shown(items, k, "来源："@ + items[k].relative_path@);
    lemma_shown(items, k, "\n正文：\n"@ + items[k].body_excerpt@);
    if items[k].heading_path is Some && !text::blank(items[k].heading_path->0@) {
        lemma_shown(items, k, "章节："@ + items[k].heading_path->0@);
    }
}

proof fn lemma_shown(items: Seq<KnowledgeEvidenceItem>, k: int, p: Seq<char>)
    requires
        0 <= k < items.len(),
        text::has_sub(evidence::item_shown(items[k]), p),
    ensures
        text::has_sub(evidence::items_shown(items), p),
    decreases items.len(),
{
    let front = items.drop_last();
    let before = evidence::items_shown(front);
    let own = evidence::item_shown(items.last());
    let all = evidence::items_shown(items);
    assert(all == before + own);
    if k < front.len() {
        assert(front[k] == items[k]);
        lemma_shown(front, k, p);
        let i = choose|i: int| text::occurs_at(before, p, i);
        assert(all.subrange(i, i + p.len()) =~= before.subrange(i, i + p.len()));
        assert(text::occurs_at(all, p, i));
    } else {
        assert(items.last() == items[k]);
        let i = choose|i: int| text::occurs_at(own, p, i);
        let n = before.len() as int;
        assert(all.subrange(n + i, n + i + p.len()) =~= own.subrange(i, i + p.len()));
        assert(text::occurs_at(all, p, n + i));
    }
}

#[verifier::rlimit(60)]
proof fn lemma_six_parts(
    a: Seq<char>,
    b: Seq<char>,
    c: Seq<char>,
    d: Seq<char>,
    e: Seq<char>,
    f: Seq<char>,
    g: Seq<char>,
    h: Seq<char>,
)
    ensures
        text::has_sub(a + b + c + d + e + f + g + h, c + d),
        text::has_sub(a + b + c + d + e + f + g + h, f),
        text::has_sub(a + b + c + d + e + f + g + h, g + h),
{
    let s = a + b + c + d + e + f + g + h;
    assert(s =~= (a + b) + (c + d) + (e + f + g + h));
    lemma_sub_between(a + b, c + d, e + f + g + h);
    assert(s =~= (a + b + c + d + e) + f + (g + h));
    lemma_sub_between(a + b + c + d + e, f, g + h);
    assert(s =~= (a + b + c + d + e + f) + (g + h));
    lemma_sub_behind(a + b + c + d + e + f, g + h);
}

proof fn lemma_item(item: KnowledgeEvidenceItem)
    ensures
        text::has_sub(evidence::item_shown(item), "来源："@ + item.relative_path@),
        text::has_sub(evidence::item_shown(item), "\n正文：\n"@ + item.body_excerpt@),
        item.heading_path matches Some(h) ==> (!text::blank(h@) ==> text::has_sub(
            evidence::item_shown(item),
            "章节："@ + h@,
        )),
{
    let note = if item.recall_type == KnowledgeRecallType::Section {
        "片段：章节补充\n"@
    } else {
        ""@
    };
    let section = evidence::section_shown(
        text::opt_view(item.heading_path),
        text::opt_view(item.document_title),
    );
    lemma_six_parts(
        "\n\n---\n"@,
        note,
        "来源："@,
        item.relative_path@,
        evidence::lines_shown(item.start_line, item.end_line),
        section,
        "\n正文：\n"@,
        item.body_excerpt@,
    );
    if item.heading_path is Some && !text::blank(item.heading_path->0@) {
        let h = item.heading_path->0@;
        assert("\n章节："@ =~= "\n"@ + "章节："@) by {
            reveal_strlit("\n章节：");
            reveal_strlit("\n");
            reveal_strlit("章节：");
        }
        let p = "章节："@ + h;
        assert(section =~= "\n"@ + p);
        let s = evidence::item_shown(item);
        let k = choose|k: int| text::occurs_at(s, section, k);
        let n = "\n"@.len() as int;
        assert(s.subrange(k + n, k + n + p.len()) =~= s.subrange(k, k + section.len()).subrange(
            n,
            n + p.len() as int,
        ));
        assert(section.subrange(n, n + p.len() as int) =~= p);
        assert(text::occurs_at(s, p, k + n));
    }
}

/// Status and reasons are told apart by their names.
pub proof fn statuses_have_their_own_names(a: KnowledgeEvidenceStatus, b: KnowledgeEvidenceStatus)
    ensures
        evidence::status_name(a) == evidence::status_name(b) <==> a == b,
{
    reveal_strlit("ok");
    reveal_strlit("no_hit");
    reveal_strlit("low_relevance");
    reveal_strlit("truncated");
    reveal_strlit("failed");
    assert("no_hit"@[0] == 'n' && "failed"@[0] == 'f');
    assert("no_hit"@ != "failed"@);
    assert("ok"@.len() == 2 && "no_hit"@.len() == 6 && "failed"@.len() == 6);
    assert("low_relevance"@.len() == 13 && "truncated"@.len() == 9);
}

/// The output gives every item in its order, says whether the search worked, and how it ended.
pub proof fn outputs_give_every_item(v: Json, e: KnowledgeEvidence, k: int)
    requires
        tool::is_value(v, e),
        0 <= k < e.items@.len(),
    ensures
        ({
            &&& v.list_at("items"@) matches Some(l)
            &&& l.len() == e.items@.len()
            &&& l[k].words_at("relative_path"@) == Some(e.items@[k].relative_path@)
            &&& l[k].words_at("body_excerpt"@) == Some(e.items@[k].body_excerpt@)
            &&& l[k].words_at("chunk_id"@) == Some(e.items@[k].chunk_id@)
        }),
        v.bool_at("ok"@) == Some(e.status != KnowledgeEvidenceStatus::Failed),
        v.words_at("status"@) == Some(evidence::status_name(e.status)),
{
    let o = v->Object_0;
    lemma_keys();
    lemma_entry(v, "items"@, 4);
    lemma_entry(v, "ok"@, 6);
    lemma_entry(v, "status"@, 7);
    let l = o@[4].1->List_0;
    let item = l@[k];
    assert(tool::is_item_value(l@[k], e.items@[k]));
    lemma_entry(item, "body_excerpt"@, 0);
    lemma_entry(item, "chunk_id"@, 1);
    lemma_entry(item, "relative_path"@, 6);
}

proof fn lemma_entry(v: Json, key: Seq<char>, i: int)
    requires
        v is Object,
        0 <= i < v->Object_0@.len(),
        v->Object_0@[i].0@ == key,
        forall|j: int| 0 <= j < i ==> (#[trigger] v->Object_0@[j]).0@ != key,
    ensures
        v.entry(key) == Some(v->Object_0@[i].1),
{
    let entries = v->Object_0@;
    assert(crate::json::is_entry(entries, key, i));
    let k = choose|k: int| crate::json::is_entry(entries, key, k);
    if k < i {
        assert(entries[k].0@ != key);
    }
    if i < k {
        assert(entries[i].0@ != key);
    }
}

proof fn lemma_keys()
    ensures
        "items"@ != "diagnostics"@ && "items"@ != "error_code"@ && "items"@ != "failure"@ && "items"@
            != "injection"@,
        "ok"@ != "diagnostics"@ && "ok"@ != "error_code"@ && "ok"@ != "failure"@ && "ok"@ != "injection"@
            && "ok"@ != "items"@ && "ok"@ != "message"@,
        "status"@ != "diagnostics"@ && "status"@ != "error_code"@ && "status"@ != "failure"@ && "status"@
            != "injection"@ && "status"@ != "items"@ && "status"@ != "message"@ && "status"@ != "ok"@,
        "chunk_id"@ != "body_excerpt"@,
        "relative_path"@ != "body_excerpt"@ && "relative_path"@ != "chunk_id"@ && "relative_path"@
            != "document_title"@ && "relative_path"@ != "end_line"@ && "relative_path"@ != "heading_path"@
            && "relative_path"@ != "recall_type"@,
{
    reveal_strlit("items");
    reveal_strlit("diagnostics");
    reveal_strlit("error_code");
    reveal_strlit("failure");
    reveal_strlit("injection");
    reveal_strlit("ok");
    reveal_strlit("message");
    reveal_strlit("status");
    reveal_strlit("chunk_id");
    reveal_strlit("body_excerpt");
    reveal_strlit("relative_path");
    reveal_strlit("document_title");
    reveal_strlit("end_line");
    reveal_strlit("heading_path");
    reveal_strlit("recall_type");
    assert("items"@.len() == 5 && "diagnostics"@.len() == 11 && "error_code"@.len() == 10);
    assert("failure"@.len() == 7 && "injection"@.len() == 9 && "ok"@.len() == 2 && "message"@.len() == 7);
    assert("status"@.len() == 6 && "chunk_id"@.len() == 8 && "body_excerpt"@.len() == 12);
    assert("relative_path"@.len() == 13 && "document_title"@.len() == 14 && "end_line"@.len() == 8);
    assert("heading_path"@.len() == 12 && "recall_type"@.len() == 11);
}

// Room.

/// With fewer results wanted than there are, as many stay; an item that was only added around
/// others stays only if all that were found do.
pub proof fn found_items_stay_first(after: KnowledgeEvidence, before: KnowledgeEvidence, n: int)
    requires
        tool::is_limited(after, before, n),
        0 <= n < before.items@.len(),
    ensures
        after.items@.len() == n,
        after.status == KnowledgeEvidenceStatus::Truncated,
        after.diagnostics.truncation_reasons@.contains(KnowledgeTruncationReason::ResultLimit),
        (exists|i: int|
            0 <= i < after.items@.len() && (#[trigger] after.items@[i]).recall_type
                == KnowledgeRecallType::Section) ==> forall|k: int|
            0 <= k < before.items@.len() && (#[trigger] before.items@[k]).recall_type
                != KnowledgeRecallType::Section ==> after.items@.contains(before.items@[k]),
{
    let items = before.items@;
    let found = tool::hits(items);
    let added = tool::extras(items);
    lemma_parted(items);
    let reasons = before.diagnostics.truncation_reasons@;
    let limit = KnowledgeTruncationReason::ResultLimit;
    if !reasons.contains(limit) {
        assert(reasons.push(limit)[reasons.len() as int] == limit);
    }
    let first = tool::at_most(found, n);
    assert(after.items@ == first + tool::at_most(added, n - first.len()));
    if exists|i: int|
        0 <= i < after.items@.len() && (#[trigger] after.items@[i]).recall_type
            == KnowledgeRecallType::Section {
        let i = choose|i: int|
            0 <= i < after.items@.len() && (#[trigger] after.items@[i]).recall_type
                == KnowledgeRecallType::Section;
        if i < first.len() {
            assert(after.items@[i] == found[i]);
        }
        assert(first == found);
        assert forall|k: int|
            0 <= k < items.len() && (#[trigger] items[k]).recall_type != KnowledgeRecallType::Section implies
            after.items@.contains(items[k]) by {
            let j = choose|j: int| 0 <= j < found.len() && found[j] == items[k];
            assert(after.items@[j] == items[k]);
        }
    }
}

proof fn lemma_parted(items: Seq<KnowledgeEvidenceItem>)
    ensures
        tool::hits(items).len() + tool::extras(items).len() == items.len(),
        forall|i: int|
            0 <= i < tool::hits(items).len() ==> (#[trigger] tool::hits(items)[i]).recall_type
                != KnowledgeRecallType::Section,
        forall|k: int|
            0 <= k < items.len() && (#[trigger] items[k]).recall_type != KnowledgeRecallType::Section
                ==> tool::hits(items).contains(items[k]),
    decreases items.len(),
{
    reveal(Seq::filter);
    if items.len() > 0 {
        let front = items.drop_last();
        lemma_parted(front);
        let before = tool::hits(front);
        let all = tool::hits(items);
        assert forall|k: int|
            0 <= k < items.len() && (#[trigger] items[k]).recall_type != KnowledgeRecallType::Section implies
            all.contains(items[k]) by {
            if k < front.len() {
                assert(front[k] == items[k]);
                let j = choose|j: int| 0 <= j < before.len() && before[j] == items[k];
                assert(all[j] == items[k]);
            } else {
                assert(items.last() == items[k]);
                assert(all[before.len() as int] == items[k]);
            }
        }
        assert forall|i: int| 0 <= i < all.len() implies (#[trigger] all[i]).recall_type
            != KnowledgeRecallType::Section by {
            if i < before.len() {
                assert(all[i] == before[i]);
            }
        }
    }
}

/// As long as an item was only added around others, making room takes away one of those and
/// leaves what was found as it is.
pub proof fn added_items_go_first(
    after: KnowledgeEvidence,
    before: KnowledgeEvidence,
    original: KnowledgeEvidenceStatus,
    k: int,
)
    requires
        tool::is_step(after, before, original),
        0 <= k < before.items@.len(),
        before.items@[k].recall_type == KnowledgeRecallType::Section,
    ensures
        after.items@.len() == before.items@.len() - 1,
        forall|i: int|
            0 <= i < before.items@.len() && (#[trigger] before.items@[i]).recall_type
                != KnowledgeRecallType::Section ==> after.items@.contains(before.items@[i]),
        after.diagnostics.truncation_reasons@.contains(KnowledgeTruncationReason::CharacterBudget),
        original == KnowledgeEvidenceStatus::Complete ==> after.status == KnowledgeEvidenceStatus::Truncated,
{
    let items = before.items@;
    lemma_last_extra(items, k);
    let d = choose|i: int| tool::is_last_extra(items, i);
    let reasons = before.diagnostics.truncation_reasons@;
    let room = KnowledgeTruncationReason::CharacterBudget;
    if !reasons.contains(room) {
        assert(reasons.push(room)[reasons.len() as int] == room);
    }
    assert forall|i: int|
        0 <= i < items.len() && (#[trigger] items[i]).recall_type != KnowledgeRecallType::Section implies
        after.items@.contains(items[i]) by {
        if i < d {
            assert(after.items@[i] == items[i]);
        } else {
            assert(after.items@[i - 1] == items[i]);
        }
    }
}

proof fn lemma_last_extra(items: Seq<KnowledgeEvidenceItem>, k: int)
    requires
        0 <= k < items.len(),
        items[k].recall_type == KnowledgeRecallType::Section,
    ensures
        exists|i: int| tool::is_last_extra(items, i),
    decreases items.len() - k,
{
    if exists|j: int| k < j < items.len() && tool::is_section(#[trigger] items[j]) {
        let j = choose|j: int| k < j < items.len() && tool::is_section(#[trigger] items[j]);
        lemma_last_extra(items, j);
    } else {
        assert(tool::is_last_extra(items, k));
    }
}

/// A text that is shortened keeps its start, is marked as cut, and is no longer than before.
pub proof fn shortened_texts_keep_their_start(s: Seq<char>)
    requires
        !text::has_sub(s, "\n[正文因字符预算已裁剪]"@),
        s.len() >= 40,
    ensures
        ({
            let mark = "\n[正文因字符预算已裁剪]"@;
            let short = tool::halved(s);
            let kept = s.len() as int / 2;
            &&& short == s.take(kept) + mark
            &&& short.len() < s.len()
        }),
{
    reveal_strlit("\n[正文因字符预算已裁剪]");
    let mark = "\n[正文因字符预算已裁剪]"@;
    assert(mark.len() == 13);
    if text::ends_with(s, mark) {
        assert(text::occurs_at(s, mark, s.len() - mark.len()));
    }
    assert(tool::unmarked(s) == s);
}

} // verus!
