//! Turning what a user wants remembered into a draft: finding the text, cleaning it,
//! classifying it and keeping secrets out.
use vstd::prelude::*;
use vstd::string::*;

use crate::memory::types::{
    MemoryCategory, MemoryKind, MemoryTarget, MemoryVisibility,
};
use crate::memory::pending::PreparedMemoryDraft;
use crate::outside;
use crate::text;

verus! {

pub const MAX_MEMORY_DRAFT_LENGTH: usize = 600;

// Finding the text.

/// The inside of a fenced block around the whole text.
pub open spec fn fenced_json(s: Seq<char>) -> Option<Seq<char>> {
    match text::behind(s, "```"@) {
        Some(body) => {
            let inner = text::trim_start(match text::behind(body, "json"@) {
                Some(rest) => rest,
                None => body,
            });
            match text::before(inner, "```"@) {
                Some(t) => Some(text::trimmed(t)),
                None => None,
            }
        },
        None => None,
    }
}

pub fn strip_outer_json_fence<'a>(s: &'a str) -> (r: Option<&'a str>)
    ensures
        text::opt_str_view(r) == fenced_json(s@),
{
    let body = match text::strip_prefix(s, "```") {
        Some(b) => b,
        None => {
            return None;
        },
    };
    let inner = match text::strip_prefix(body, "json") {
        Some(rest) => text::trim_left(rest),
        None => text::trim_left(body),
    };
    match text::strip_suffix(inner, "```") {
        Some(t) => Some(text::trim(t)),
        None => None,
    }
}

/// The part from the first opening to the last closing brace, if they stand in this order.
pub open spec fn is_braced(s: Seq<char>, part: Option<Seq<char>>) -> bool {
    match part {
        Some(t) => exists|a: int, b: int|
            text::first_of(s, '{', a) && text::last_of(s, '}', b) && a < b && t == #[trigger] s.subrange(
                a,
                b + 1,
            ),
        None => !s.contains('{') || !s.contains('}') || exists|a: int, b: int|
            #[trigger] text::first_of(s, '{', a) && #[trigger] text::last_of(s, '}', b) && a >= b,
    }
}

pub fn braced<'a>(s: &'a str) -> (r: Option<&'a str>)
    ensures
        is_braced(s@, text::opt_str_view(r)),
{
    match (text::find_char(s, '{'), text::rfind_char(s, '}')) {
        (Some(a), Some(b)) => {
            if a < b {
                let n: usize = s.unicode_len();
                assert(b < n);
                let r = s.substring_char(a, b + 1);
                assert(text::first_of(s@, '{', a as int) && text::last_of(s@, '}', b as int));
                assert(r@ == s@.subrange(a as int, b as int + 1));
                Some(r)
            } else {
                None
            }
        },
        _ => None,
    }
}

/// The first reading of a reply that is JSON: of the whole reply, else of a fenced block
/// around it, else of its outermost braces.
pub open spec fn first_reading(
    whole: Option<Option<Seq<char>>>,
    fenced: Option<Option<Seq<char>>>,
    part: Option<Option<Seq<char>>>,
) -> Option<Seq<char>> {
    match whole {
        Some(content) => content,
        None => match fenced {
            Some(content) => content,
            None => match part {
                Some(content) => content,
                None => None,
            },
        },
    }
}

pub fn choose_reading(
    whole: Option<Option<String>>,
    fenced: Option<Option<String>>,
    part: Option<Option<String>>,
) -> (r: Option<String>)
    ensures
        text::opt_view(r) == first_reading(
            outside::entry_view(whole),
            outside::entry_view(fenced),
            outside::entry_view(part),
        ),
{
    match whole {
        Some(content) => content,
        None => match fenced {
            Some(content) => content,
            None => match part {
                Some(content) => content,
                None => None,
            },
        },
    }
}

/// What is read of a part of the reply, if there is such a part.
pub open spec fn reading_of(part: Option<Seq<char>>) -> Option<Option<Seq<char>>> {
    match part {
        Some(p) => outside::json_entry(p, "content"@),
        None => None,
    }
}

fn read_part(part: Option<&str>) -> (r: Option<Option<String>>)
    ensures
        outside::entry_view(r) == reading_of(text::opt_str_view(part)),
{
    match part {
        Some(p) => outside::read_json_entry(p, "content"),
        None => None,
    }
}

/// Whether `found` is the text under `content` in the JSON of a reply.
pub open spec fn is_draft_text(raw: Seq<char>, found: Option<Seq<char>>) -> bool {
    let s = text::trimmed(raw);
    exists|part: Option<Seq<char>>| #[trigger]
        is_braced(s, part) && found == first_reading(
            reading_of(Some(s)),
            reading_of(fenced_json(s)),
            reading_of(part),
        )
}

/// The text under `content` in the JSON of a reply.
pub fn extract_draft_text(raw: &str) -> (r: Option<String>)
    ensures
        is_draft_text(raw@, text::opt_view(r)),
{
    let s = text::trim(raw);
    let part = braced(s);
    assert(is_braced(s@, text::opt_str_view(part)));
    choose_reading(read_part(Some(s)), read_part(strip_outer_json_fence(s)), read_part(part))
}

// Cleaning.

/// What follows a label and a colon.
pub open spec fn labelled(s: Seq<char>, label: Seq<char>) -> Option<Seq<char>> {
    match text::behind(s, label) {
        Some(rest) => {
            let t = text::trim_start(rest);
            if t.len() > 0 && (t[0] == '：' || t[0] == ':') {
                Some(text::trimmed(t.skip(1)))
            } else {
                None
            }
        },
        None => None,
    }
}

fn behind_label(s: &str, label: &str) -> (r: Option<String>)
    ensures
        text::opt_view(r) == labelled(s@, label@),
{
    match text::strip_prefix(s, label) {
        Some(rest) => {
            let t = text::trim_left(rest);
            let n: usize = t.unicode_len();
            if n > 0 && (t.get_char(0) == '：' || t.get_char(0) == ':') {
                assert(t@.subrange(1, n as int) =~= t@.skip(1));
                Some(text::trim(t.substring_char(1, n)).to_owned())
            } else {
                None
            }
        },
        None => None,
    }
}

/// The text without the first of the known labels that it carries.
pub open spec fn unlabelled(s: Seq<char>) -> Seq<char> {
    if labelled(s, "记忆草稿"@) is Some {
        labelled(s, "记忆草稿"@)->0
    } else if labelled(s, "记忆"@) is Some {
        labelled(s, "记忆"@)->0
    } else if labelled(s, "内容"@) is Some {
        labelled(s, "内容"@)->0
    } else if labelled(s, "可写入记忆"@) is Some {
        labelled(s, "可写入记忆"@)->0
    } else if labelled(s, "写入内容"@) is Some {
        labelled(s, "写入内容"@)->0
    } else {
        s
    }
}

fn strip_label(s: &str) -> (r: String)
    ensures
        r@ == unlabelled(s@),
{
    match behind_label(s, "记忆草稿") {
        Some(t) => {
            return t;
        },
        None => {},
    }
    match behind_label(s, "记忆") {
        Some(t) => {
            return t;
        },
        None => {},
    }
    match behind_label(s, "内容") {
        Some(t) => {
            return t;
        },
        None => {},
    }
    match behind_label(s, "可写入记忆") {
        Some(t) => {
            return t;
        },
        None => {},
    }
    match behind_label(s, "写入内容") {
        Some(t) => {
            return t;
        },
        None => {},
    }
    s.to_owned()
}

/// The memory text in `raw`, given its plain form `plain` without markup: trimmed, without
/// full stops around it and without a label, cut to the longest length that is kept. Code
/// blocks and JSON are not taken.
pub open spec fn sanitized(raw: Seq<char>, plain: Seq<char>) -> Option<Seq<char>> {
    let c = unlabelled(text::trimmed(text::trim_set(text::trimmed(plain), "。"@)));
    let cut = if c.len() > MAX_MEMORY_DRAFT_LENGTH {
        text::trim_end(c.take(MAX_MEMORY_DRAFT_LENGTH as int))
    } else {
        c
    };
    if text::starts_with(text::trim_start(raw), "```"@) {
        None
    } else if text::starts_with(text::trim_start(c), "{"@) && text::has_sub(c, "\"content\""@) {
        None
    } else if cut.len() == 0 {
        None
    } else {
        Some(cut)
    }
}

pub fn sanitize_memory_content(raw: &str, plain: &str) -> (r: Option<String>)
    ensures
        text::opt_view(r) == sanitized(raw@, plain@),
{
    if text::has_prefix(text::trim_left(raw), "```") {
        return None;
    }
    let content = strip_label(text::trim(text::trim_chars(text::trim(plain), "。")));
    if text::has_prefix(text::trim_left(content.as_str()), "{") && text::contains(
        content.as_str(),
        "\"content\"",
    ) {
        return None;
    }
    let cut = if content.as_str().unicode_len() > MAX_MEMORY_DRAFT_LENGTH {
        text::trim_right(text::take_chars(content.as_str(), MAX_MEMORY_DRAFT_LENGTH)).to_owned()
    } else {
        content
    };
    if cut.as_str().unicode_len() == 0 {
        None
    } else {
        Some(cut)
    }
}

/// Whether the text says that there is nothing to remember.
pub open spec fn says_nothing(s: Seq<char>) -> bool {
    let t = text::trimmed(s);
    t.len() == 0 || t == "无"@ || t == "不适合写入长期记忆"@ || t == "无法整理"@
}

fn is_invalid_memory_draft(s: &str) -> (r: bool)
    ensures
        r == says_nothing(s@),
{
    let t = text::trim(s);
    t.unicode_len() == 0 || text::same(t, "无") || text::same(t, "不适合写入长期记忆") || text::same(
        t,
        "无法整理",
    )
}

// Secrets.

/// Whether the text names a kind of secret.
pub open spec fn names_secret(lower: Seq<char>) -> bool {
    ||| text::has_sub(lower, "身份证"@)
    ||| text::has_sub(lower, "护照号"@)
    ||| text::has_sub(lower, "银行卡"@)
    ||| text::has_sub(lower, "账号密码"@)
    ||| text::has_sub(lower, "登录密码"@)
    ||| text::has_sub(lower, "支付密码"@)
    ||| text::has_sub(lower, "api key"@)
    ||| text::has_sub(lower, "apikey"@)
    ||| text::has_sub(lower, "credential"@)
    ||| text::has_sub(lower, "private key"@)
    ||| text::has_sub(lower, "access token"@)
    ||| text::has_sub(lower, "refresh token"@)
    ||| text::has_sub(lower, "bearer "@)
}

/// Whether an identity number of eighteen characters stands at position `i`.
pub open spec fn id_number_at(s: Seq<char>, i: int) -> bool {
    &&& 0 <= i
    &&& i + 18 <= s.len()
    &&& forall|k: int| i <= k < i + 17 ==> text::is_digit(#[trigger] s[k])
    &&& text::is_digit(s[i + 17]) || s[i + 17] == 'x' || s[i + 17] == 'X'
}

/// Whether the text holds something that must not be remembered, given the text with
/// secrets masked: masking changed it, it names a kind of secret, or it holds an identity
/// number.
pub open spec fn is_sensitive(s: Seq<char>, masked: Seq<char>) -> bool {
    ||| masked != s
    ||| names_secret(text::ascii_lowered(s))
    ||| exists|i: int| id_number_at(s, i)
}

fn holds_id_number(s: &str) -> (r: bool)
    ensures
        r == exists|i: int| id_number_at(s@, i),
{
    let v = text::chars_of(s);
    let n: usize = v.len();
    let mut i: usize = 0;
    // The number of digits that end just before position `i`.
    let mut run: usize = 0;
    while i < n
        invariant
            n == v@.len(),
            v@ == s@,
            0 <= i <= n,
            run <= i,
            forall|k: int| i - run <= k < i ==> text::is_digit(#[trigger] s@[k]),
            run < i ==> !text::is_digit(s@[i - run - 1]),
            forall|k: int| 0 <= k && k + 18 <= i ==> !id_number_at(s@, k),
        decreases n - i,
    {
        let digit = text::is_ascii_digit(v[i]);
        if run >= 17 && (digit || v[i] == 'x' || v[i] == 'X') {
            proof {
                assert(id_number_at(s@, i - 17));
            }
            return true;
        }
        proof {
            assert forall|k: int| 0 <= k && k + 18 <= i + 1 implies !id_number_at(s@, k) by {
                if k + 18 == i + 1 && id_number_at(s@, k) {
                    if run < 17 {
                        assert(k <= i - run - 1 < k + 17);
                        assert(text::is_digit(s@[i - run - 1]));
                    }
                }
            }
        }
        if digit {
            run += 1;
        } else {
            run = 0;
        }
        i += 1;
    }
    proof {
        assert forall|k: int| !id_number_at(s@, k) by {}
    }
    false
}

pub fn contains_sensitive_text(s: &str, masked: &str) -> (r: bool)
    ensures
        r == is_sensitive(s@, masked@),
{
    if !text::same(masked, s) {
        return true;
    }
    let lower = text::to_ascii_lowercase(s);
    let l = lower.as_str();
    if text::contains(l, "身份证") || text::contains(l, "护照号") || text::contains(l, "银行卡")
        || text::contains(l, "账号密码") || text::contains(l, "登录密码") || text::contains(
        l,
        "支付密码",
    ) || text::contains(l, "api key") || text::contains(l, "apikey") || text::contains(
        l,
        "credential",
    ) || text::contains(l, "private key") || text::contains(l, "access token") || text::contains(
        l,
        "refresh token",
    ) || text::contains(l, "bearer ") {
        return true;
    }
    holds_id_number(s)
}

/// The draft, unless it says nothing or holds a secret.
pub open spec fn acceptable(draft: Seq<char>, masked: Seq<char>) -> bool {
    !says_nothing(draft) && !is_sensitive(draft, masked)
}

pub fn accept_draft(draft: String, masked: &str) -> (r: Option<String>)
    ensures
        r == (if acceptable(draft@, masked@) {
            Some(draft)
        } else {
            None
        }),
{
    if is_invalid_memory_draft(draft.as_str()) || contains_sensitive_text(draft.as_str(), masked) {
        None
    } else {
        Some(draft)
    }
}

// Classifying.

/// The kind of statement that the text makes, and the attribute that it sets.
pub open spec fn classified(s: Seq<char>, kind: MemoryKind) -> (MemoryCategory, Option<Seq<char>>) {
    if text::has_sub(s, "叫我"@) || text::has_sub(s, "称呼"@) || text::has_sub(s, "昵称"@) {
        (MemoryCategory::Identity, Some("nickname"@))
    } else if text::has_sub(s, "身份"@) || text::has_sub(s, "角色"@) || text::has_sub(s, "人设"@) {
        (MemoryCategory::Identity, Some("identity"@))
    } else if text::has_sub(s, "喜欢"@) || text::has_sub(s, "不喜欢"@) || text::has_sub(s, "偏好"@)
        || text::has_sub(s, "希望你回复"@) {
        (MemoryCategory::Preference, None)
    } else if kind == MemoryKind::Group && (text::has_sub(s, "群规"@) || text::has_sub(s, "约定"@)
        || text::has_sub(s, "每周"@) || text::has_sub(s, "公告"@)) {
        (MemoryCategory::Instruction, None)
    } else {
        (MemoryCategory::Note, None)
    }
}

pub fn classify_draft(s: &str, kind: MemoryKind) -> (r: (MemoryCategory, Option<String>))
    ensures
        (r.0, text::opt_view(r.1)) == classified(s@, kind),
{
    if text::contains(s, "叫我") || text::contains(s, "称呼") || text::contains(s, "昵称") {
        return (MemoryCategory::Identity, Some("nickname".to_owned()));
    }
    if text::contains(s, "身份") || text::contains(s, "角色") || text::contains(s, "人设") {
        return (MemoryCategory::Identity, Some("identity".to_owned()));
    }
    if text::contains(s, "喜欢") || text::contains(s, "不喜欢") || text::contains(s, "偏好")
        || text::contains(s, "希望你回复") {
        return (MemoryCategory::Preference, None);
    }
    if kind == MemoryKind::Group && (text::contains(s, "群规") || text::contains(s, "约定")
        || text::contains(s, "每周") || text::contains(s, "公告")) {
        return (MemoryCategory::Instruction, None);
    }
    (MemoryCategory::Note, None)
}

/// The visibility that new memories of a kind get.
pub open spec fn default_visibility(kind: MemoryKind) -> MemoryVisibility {
    match kind {
        MemoryKind::GroupProfile | MemoryKind::Group => MemoryVisibility::GroupMembers,
        _ => MemoryVisibility::Private,
    }
}

/// Whether the draft is what is prepared of these texts for the target.
pub open spec fn is_prepared(
    d: PreparedMemoryDraft,
    target: MemoryTarget,
    content: Seq<char>,
    source_text: Seq<char>,
    source_ref: Option<Seq<char>>,
    change_type: Seq<char>,
) -> bool {
    &&& d.target == target
    &&& d.visibility == default_visibility(target.memory_kind)
    &&& (d.category, text::opt_view(d.attribute_key)) == classified(content, target.memory_kind)
    &&& d.content@ == content
    &&& d.source_text@ == source_text
    &&& d.source_summary@ == "用户通过明确记忆指令提交"@
    &&& d.change_type@ == change_type
    &&& text::opt_view(d.source_ref) == source_ref
}

pub fn prepare_memory_draft(
    target: MemoryTarget,
    content: String,
    source_text: String,
    source_ref: Option<String>,
    change_type: &str,
) -> (r: PreparedMemoryDraft)
    ensures
        is_prepared(
            r,
            target,
            content@,
            source_text@,
            text::opt_view(source_ref),
            change_type@,
        ),
{
    let (category, attribute_key) = classify_draft(content.as_str(), target.memory_kind());
    let visibility = match target.memory_kind() {
        MemoryKind::Personal => MemoryVisibility::Private,
        MemoryKind::GroupProfile => MemoryVisibility::GroupMembers,
        MemoryKind::Group => MemoryVisibility::GroupMembers,
        MemoryKind::LegacyUnassigned => MemoryVisibility::Private,
    };
    PreparedMemoryDraft {
        target,
        visibility,
        category,
        content,
        source_text,
        source_summary: "用户通过明确记忆指令提交".to_owned(),
        change_type: change_type.to_owned(),
        attribute_key,
        source_ref,
    }
}

} // verus!
