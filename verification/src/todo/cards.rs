//! Cards: one layout of a task's fields for reminders, receipts and details, as plain text
//! and as Markdown.
use vstd::prelude::*;
use vstd::string::*;

use crate::labels::Labels;
use crate::markdown;
use crate::text;
use crate::todo::types;
use crate::todo::types::{
    TodoError, TodoItem, TodoRecurrence, TodoRecurrenceKind, TodoRecurrenceUnit, TodoStatus,
};

verus! {

/// How many characters of a title are shown.
pub const TITLE_MAX_CHARS: usize = 80;

/// How many characters of a detail are shown.
pub const DETAIL_MAX_CHARS: usize = 120;

/// A message in its two forms.
#[derive(Debug)]
pub struct TodoPushBody {
    pub text: String,
    pub markdown: String,
}

/// What a card shows of a task.
#[derive(Debug)]
pub struct TodoRenderItem {
    pub title: String,
    pub detail: Option<String>,
    pub due_date: Option<String>,
    pub due_at: Option<String>,
    pub reminder_at: Option<String>,
    pub recurrence_kind: TodoRecurrenceKind,
    pub recurrence_interval_days: u32,
    pub recurrence_interval: u32,
    pub recurrence_unit: TodoRecurrenceUnit,
    pub status: Option<String>,
    pub next_reminder_at: Option<String>,
    pub completed_at: Option<String>,
    pub cancelled_at: Option<String>,
}

#[derive(Debug, Clone, Copy, PartialEq, Eq, Structural)]
pub enum ReminderFieldMode {
    Current,
    Next,
}

#[derive(Debug, Clone, Copy, PartialEq, Eq, Structural)]
pub struct TodoCardOptions {
    pub reminder_mode: ReminderFieldMode,
    pub show_next_reminder: bool,
}

impl Default for TodoCardOptions {
    fn default() -> (r: Self)
        ensures
            r == (TodoCardOptions {
                reminder_mode: ReminderFieldMode::Current,
                show_next_reminder: false,
            }),
    {
        TodoCardOptions { reminder_mode: ReminderFieldMode::Current, show_next_reminder: false }
    }
}

/// A rule by which tasks repeat, in words.
#[derive(Debug)]
pub struct RuleWords {
    pub rule: TodoRecurrence,
    pub words: String,
}

/// How times and rules are shown, and what becomes of long titles and details.
#[derive(Debug)]
pub struct CardTexts {
    pub times: Labels,
    pub titles: Labels,
    pub details: Labels,
    pub rules: Vec<RuleWords>,
}

/// The words for the rule: those of the first entry for it, if there is one.
pub open spec fn words_in(entries: Seq<RuleWords>, rule: TodoRecurrence) -> Option<Seq<char>>
    decreases entries.len(),
{
    if entries.len() == 0 {
        None
    } else if types::same_rule(entries[0].rule, rule) {
        Some(entries[0].words@)
    } else {
        words_in(entries.skip(1), rule)
    }
}

fn find_words(entries: &Vec<RuleWords>, rule: &TodoRecurrence) -> (r: Option<String>)
    ensures
        text::opt_view(r) == words_in(entries@, *rule),
{
    let mut i: usize = 0;
    assert(entries@.skip(0) =~= entries@);
    while i < entries.len()
        invariant
            0 <= i <= entries@.len(),
            words_in(entries@.skip(i as int), *rule) == words_in(entries@, *rule),
        decreases entries@.len() - i,
    {
        assert(entries@.skip(i as int)[0] == entries@[i as int]);
        assert(entries@.skip(i as int).skip(1) =~= entries@.skip(i + 1));
        if types::is_same_rule(&entries[i].rule, rule) {
            return Some(entries[i].words.clone());
        }
        i += 1;
    }
    None
}

pub open spec fn status_name(status: TodoStatus) -> Seq<char> {
    match status {
        TodoStatus::Pending => "pending"@,
        TodoStatus::Completed => "completed"@,
        TodoStatus::Cancelled => "cancelled"@,
    }
}

pub fn status_machine_str(status: TodoStatus) -> (r: &'static str)
    ensures
        r@ == status_name(status),
{
    match status {
        TodoStatus::Pending => "pending",
        TodoStatus::Completed => "completed",
        TodoStatus::Cancelled => "cancelled",
    }
}

pub open spec fn status_words(s: Seq<char>) -> Option<Seq<char>> {
    if s == "pending"@ {
        Some("进行中"@)
    } else if s == "completed"@ {
        Some("已完成"@)
    } else if s == "cancelled"@ {
        Some("已取消"@)
    } else {
        None
    }
}

pub fn todo_status_display_label(s: &str) -> (r: Option<&'static str>)
    ensures
        text::opt_str_view(r) == status_words(s@),
{
    if text::same(s, "pending") {
        Some("进行中")
    } else if text::same(s, "completed") {
        Some("已完成")
    } else if text::same(s, "cancelled") {
        Some("已取消")
    } else {
        None
    }
}

/// The time that a preview gives; one that failed gives none.
pub open spec fn previewed(preview: Result<Option<String>, TodoError>) -> Option<String> {
    match preview {
        Ok(next) => next,
        Err(_) => None,
    }
}

/// Whether the card shows the fields of the task, with the time of its next reminder.
pub open spec fn is_layout(
    r: TodoRenderItem,
    item: TodoItem,
    preview: Result<Option<String>, TodoError>,
) -> bool {
    &&& r.title == item.title
    &&& r.detail == item.detail
    &&& r.due_date == item.due_date
    &&& r.due_at == item.due_at
    &&& r.reminder_at == item.reminder_at
    &&& r.recurrence_kind == item.recurrence.kind
    &&& r.recurrence_interval_days == item.recurrence.interval_days
    &&& r.recurrence_interval == item.recurrence.interval
    &&& r.recurrence_unit == item.recurrence.unit
    &&& text::opt_view(r.status) == Some(status_name(item.status))
    &&& r.next_reminder_at == previewed(preview)
    &&& r.completed_at == item.completed_at
    &&& r.cancelled_at == item.cancelled_at
}

impl TodoRenderItem {
    /// The fields of a task. `preview` is what came of looking for its next reminder.
    pub fn from_todo(item: &TodoItem, preview: Result<Option<String>, TodoError>) -> (r: Self)
        ensures
            is_layout(r, *item, preview),
    {
        TodoRenderItem {
            title: item.title.clone(),
            detail: text::copy_option(&item.detail),
            due_date: text::copy_option(&item.due_date),
            due_at: text::copy_option(&item.due_at),
            reminder_at: text::copy_option(&item.reminder_at),
            recurrence_kind: item.recurrence.kind.clone(),
            recurrence_interval_days: item.recurrence.interval_days,
            recurrence_interval: item.recurrence.interval,
            recurrence_unit: item.recurrence.unit.clone(),
            status: Some(status_machine_str(item.status).to_owned()),
            next_reminder_at: match preview {
                Ok(next) => next,
                Err(_) => None,
            },
            completed_at: text::copy_option(&item.completed_at),
            cancelled_at: text::copy_option(&item.cancelled_at),
        }
    }

    /// The rule by which the task repeats.
    pub open spec fn rule(self) -> TodoRecurrence {
        TodoRecurrence {
            kind: self.recurrence_kind,
            interval_days: self.recurrence_interval_days,
            interval: self.recurrence_interval,
            unit: self.recurrence_unit,
        }
    }

    fn recurrence(&self) -> (r: TodoRecurrence)
        ensures
            r == self.rule(),
    {
        TodoRecurrence {
            kind: self.recurrence_kind.clone(),
            interval_days: self.recurrence_interval_days,
            interval: self.recurrence_interval,
            unit: self.recurrence_unit.clone(),
        }
    }
}

// The lines of a card.

/// The text in the form that is asked for.
pub open spec fn in_form(s: Seq<char>, md: bool) -> Seq<char> {
    if md {
        markdown::inline(s)
    } else {
        s
    }
}

fn to_form(s: String, md: bool) -> (r: String)
    ensures
        r@ == in_form(s@, md),
{
    if md {
        markdown::escape_markdown_inline(s.as_str())
    } else {
        s
    }
}

pub open spec fn field(label: Seq<char>, value: Seq<char>, md: bool) -> Seq<char> {
    if md {
        "**"@ + markdown::inline(label) + "**："@ + markdown::inline(value)
    } else {
        Seq::<char>::empty() + label + "："@ + value
    }
}

pub fn field_line(label: &str, value: &str, md: bool) -> (r: String)
    ensures
        r@ == field(label@, value@, md),
{
    if md {
        let mut s = "**".to_owned();
        s.append(markdown::escape_markdown_inline(label).as_str());
        s.append("**：");
        s.append(markdown::escape_markdown_inline(value).as_str());
        s
    } else {
        let mut s = String::new();
        s.append(label);
        s.append("：");
        s.append(value);
        s
    }
}

/// The time behind a title: none where the task is due only because it reminds.
pub open spec fn due_chip(item: TodoRenderItem, texts: CardTexts) -> Option<Seq<char>> {
    let due_at = text::opt_view(item.due_at);
    if item.due_date is None && due_at == text::opt_view(item.reminder_at) && item.reminder_at is Some {
        None
    } else {
        match due_at {
            Some(t) => Some(texts.times.label(t)),
            None => match text::opt_view(item.due_date) {
                Some(d) => Some(texts.times.label(d)),
                None => None,
            },
        }
    }
}

pub fn detail_card_due_chip(item: &TodoRenderItem, texts: &CardTexts) -> (r: Option<String>)
    ensures
        text::opt_view(r) == due_chip(*item, *texts),
{
    if item.due_date.is_none() && text::same_option(&item.due_at, &item.reminder_at)
        && item.reminder_at.is_some() {
        return None;
    }
    match &item.due_at {
        Some(t) => Some(texts.times.get(t.as_str())),
        None => match &item.due_date {
            Some(d) => Some(texts.times.get(d.as_str())),
            None => None,
        },
    }
}

pub open spec fn title_line(item: TodoRenderItem, md: bool, index: int, numbered: bool, texts: CardTexts) -> Seq<char> {
    let title = in_form(
        texts.titles.shortened(text::trimmed(item.title@), TITLE_MAX_CHARS as int),
        md,
    );
    let start = if numbered {
        text::decimal((index + 1) as nat) + ". "@ + title
    } else {
        title
    };
    match due_chip(item, texts) {
        Some(time) => start + (if md {
            " · **时间**："@
        } else {
            " · 时间："@
        }) + in_form(time, md),
        None => start,
    }
}

fn card_title(item: &TodoRenderItem, md: bool, index: usize, numbered: bool, texts: &CardTexts) -> (r: String)
    requires
        index < usize::MAX,
    ensures
        r@ == title_line(*item, md, index as int, numbered, *texts),
{
    let title = to_form(
        texts.titles.shorten(text::trim(item.title.as_str()), TITLE_MAX_CHARS),
        md,
    );
    let mut line = if numbered {
        let mut s = text::decimal_string(index as u64 + 1);
        s.append(". ");
        s.append(title.as_str());
        s
    } else {
        title
    };
    match detail_card_due_chip(item, texts) {
        Some(time) => {
            if md {
                line.append(" · **时间**：");
            } else {
                line.append(" · 时间：");
            }
            line.append(to_form(time, md).as_str());
        },
        None => {},
    }
    line
}

pub open spec fn reminder_time(item: TodoRenderItem, mode: ReminderFieldMode) -> Option<Seq<char>> {
    match mode {
        ReminderFieldMode::Current => text::opt_view(item.reminder_at),
        ReminderFieldMode::Next => if item.next_reminder_at is Some {
            text::opt_view(item.next_reminder_at)
        } else {
            text::opt_view(item.reminder_at)
        },
    }
}

pub fn reminder_field_value(item: &TodoRenderItem, mode: ReminderFieldMode, texts: &CardTexts) -> (r: Option<String>)
    ensures
        text::opt_view(r) == (match reminder_time(*item, mode) {
            Some(t) => Some(texts.times.label(t)),
            None => None,
        }),
{
    let shown = match mode {
        ReminderFieldMode::Current => &item.reminder_at,
        ReminderFieldMode::Next => {
            if item.next_reminder_at.is_some() {
                &item.next_reminder_at
            } else {
                &item.reminder_at
            }
        },
    };
    match shown {
        Some(t) => Some(texts.times.get(t.as_str())),
        None => None,
    }
}

pub open spec fn reminder_label(mode: ReminderFieldMode) -> Seq<char> {
    match mode {
        ReminderFieldMode::Current => "提醒"@,
        ReminderFieldMode::Next => "下一次提醒"@,
    }
}

/// One line, or none.
pub open spec fn line_of(o: Option<Seq<char>>) -> Seq<Seq<char>> {
    match o {
        Some(s) => seq![s],
        None => Seq::empty(),
    }
}

pub open spec fn status_line(item: TodoRenderItem, md: bool) -> Option<Seq<char>> {
    match text::opt_view(item.status) {
        Some(s) => match status_words(s) {
            Some(w) => Some(field("状态"@, w, md)),
            None => None,
        },
        None => None,
    }
}

pub open spec fn reminder_line(item: TodoRenderItem, md: bool, options: TodoCardOptions, texts: CardTexts) -> Option<Seq<char>> {
    match reminder_time(item, options.reminder_mode) {
        Some(t) => Some(field(reminder_label(options.reminder_mode), texts.times.label(t), md)),
        None => None,
    }
}

pub open spec fn recurrence_line(item: TodoRenderItem, md: bool, texts: CardTexts) -> Option<Seq<char>> {
    match words_in(texts.rules@, item.rule()) {
        Some(s) => Some(field("重复"@, s, md)),
        None => None,
    }
}

/// The next reminder is shown where it is another one.
pub open spec fn next_line(item: TodoRenderItem, md: bool, options: TodoCardOptions, texts: CardTexts) -> Option<Seq<char>> {
    match text::opt_view(item.next_reminder_at) {
        Some(t) => if options.show_next_reminder && Some(t) != text::opt_view(item.reminder_at) {
            Some(field("下一次提醒"@, texts.times.label(t), md))
        } else {
            None
        },
        None => None,
    }
}

pub open spec fn detail_line(item: TodoRenderItem, md: bool, texts: CardTexts) -> Option<Seq<char>> {
    match text::opt_view(item.detail) {
        Some(d) => if text::blank(d) {
            None
        } else {
            let shown = texts.details.shortened(text::trimmed(d), DETAIL_MAX_CHARS as int);
            Some("详情：\n"@ + (if md {
                markdown::block(shown)
            } else {
                shown
            }))
        },
        None => None,
    }
}

/// When the task reached its final status.
pub open spec fn end_line(
    item: TodoRenderItem,
    status: Seq<char>,
    label: Seq<char>,
    at: Option<Seq<char>>,
    md: bool,
    texts: CardTexts,
) -> Option<Seq<char>> {
    match at {
        Some(t) => if text::opt_view(item.status) == Some(status) {
            Some(field(label, texts.times.label(t), md))
        } else {
            None
        },
        None => None,
    }
}

/// The lines with those of one card behind them.
pub open spec fn card_behind(
    lines: Seq<Seq<char>>,
    item: TodoRenderItem,
    md: bool,
    index: int,
    numbered: bool,
    options: TodoCardOptions,
    texts: CardTexts,
) -> Seq<Seq<char>> {
    let completed_at = text::opt_view(item.completed_at);
    let cancelled_at = text::opt_view(item.cancelled_at);
    lines + line_of(Some(title_line(item, md, index, numbered, texts))) + line_of(
        status_line(item, md),
    ) + line_of(reminder_line(item, md, options, texts)) + line_of(recurrence_line(item, md, texts))
        + line_of(next_line(item, md, options, texts)) + line_of(detail_line(item, md, texts))
        + line_of(end_line(item, "completed"@, "完成时间"@, completed_at, md, texts)) + line_of(
        end_line(item, "cancelled"@, "取消时间"@, cancelled_at, md, texts),
    )
}

fn push_line(lines: &mut Vec<String>, line: Option<String>)
    ensures
        text::views(final(lines)@) == text::views(old(lines)@) + line_of(text::opt_view(line)),
{
    match line {
        Some(s) => {
            lines.push(s);
            assert(text::views(lines@) =~= text::views(old(lines)@) + seq![s@]);
        },
        None => {
            assert(text::views(lines@) =~= text::views(old(lines)@) + Seq::<Seq<char>>::empty());
        },
    }
}

fn make_end_line(
    item: &TodoRenderItem,
    status: &str,
    label: &str,
    at: &Option<String>,
    md: bool,
    texts: &CardTexts,
) -> (r: Option<String>)
    ensures
        text::opt_view(r) == end_line(*item, status@, label@, text::opt_view(*at), md, *texts),
{
    match at {
        Some(t) => {
            let is_it = match &item.status {
                Some(s) => text::same(s.as_str(), status),
                None => false,
            };
            if is_it {
                Some(field_line(label, texts.times.get(t.as_str()).as_str(), md))
            } else {
                None
            }
        },
        None => None,
    }
}

pub fn append_todo_card_lines(
    lines: &mut Vec<String>,
    item: &TodoRenderItem,
    md: bool,
    index: usize,
    numbered: bool,
    options: TodoCardOptions,
    texts: &CardTexts,
)
    requires
        index < usize::MAX,
    ensures
        text::views(final(lines)@) == card_behind(
            text::views(old(lines)@),
            *item,
            md,
            index as int,
            numbered,
            options,
            *texts,
        ),
{
    let title = card_title(item, md, index, numbered, texts);
    push_line(lines, Some(title));
    let status: Option<String> = match &item.status {
        Some(s) => match todo_status_display_label(s.as_str()) {
            Some(w) => Some(field_line("状态", w, md)),
            None => None,
        },
        None => None,
    };
    push_line(lines, status);
    let label: &str = match options.reminder_mode {
        ReminderFieldMode::Current => "提醒",
        ReminderFieldMode::Next => "下一次提醒",
    };
    let reminder: Option<String> = match reminder_field_value(item, options.reminder_mode, texts) {
        Some(t) => Some(field_line(label, t.as_str(), md)),
        None => None,
    };
    push_line(lines, reminder);
    let recurrence: Option<String> = match find_words(&texts.rules, &item.recurrence()) {
        Some(s) => Some(field_line("重复", s.as_str(), md)),
        None => None,
    };
    push_line(lines, recurrence);
    let next: Option<String> = match &item.next_reminder_at {
        Some(t) => {
            if options.show_next_reminder && !text::same_option(
                &item.next_reminder_at,
                &item.reminder_at,
            ) {
                Some(field_line("下一次提醒", texts.times.get(t.as_str()).as_str(), md))
            } else {
                None
            }
        },
        None => None,
    };
    push_line(lines, next);
    let detail: Option<String> = match &item.detail {
        Some(d) => {
            if text::is_blank(d.as_str()) {
                None
            } else {
                let shown = texts.details.shorten(text::trim(d.as_str()), DETAIL_MAX_CHARS);
                let mut s = "详情：\n".to_owned();
                if md {
                    s.append(markdown::escape_markdown_text(shown.as_str()).as_str());
                } else {
                    s.append(shown.as_str());
                }
                Some(s)
            }
        },
        None => None,
    };
    push_line(lines, detail);
    let completed = make_end_line(item, "completed", "完成时间", &item.completed_at, md, texts);
    push_line(lines, completed);
    let cancelled = make_end_line(item, "cancelled", "取消时间", &item.cancelled_at, md, texts);
    push_line(lines, cancelled);
}

/// The first line with the cards of several tasks behind it, each behind an empty line.
pub open spec fn cards(
    first: Seq<char>,
    items: Seq<TodoRenderItem>,
    md: bool,
    numbered: bool,
    options: TodoCardOptions,
    texts: CardTexts,
) -> Seq<Seq<char>>
    decreases items.len(),
{
    if items.len() == 0 {
        seq![first]
    } else {
        card_behind(
            cards(first, items.drop_last(), md, numbered, options, texts).push(Seq::empty()),
            items.last(),
            md,
            items.len() - 1,
            numbered,
            options,
            texts,
        )
    }
}

/// Header and cards in one of the two forms.
pub open spec fn rendered(
    header: Seq<char>,
    items: Seq<TodoRenderItem>,
    md: bool,
    options: TodoCardOptions,
    texts: CardTexts,
) -> Seq<char> {
    let first = if md {
        "# "@ + markdown::inline(header)
    } else {
        header
    };
    text::joined(cards(first, items, md, items.len() > 1, options, texts), "\n"@)
}

fn render(header: &str, items: &Vec<TodoRenderItem>, md: bool, options: TodoCardOptions, texts: &CardTexts) -> (r: String)
    ensures
        r@ == rendered(header@, items@, md, options, *texts),
{
    let mut lines: Vec<String> = Vec::new();
    let first: String = if md {
        let mut s = "# ".to_owned();
        s.append(markdown::escape_markdown_inline(header).as_str());
        s
    } else {
        header.to_owned()
    };
    let ghost head = first@;
    lines.push(first);
    let n: usize = items.len();
    let numbered = n > 1;
    let mut i: usize = 0;
    proof {
        assert(items@.take(0) =~= Seq::empty());
        assert(text::views(lines@) =~= cards(head, items@.take(0), md, numbered, options, *texts));
    }
    while i < n
        invariant
            0 <= i <= n,
            n == items@.len(),
            numbered == (n > 1),
            text::views(lines@) == cards(head, items@.take(i as int), md, numbered, options, *texts),
        decreases n - i,
    {
        let ghost before = text::views(lines@);
        lines.push(String::new());
        assert(text::views(lines@) =~= before.push(Seq::empty()));
        append_todo_card_lines(&mut lines, &items[i], md, i, numbered, options, texts);
        proof {
            assert(items@.take(i + 1).drop_last() =~= items@.take(i as int));
            assert(items@.take(i + 1).last() == items@[i as int]);
        }
        i += 1;
    }
    assert(items@.take(i as int) =~= items@);
    text::join(&lines, "\n")
}

pub fn format_todo_cards(
    header: &str,
    items: &Vec<TodoRenderItem>,
    options: TodoCardOptions,
    texts: &CardTexts,
) -> (r: TodoPushBody)
    ensures
        r.text@ == rendered(header@, items@, false, options, *texts),
        r.markdown@ == rendered(header@, items@, true, options, *texts),
{
    TodoPushBody {
        text: render(header, items, false, options, texts),
        markdown: render(header, items, true, options, texts),
    }
}

/// The message that reminds of one task.
pub open spec fn is_reminder_push(body: TodoPushBody, item: TodoRenderItem, texts: CardTexts) -> bool {
    let options = TodoCardOptions {
        reminder_mode: ReminderFieldMode::Current,
        show_next_reminder: true,
    };
    &&& body.text@ == rendered("⏰ 待办提醒"@, seq![item], false, options, texts)
    &&& body.markdown@ == rendered("⏰ 待办提醒"@, seq![item], true, options, texts)
}

pub fn format_todo_single_reminder_push(
    item: &TodoItem,
    preview: Result<Option<String>, TodoError>,
    texts: &CardTexts,
) -> (r: TodoPushBody)
    ensures
        exists|shown: TodoRenderItem| #[trigger]
            is_layout(shown, *item, preview) && is_reminder_push(r, shown, *texts),
{
    let shown = TodoRenderItem::from_todo(item, preview);
    let ghost s = shown;
    let mut items: Vec<TodoRenderItem> = Vec::new();
    items.push(shown);
    assert(items@ =~= seq![s]);
    let body = format_todo_cards(
        "⏰ 待办提醒",
        &items,
        TodoCardOptions { reminder_mode: ReminderFieldMode::Current, show_next_reminder: true },
        texts,
    );
    assert(is_layout(s, *item, preview) && is_reminder_push(body, s, *texts));
    body
}

// Laws.

/// Plain text and Markdown show the same lines of a card.
pub proof fn both_forms_have_the_same_lines(
    lines: Seq<Seq<char>>,
    item: TodoRenderItem,
    index: int,
    numbered: bool,
    options: TodoCardOptions,
    texts: CardTexts,
)
    ensures
        card_behind(lines, item, true, index, numbered, options, texts).len() == card_behind(
            lines,
            item,
            false,
            index,
            numbered,
            options,
            texts,
        ).len(),
{
}

} // verus!
