//! The end of a turn: the outcomes of its tools in their order, and what becomes of the
//! model's reply.
use vstd::prelude::*;
use vstd::string::*;

use crate::json;
use crate::json::{Json, Shape};
use crate::memory::outcome as memory_outcome;
use crate::memory::types::MemoryKind;
use crate::text;
use crate::tools::outcome::{
    CommandBody, OutcomeView, ToolExecutionOutcome, ToolExecutionResult, ToolOutcomeStatus,
};
use crate::tools::presenters;
use crate::tools::presenters::WebSearchReplies;
use crate::tools::rss_cards;
use crate::tools::rss_cards::RssCardTexts;
use crate::tools::train;
use crate::tools::train::TrainReplies;
use crate::tools::weather;
use crate::tools::weather::WeatherTexts;

verus! {

// One result.

/// What other parts made of a result, for the tool that it comes from.
#[derive(Debug)]
pub struct ResultTexts {
    pub weather: WeatherTexts,
    pub train: TrainReplies,
    pub rss: RssCardTexts,
    pub web_search: WebSearchReplies,
    /// The kind of memory that the result names.
    pub memory_scope: Option<MemoryKind>,
}

/// The outcome of a result: that of its tool, or the general one.
pub open spec fn outcome_of(
    result: ToolExecutionResult,
    status: ToolOutcomeStatus,
    texts: ResultTexts,
    general: OutcomeView,
) -> OutcomeView {
    if let Some(o) = weather::weather_outcome(result, status, texts.weather) {
        o
    } else if let Some(o) = train::train_outcome(result, status, texts.train) {
        o
    } else if let Some(o) = rss_cards::rss_outcome(result, status, texts.rss) {
        o
    } else if let Some(o) = presenters::web_search_outcome(result, status, texts.web_search) {
        o
    } else if let Some(o) = memory_outcome::memory_outcome(result, status, texts.memory_scope) {
        o
    } else if let Some(o) = presenters::knowledge_outcome(result) {
        o
    } else {
        general
    }
}

pub fn present_result(
    result: &ToolExecutionResult,
    status: ToolOutcomeStatus,
    texts: &ResultTexts,
    general: ToolExecutionOutcome,
) -> (r: ToolExecutionOutcome)
    ensures
        r.shown() == outcome_of(*result, status, *texts, general.shown()),
{
    match weather::tool_outcome_from_weather_result(result, status, &texts.weather) {
        Some(o) => {
            return o;
        },
        None => {},
    }
    match train::tool_outcome_from_train_result(result, status, &texts.train) {
        Some(o) => {
            return o;
        },
        None => {},
    }
    match rss_cards::tool_outcome_from_rss_result(result, status, &texts.rss) {
        Some(o) => {
            return o;
        },
        None => {},
    }
    match presenters::tool_outcome_from_web_search_result(result, status, &texts.web_search) {
        Some(o) => {
            return o;
        },
        None => {},
    }
    match memory_outcome::tool_outcome_from_result(result, status, texts.memory_scope) {
        Some(o) => {
            return o;
        },
        None => {},
    }
    match presenters::tool_outcome_from_knowledge_result(result) {
        Some(o) => o,
        None => general,
    }
}

// All results.

/// How many of the tasks' outcomes at the front belong to the result.
pub open spec fn leading(todo: Seq<(usize, ToolExecutionOutcome)>, index: int) -> nat
    decreases todo.len(),
{
    if todo.len() == 0 || todo[0].0 != index {
        0
    } else {
        1 + leading(todo.skip(1), index)
    }
}

pub open spec fn outcomes_in(todo: Seq<(usize, ToolExecutionOutcome)>) -> Seq<ToolExecutionOutcome> {
    Seq::new(todo.len(), |i: int| todo[i].1)
}

proof fn lemma_leading_bound(todo: Seq<(usize, ToolExecutionOutcome)>, index: int)
    ensures
        leading(todo, index) <= todo.len(),
    decreases todo.len(),
{
    if todo.len() > 0 && todo[0].0 == index {
        lemma_leading_bound(todo.skip(1), index);
    }
}

/// The outcomes of a turn: for a result that the tasks took over, theirs, for another its own,
/// and at the end what the tasks have left. The results start at `index`.
pub open spec fn merged(
    own: Seq<ToolExecutionOutcome>,
    taken: Seq<usize>,
    todo: Seq<(usize, ToolExecutionOutcome)>,
    index: int,
) -> Seq<ToolExecutionOutcome>
    decreases own.len(),
{
    if own.len() == 0 {
        outcomes_in(todo)
    } else if exists|k: int| 0 <= k < taken.len() && #[trigger] taken[k] == index {
        let n = leading(todo, index) as int;
        outcomes_in(todo.take(n)) + merged(own.skip(1), taken, todo.skip(n), index + 1)
    } else {
        seq![own[0]] + merged(own.skip(1), taken, todo, index + 1)
    }
}

fn is_taken(taken: &Vec<usize>, index: usize) -> (r: bool)
    ensures
        r == (exists|k: int| 0 <= k < taken@.len() && #[trigger] taken@[k] == index),
{
    let mut i: usize = 0;
    while i < taken.len()
        invariant
            0 <= i <= taken@.len(),
            forall|k: int| 0 <= k < i ==> #[trigger] taken@[k] != index,
        decreases taken@.len() - i,
    {
        if taken[i] == index {
            return true;
        }
        i += 1;
    }
    false
}

/// Moves the outcomes that belong to the result.
fn drain_todo_outcomes_for_result(
    result_index: usize,
    todo: &mut Vec<(usize, ToolExecutionOutcome)>,
    outcomes: &mut Vec<ToolExecutionOutcome>,
)
    ensures
        ({
            let n = leading(old(todo)@, result_index as int) as int;
            final(todo)@ == old(todo)@.skip(n) && final(outcomes)@ == old(outcomes)@ + outcomes_in(
                old(todo)@.take(n),
            )
        }),
{
    let ghost all = todo@;
    let ghost before = outcomes@;
    let ghost mut moved: int = 0;
    proof {
        assert(all.skip(0) =~= all);
        assert(before + outcomes_in(all.take(0)) =~= before);
    }
    while todo.len() > 0 && todo[0].0 == result_index
        invariant
            0 <= moved <= all.len(),
            todo@ == all.skip(moved),
            outcomes@ == before + outcomes_in(all.take(moved)),
            leading(all, result_index as int) == moved + leading(todo@, result_index as int),
        decreases todo@.len(),
    {
        let ghost rest = todo@;
        let first = todo.remove(0);
        proof {
            assert(todo@ =~= rest.skip(1));
            assert(rest.skip(1) =~= all.skip(moved + 1));
            assert(all.take(moved + 1) =~= all.take(moved).push(all[moved]));
            assert(rest[0] == all[moved]);
            moved = moved + 1;
        }
        outcomes.push(first.1);
        assert(outcomes@ =~= before + outcomes_in(all.take(moved)));
    }
}

/// `own` holds an outcome for each result, `taken` the results that the tasks took over, and
/// `todo` the tasks' outcomes with the results that they belong to.
pub fn project_tool_turn(
    own: Vec<ToolExecutionOutcome>,
    taken: &Vec<usize>,
    todo: Vec<(usize, ToolExecutionOutcome)>,
) -> (r: Vec<ToolExecutionOutcome>)
    ensures
        r@ == merged(own@, taken@, todo@, 0),
{
    let ghost all = merged(own@, taken@, todo@, 0);
    let mut own = own;
    let mut todo = todo;
    let mut outcomes: Vec<ToolExecutionOutcome> = Vec::new();
    let mut index: usize = 0;
    let count: usize = own.len();
    assert(outcomes@ + all =~= all);
    while own.len() > 0
        invariant
            index + own@.len() == count,
            outcomes@ + merged(own@, taken@, todo@, index as int) == all,
        decreases own@.len(),
    {
        let ghost rest = own@;
        let ghost before = outcomes@;
        let ghost left = todo@;
        let first = own.remove(0);
        assert(own@ =~= rest.skip(1));
        if is_taken(taken, index) {
            drain_todo_outcomes_for_result(index, &mut todo, &mut outcomes);
            proof {
                let n = leading(left, index as int) as int;
                assert(outcomes@ + merged(own@, taken@, todo@, index + 1) =~= before + (outcomes_in(
                    left.take(n),
                ) + merged(own@, taken@, todo@, index + 1)));
            }
        } else {
            outcomes.push(first);
            assert(outcomes@ + merged(own@, taken@, todo@, index + 1) =~= before + (seq![rest[0]] + merged(
                own@,
                taken@,
                todo@,
                index + 1,
            )));
        }
        index += 1;
    }
    let ghost left = todo@;
    let ghost done = outcomes@;
    let ghost mut moved: int = 0;
    assert(left.skip(0) =~= left);
    assert(done + outcomes_in(left.take(0)) =~= done);
    while todo.len() > 0
        invariant
            0 <= moved <= left.len(),
            todo@ == left.skip(moved),
            outcomes@ == done + outcomes_in(left.take(moved)),
        decreases todo@.len(),
    {
        let ghost rest = todo@;
        let first = todo.remove(0);
        proof {
            assert(todo@ =~= rest.skip(1));
            assert(rest.skip(1) =~= left.skip(moved + 1));
            assert(left.take(moved + 1) =~= left.take(moved).push(left[moved]));
            assert(rest[0] == left[moved]);
            moved = moved + 1;
        }
        outcomes.push(first.1);
        assert(outcomes@ =~= done + outcomes_in(left.take(moved)));
    }
    assert(left.take(moved) =~= left);
    outcomes
}

/// How many results from `index` on are not taken over.
pub open spec fn own_count(count: nat, taken: Seq<usize>, index: int) -> nat
    decreases count,
{
    if count == 0 {
        0
    } else if exists|k: int| 0 <= k < taken.len() && #[trigger] taken[k] == index {
        own_count((count - 1) as nat, taken, index + 1)
    } else {
        1 + own_count((count - 1) as nat, taken, index + 1)
    }
}

/// No outcome is lost and none is made up: every one of the tasks is there, and one for each
/// result that the tasks did not take over.
pub proof fn every_outcome_is_there(
    own: Seq<ToolExecutionOutcome>,
    taken: Seq<usize>,
    todo: Seq<(usize, ToolExecutionOutcome)>,
    index: int,
)
    ensures
        merged(own, taken, todo, index).len() == todo.len() + own_count(own.len(), taken, index),
    decreases own.len(),
{
    if own.len() > 0 {
        let n = leading(todo, index) as int;
        lemma_leading_bound(todo, index);
        every_outcome_is_there(own.skip(1), taken, todo.skip(n), index + 1);
        every_outcome_is_there(own.skip(1), taken, todo, index + 1);
    }
}

// The reply.

/// What is sent to the user.
#[derive(Debug)]
pub struct RespondOutput {
    pub reply: String,
    pub text: String,
    pub markdown: Option<String>,
    pub chat_reply: Option<String>,
}

/// Reply, text, Markdown and what is remembered of it.
pub type OutputView = (Seq<char>, Seq<char>, Option<Seq<char>>, Option<Seq<char>>);

impl RespondOutput {
    pub open spec fn shown(self) -> OutputView {
        (self.reply@, self.text@, text::opt_view(self.markdown), text::opt_view(self.chat_reply))
    }
}

/// Text and Markdown as an output: the Markdown is the reply where there is one.
pub open spec fn replied(text: Seq<char>, markdown: Option<Seq<char>>) -> OutputView {
    let reply = match markdown {
        Some(m) => m,
        None => text,
    };
    (reply, text, markdown, Some(reply))
}

fn reply_with(text: String, markdown: Option<String>) -> (r: RespondOutput)
    ensures
        r.shown() == replied(text@, text::opt_view(markdown)),
{
    let reply = match &markdown {
        Some(m) => m.clone(),
        None => text.clone(),
    };
    let chat_reply = Some(reply.clone());
    RespondOutput { reply, text, markdown, chat_reply }
}

pub open spec fn outcome_output(body: CommandBody) -> OutputView {
    replied(body.text@, text::opt_view(body.markdown))
}

pub fn apply_agent_turn_outcome(output: &mut RespondOutput, body: &CommandBody)
    ensures
        final(output).shown() == outcome_output(*body),
{
    *output = reply_with(body.text.clone(), text::copy_option(&body.markdown));
}

/// The outcome, with the model's reply behind it. Where the model said nothing the outcome
/// stands alone.
pub open spec fn joint_output(body: CommandBody, reply: Seq<char>) -> OutputView {
    let model = text::trimmed(reply);
    if model.len() == 0 {
        outcome_output(body)
    } else {
        replied(
            if text::blank(body.text@) {
                model
            } else {
                text::trimmed(body.text@) + "\n\n"@ + model
            },
            match body.markdown {
                Some(m) if !text::blank(m@) => Some(text::trimmed(m@) + "\n\n"@ + model),
                _ => None,
            },
        )
    }
}

pub fn apply_agent_turn_outcome_with_model_reply(output: &mut RespondOutput, body: &CommandBody)
    ensures
        final(output).shown() == joint_output(*body, old(output).reply@),
{
    let model = text::trim(output.reply.as_str()).to_owned();
    let len: usize = model.as_str().unicode_len();
    if len == 0 {
        apply_agent_turn_outcome(output, body);
        return;
    }
    let shown = if text::is_blank(body.text.as_str()) {
        model.clone()
    } else {
        let mut s = text::trim(body.text.as_str()).to_owned();
        s.append("\n\n");
        s.append(model.as_str());
        s
    };
    let markdown = match &body.markdown {
        Some(m) => {
            if text::is_blank(m.as_str()) {
                None
            } else {
                let mut s = text::trim(m.as_str()).to_owned();
                s.append("\n\n");
                s.append(model.as_str());
                Some(s)
            }
        },
        None => None,
    };
    *output = reply_with(shown, markdown);
}

#[derive(Debug, Clone, Copy, PartialEq, Eq, Structural)]
pub enum AgentTurnStatus {
    Succeeded,
    PartialSuccess,
    PendingConfirmation,
    RequiresClarification,
    Failed,
}

/// The outcome of a turn as a whole.
#[derive(Debug)]
pub struct AgentTurnOutcome {
    pub status: AgentTurnStatus,
    /// Whether it can stand in place of the model's reply.
    pub can_replace_model_reply: bool,
    /// Whether the model's reply is kept beside it.
    pub should_preserve_model_reply: bool,
    pub has_unhandled_outcome: bool,
    pub has_outcomes: bool,
    pub body: CommandBody,
    /// What is shown of a turn that is not wholly understood.
    pub compat_body: CommandBody,
}

/// What a claim of success rests on.
#[derive(Debug, Clone, Copy, PartialEq, Eq, Structural)]
pub enum SuccessValidation {
    /// On the outcome.
    ByOutcome,
    /// On the model's reply, which was looked at.
    ByReply { passed: bool },
    /// No success was claimed.
    Unclaimed,
}

#[derive(Debug)]
pub struct ToolTurnPostprocess {
    pub output: RespondOutput,
    pub validation: SuccessValidation,
}

/// What is sent and what it rests on. A reply that claims a success that nothing shows is
/// replaced by `unverified`.
pub open spec fn turn_result(
    output: OutputView,
    outcome: AgentTurnOutcome,
    guard_enabled: bool,
    reply_passes: bool,
    unverified: OutputView,
) -> (OutputView, SuccessValidation) {
    if outcome.can_replace_model_reply {
        (
            if outcome.should_preserve_model_reply {
                joint_output(outcome.body, output.0)
            } else {
                outcome_output(outcome.body)
            },
            SuccessValidation::ByOutcome,
        )
    } else if outcome.has_unhandled_outcome && outcome.has_outcomes {
        (outcome_output(outcome.compat_body), SuccessValidation::ByOutcome)
    } else if guard_enabled {
        (
            if reply_passes {
                output
            } else {
                unverified
            },
            SuccessValidation::ByReply { passed: reply_passes },
        )
    } else {
        (output, SuccessValidation::Unclaimed)
    }
}

pub fn postprocess_tool_turn(
    output: RespondOutput,
    outcome: &AgentTurnOutcome,
    guard_enabled: bool,
    reply_passes: bool,
    unverified: RespondOutput,
) -> (r: ToolTurnPostprocess)
    ensures
        (r.output.shown(), r.validation) == turn_result(
            output.shown(),
            *outcome,
            guard_enabled,
            reply_passes,
            unverified.shown(),
        ),
{
    let mut output = output;
    let validation = if outcome.can_replace_model_reply {
        if outcome.should_preserve_model_reply {
            apply_agent_turn_outcome_with_model_reply(&mut output, &outcome.body);
        } else {
            apply_agent_turn_outcome(&mut output, &outcome.body);
        }
        SuccessValidation::ByOutcome
    } else if outcome.has_unhandled_outcome && outcome.has_outcomes {
        apply_agent_turn_outcome(&mut output, &outcome.compat_body);
        SuccessValidation::ByOutcome
    } else if guard_enabled {
        if !reply_passes {
            output = unverified;
        }
        SuccessValidation::ByReply { passed: reply_passes }
    } else {
        SuccessValidation::Unclaimed
    };
    ToolTurnPostprocess { output, validation }
}

/// With the guard on, a reply that does not pass is sent only where an outcome stands behind
/// it.
pub proof fn unproved_success_is_not_sent(
    output: OutputView,
    outcome: AgentTurnOutcome,
    unverified: OutputView,
)
    ensures
        ({
            let (sent, validation) = turn_result(output, outcome, true, false, unverified);
            validation == SuccessValidation::ByOutcome || sent == unverified
        }),
{
}

/// Whether the interaction has a session of its own.
pub fn has_own_interaction(interaction_scope: &str, conversation_scope: &str) -> (r: bool)
    ensures
        r == (interaction_scope@ != conversation_scope@),
{
    !text::same(interaction_scope, conversation_scope)
}

// What is reported of a turn.

/// The code that a turn is reported under. What a guard found goes before the rest.
pub open spec fn turn_error(
    guard_code: Option<Seq<char>>,
    outcome: Option<(AgentTurnStatus, bool)>,
) -> Option<Seq<char>> {
    match guard_code {
        Some(code) => Some(code),
        None => match outcome {
            None => None,
            Some((status, has_unhandled)) => if has_unhandled {
                Some("tool_outcome_unhandled"@)
            } else {
                match status {
                    AgentTurnStatus::Succeeded | AgentTurnStatus::PendingConfirmation => None,
                    AgentTurnStatus::PartialSuccess => Some("agent_turn_partial_success"@),
                    AgentTurnStatus::RequiresClarification | AgentTurnStatus::Failed => Some(
                        "agent_turn_failed"@,
                    ),
                }
            },
        },
    }
}

/// What the first domain to find fault with a turn reports.
pub open spec fn first_code(codes: Seq<Option<String>>) -> Option<Seq<char>>
    decreases codes.len(),
{
    if codes.len() == 0 {
        None
    } else {
        match codes[0] {
            Some(code) => Some(code@),
            None => first_code(codes.skip(1)),
        }
    }
}

pub fn guard_error_code(codes: &Vec<Option<String>>) -> (r: Option<String>)
    ensures
        text::opt_view(r) == first_code(codes@),
{
    let mut i: usize = 0;
    assert(codes@.skip(0) =~= codes@);
    while i < codes.len()
        invariant
            0 <= i <= codes@.len(),
            first_code(codes@.skip(i as int)) == first_code(codes@),
        decreases codes@.len() - i,
    {
        assert(codes@.skip(i as int)[0] == codes@[i as int]);
        assert(codes@.skip(i as int).skip(1) =~= codes@.skip(i + 1));
        if let Some(code) = &codes[i] {
            return Some(code.clone());
        }
        i += 1;
    }
    None
}

pub open spec fn status_view(o: Option<&AgentTurnOutcome>) -> Option<(AgentTurnStatus, bool)> {
    match o {
        Some(outcome) => Some((outcome.status, outcome.has_unhandled_outcome)),
        None => None,
    }
}

pub fn tool_turn_error_code(outcome: Option<&AgentTurnOutcome>, guard_code: Option<String>) -> (r: Option<String>)
    ensures
        text::opt_view(r) == turn_error(text::opt_view(guard_code), status_view(outcome)),
{
    match guard_code {
        Some(code) => {
            return Some(code);
        },
        None => {},
    }
    match outcome {
        None => None,
        Some(o) => {
            if o.has_unhandled_outcome {
                return Some("tool_outcome_unhandled".to_owned());
            }
            match o.status {
                AgentTurnStatus::Succeeded | AgentTurnStatus::PendingConfirmation => None,
                AgentTurnStatus::PartialSuccess => Some("agent_turn_partial_success".to_owned()),
                AgentTurnStatus::RequiresClarification | AgentTurnStatus::Failed => Some(
                    "agent_turn_failed".to_owned(),
                ),
            }
        },
    }
}

pub open spec fn no_turn_shape() -> Shape {
    Shape::Object(seq![("agent_turn_status"@, Shape::Null), ("tool_outcomes"@, Shape::List(Seq::empty()))])
}

/// The diagnostics of a turn, or those of a turn without tools.
pub fn agent_turn_diagnostics(diagnostics: Option<Json>) -> (r: Json)
    ensures
        match diagnostics {
            Some(v) => r == v,
            None => r.shape() == no_turn_shape(),
        },
{
    match diagnostics {
        Some(v) => v,
        None => {
            let mut o: Vec<(String, Json)> = Vec::new();
            let outcomes: Vec<Json> = Vec::new();
            json::put(&mut o, "agent_turn_status", Json::Null);
            json::put(&mut o, "tool_outcomes", Json::List(outcomes));
            assert(json::entry_shapes(o@) =~= no_turn_shape()->Object_0);
            Json::Object(o)
        },
    }
}

} // verus!
