//! What users get of the tools that a turn called: whose outcome is sent and where, what the
//! cards show, and which arguments a search takes.
use vstd::prelude::*;
use vstd::string::*;

use crate::error::ToolError;
use crate::json::Json;
use crate::text;
use crate::text_laws::{lemma_sub_behind, lemma_sub_between, lemma_sub_of_row, lemma_sub_whole};
use crate::tools::outcome;
use crate::tools::outcome::{
    OutcomePresentation, OutcomeView, ToolExecutionOutcome, ToolExecutionResult, ToolOutcomeStatus,
};
use crate::tools::presenters;
use crate::tools::rss_cards;
use crate::tools::search;
use crate::tools::train;
use crate::tools::turn;
use crate::tools::turn::{AgentTurnOutcome, AgentTurnStatus, OutputView};
use crate::tools::weather;

verus! {

// The reply.

/// An outcome that can replace the model's reply does: its Markdown is sent, or its text where
/// it has none, and the model's words do not show.
pub proof fn outcomes_replace_replies(
    output: OutputView,
    outcome: AgentTurnOutcome,
    guard_enabled: bool,
    reply_passes: bool,
    unverified: OutputView,
)
    requires
        outcome.can_replace_model_reply,
        !outcome.should_preserve_model_reply,
    ensures
        ({
            let sent = turn::turn_result(output, outcome, guard_enabled, reply_passes, unverified).0;
            &&& sent.1 == outcome.body.text@
            &&& outcome.body.markdown matches Some(m) ==> sent.0 == m@ && sent.2 == Some(m@)
            &&& outcome.body.markdown is None ==> sent.0 == outcome.body.text@ && sent.2 is None
            &&& sent.3 == Some(sent.0)
        }),
{
}

/// A reply that is kept beside an outcome stands behind it, whole.
pub proof fn kept_replies_stand_behind(
    output: OutputView,
    outcome: AgentTurnOutcome,
    guard_enabled: bool,
    reply_passes: bool,
    unverified: OutputView,
)
    requires
        outcome.can_replace_model_reply,
        outcome.should_preserve_model_reply,
        text::trimmed(output.0).len() > 0,
        text::trimmed(outcome.body.text@).len() > 0,
    ensures
        ({
            let sent = turn::turn_result(output, outcome, guard_enabled, reply_passes, unverified).0;
            let said = text::trimmed(output.0);
            &&& text::starts_with(sent.1, text::trimmed(outcome.body.text@))
            &&& text::ends_with(sent.1, said)
            &&& sent.1.len() == text::trimmed(outcome.body.text@).len() + 2 + said.len()
            &&& text::ends_with(sent.0, said)
        }),
{
    reveal_strlit("\n\n");
    let said = text::trimmed(output.0);
    let shown = text::trimmed(outcome.body.text@);
    text::lemma_trimmed_is_clean(outcome.body.text@);
    let s = shown + "\n\n"@ + said;
    assert(s.subrange(0, shown.len() as int) =~= shown);
    assert(s.subrange(s.len() - said.len(), s.len() as int) =~= said);
    if outcome.body.markdown is Some && !text::blank(outcome.body.markdown->0@) {
        let m = text::trimmed(outcome.body.markdown->0@) + "\n\n"@ + said;
        assert(m.subrange(m.len() - said.len(), m.len() as int) =~= said);
    }
}

/// Without an outcome to send, a reply goes out as it is, unless it is guarded and does not
/// pass; then only the given words do.
pub proof fn replies_pass_or_are_replaced(
    output: OutputView,
    outcome: AgentTurnOutcome,
    reply_passes: bool,
    unverified: OutputView,
)
    requires
        !outcome.can_replace_model_reply,
        !outcome.has_outcomes,
    ensures
        turn::turn_result(output, outcome, true, true, unverified).0 == output,
        turn::turn_result(output, outcome, true, false, unverified).0 == unverified,
        turn::turn_result(output, outcome, false, reply_passes, unverified).0 == output,
{
}

/// A turn is reported without a code exactly if nothing is wrong with it: no guard found
/// fault, every outcome was handled, and it succeeded or waits for a confirmation.
pub proof fn faultless_turns_have_no_code(
    guard_code: Option<Seq<char>>,
    status: AgentTurnStatus,
    has_unhandled: bool,
)
    ensures
        turn::turn_error(guard_code, Some((status, has_unhandled))) is None <==> guard_code is None
            && !has_unhandled && (status == AgentTurnStatus::Succeeded || status
            == AgentTurnStatus::PendingConfirmation),
        guard_code is Some ==> turn::turn_error(guard_code, Some((status, has_unhandled))) == guard_code,
        turn::turn_error(guard_code, None) == guard_code,
{
}

/// The first fault that is found is the one that is reported.
pub proof fn the_first_fault_is_reported(codes: Seq<Option<String>>, k: int)
    requires
        0 <= k < codes.len(),
        codes[k] is Some,
        forall|i: int| 0 <= i < k ==> (#[trigger] codes[i]) is None,
    ensures
        turn::first_code(codes) == Some(codes[k]->0@),
    decreases k,
{
    if k > 0 {
        let rest = codes.skip(1);
        assert(codes[0] is None);
        assert(rest[k - 1] == codes[k]);
        assert forall|i: int| 0 <= i < k - 1 implies (#[trigger] rest[i]) is None by {
            assert(rest[i] == codes[i + 1]);
        }
        the_first_fault_is_reported(rest, k - 1);
    }
}

/// Where the tasks took over nothing, every result has its own outcome, in the order of the
/// results, and those of the tasks follow.
pub proof fn own_outcomes_stand_in_order(
    own: Seq<ToolExecutionOutcome>,
    todo: Seq<(usize, ToolExecutionOutcome)>,
    index: int,
)
    ensures
        ({
            let all = turn::merged(own, Seq::empty(), todo, index);
            &&& all.len() == own.len() + todo.len()
            &&& forall|i: int| 0 <= i < own.len() ==> #[trigger] all[i] == own[i]
            &&& forall|i: int| 0 <= i < todo.len() ==> #[trigger] all[own.len() + i] == todo[i].1
        }),
    decreases own.len(),
{
    if own.len() > 0 {
        let rest = turn::merged(own.skip(1), Seq::empty(), todo, index + 1);
        own_outcomes_stand_in_order(own.skip(1), todo, index + 1);
        let all = turn::merged(own, Seq::empty(), todo, index);
        assert(all == seq![own[0]] + rest);
        assert forall|i: int| 0 <= i < own.len() implies #[trigger] all[i] == own[i] by {
            if i > 0 {
                assert(all[i] == rest[i - 1]);
                assert(own.skip(1)[i - 1] == own[i]);
            }
        }
        assert forall|i: int| 0 <= i < todo.len() implies #[trigger] all[own.len() + i] == todo[i].1 by {
            assert(all[own.len() + i] == rest[own.skip(1).len() + i]);
        }
    }
}

/// A result that the tasks took over is shown by the tasks' outcomes alone, at its place.
pub proof fn taken_results_are_shown_by_the_tasks(
    own: Seq<ToolExecutionOutcome>,
    taken: Seq<usize>,
    todo: Seq<(usize, ToolExecutionOutcome)>,
    index: int,
    n: int,
)
    requires
        own.len() > 0,
        exists|k: int| 0 <= k < taken.len() && #[trigger] taken[k] == index,
        0 <= n <= todo.len(),
        forall|i: int| 0 <= i < n ==> (#[trigger] todo[i]).0 == index,
        n < todo.len() ==> todo[n].0 != index,
    ensures
        ({
            let all = turn::merged(own, taken, todo, index);
            &&& all.len() >= n
            &&& forall|i: int| 0 <= i < n ==> #[trigger] all[i] == todo[i].1
            &&& all.skip(n) == turn::merged(own.skip(1), taken, todo.skip(n), index + 1)
        }),
{
    lemma_leading(todo, index, n);
    let all = turn::merged(own, taken, todo, index);
    let rest = turn::merged(own.skip(1), taken, todo.skip(n), index + 1);
    let first = turn::outcomes_in(todo.take(n));
    assert(all == first + rest);
    assert(all.skip(n) =~= rest);
    assert forall|i: int| 0 <= i < n implies #[trigger] all[i] == todo[i].1 by {
        assert(all[i] == first[i]);
        assert(todo.take(n)[i] == todo[i]);
    }
}

proof fn lemma_leading(todo: Seq<(usize, ToolExecutionOutcome)>, index: int, n: int)
    requires
        0 <= n <= todo.len(),
        forall|i: int| 0 <= i < n ==> (#[trigger] todo[i]).0 == index,
        n < todo.len() ==> todo[n].0 != index,
    ensures
        turn::leading(todo, index) == n,
    decreases n,
{
    if n > 0 {
        let rest = todo.skip(1);
        assert(todo[0].0 == index);
        assert forall|i: int| 0 <= i < n - 1 implies (#[trigger] rest[i]).0 == index by {
            assert(rest[i] == todo[i + 1]);
        }
        if n < todo.len() {
            assert(rest[n - 1] == todo[n]);
        }
        lemma_leading(rest, index, n - 1);
    }
}

/// A result is shown by the tool that it is of, with its status; one of no known tool is shown
/// in the general way.
pub proof fn results_are_shown_by_their_tool(
    result: ToolExecutionResult,
    status: ToolOutcomeStatus,
    texts: turn::ResultTexts,
    general: OutcomeView,
)
    ensures
        ({
            let o = turn::outcome_of(result, status, texts, general);
            &&& result.name@ == "get_weather"@ ==> o.domain == "weather"@ && o.status == status
            &&& result.name@ == "get_train_schedule"@ ==> o.domain == "train"@ && o.status == status
            &&& result.name@ == "get_rss_recent_items"@ ==> o.domain == "rss"@ && o.status == status
            &&& result.name@ == "manage_rss_subscriptions"@ ==> o.domain == "rss"@ && o.status == status
            &&& result.name@ == "web_search"@ ==> o.domain == "search"@ && o.status == status
            &&& result.name@ == "save_memory"@ ==> o.domain == "memory"@ && o.status == status
            &&& result.name@ == "knowledge_search"@ ==> o.domain == "knowledge"@
            &&& result.name@.len() == 0 ==> o == general
        }),
{
    reveal_strlit("get_weather");
    reveal_strlit("get_train_schedule");
    reveal_strlit("get_rss_recent_items");
    reveal_strlit("manage_rss_subscriptions");
    reveal_strlit("web_search");
    reveal_strlit("save_memory");
    reveal_strlit("knowledge_search");
    assert("get_weather"@.len() == 11 && "get_weather"@[0] == 'g' && "save_memory"@.len() == 11
        && "save_memory"@[0] == 's');
    assert("get_train_schedule"@.len() == 18 && "get_rss_recent_items"@.len() == 20);
    assert("manage_rss_subscriptions"@.len() == 24 && "web_search"@.len() == 10);
    assert("knowledge_search"@.len() == 16);
    assert("get_weather"@ != "save_memory"@);
}

// Weather.

/// A weather card shows the place, the weather and the temperature now, and the air where it
/// is known.
#[verifier::rlimit(60)]
pub proof fn weather_cards_show_the_weather(output: Json, texts: weather::WeatherTexts)
    ensures
        ({
            let m = text::joined(weather::card_lines(output, texts), "\n"@);
            let current = outcome::part(output, "current"@);
            &&& outcome::field(outcome::part(output, "location"@), "name"@) matches Some(name)
                ==> text::has_sub(m, name)
            &&& weather::condition_at(current, texts.conditions) matches Some(c) ==> text::has_sub(m, c)
            &&& weather::number_at(current, "temperature_c"@, texts.numbers) matches Some(t)
                ==> text::has_sub(m, t + "°C"@)
            &&& outcome::field(weather::air_summary(output), "aqi_display"@) matches Some(aqi)
                ==> text::has_sub(m, "AQI "@ + aqi)
        }),
{
    let rows = weather::card_lines(output, texts);
    let current = outcome::part(output, "current"@);
    let name = weather::place_name(output);
    let a = weather::row(weather::place_detail(output));
    let d = weather::row(weather::details(current, texts));
    assert(rows[0] == "🌦 "@ + name + "天气"@);
    lemma_sub_between("🌦 "@, name, "天气"@);
    lemma_sub_of_row(rows, 0, name);
    let now = weather::now_line(output, texts);
    let k = (1 + a.len() + 1) as int;
    assert(rows[k] == now);
    let time = match outcome::field(current, "time"@) {
        Some(t) => weather::time_of_day(texts.times.label(t)),
        None => "--:--"@,
    };
    let condition = match weather::condition_at(current, texts.conditions) {
        Some(s) => s,
        None => "未知"@,
    };
    let warmth = match weather::number_at(current, "temperature_c"@, texts.numbers) {
        Some(n) => n,
        None => "--"@,
    };
    lemma_now("当前 "@, time, "｜"@, condition, warmth, "°C"@);
    lemma_sub_of_row(rows, k, condition);
    lemma_sub_of_row(rows, k, warmth + "°C"@);
    if weather::air(output) is Some {
        let summary = weather::air_summary(output);
        let aqi = outcome::field(summary, "aqi_display"@)->0;
        let b = match outcome::field(summary, "category"@) {
            Some(c) => "（"@ + c + "）"@,
            None => ""@,
        };
        let c = match outcome::field(summary, "primary_pollutant"@) {
            Some(p) => " · 首要污染物 "@ + p,
            None => ""@,
        };
        let line = weather::air(output)->0;
        assert("空气质量：AQI "@ =~= "空气质量："@ + "AQI "@) by {
            reveal_strlit("空气质量：AQI ");
            reveal_strlit("空气质量：");
            reveal_strlit("AQI ");
        }
        assert(line =~= "空气质量："@ + ("AQI "@ + aqi) + (b + c));
        lemma_sub_between("空气质量："@, "AQI "@ + aqi, b + c);
        let j = (k + 1 + d.len()) as int;
        assert(rows[j] == line);
        lemma_sub_of_row(rows, j, "AQI "@ + aqi);
    }
}

#[verifier::rlimit(60)]
proof fn lemma_now(
    lead: Seq<char>,
    time: Seq<char>,
    bar: Seq<char>,
    condition: Seq<char>,
    warmth: Seq<char>,
    unit: Seq<char>,
)
    ensures
        text::has_sub(lead + time + bar + condition + bar + warmth + unit, condition),
        text::has_sub(lead + time + bar + condition + bar + warmth + unit, warmth + unit),
{
    let s = lead + time + bar + condition + bar + warmth + unit;
    assert(s =~= (lead + time + bar) + condition + (bar + warmth + unit));
    lemma_sub_between(lead + time + bar, condition, bar + warmth + unit);
    assert(s =~= (lead + time + bar + condition + bar) + (warmth + unit));
    lemma_sub_behind(lead + time + bar + condition + bar, warmth + unit);
}

/// The forecast has a line for each of the first three days that has a date, and that line
/// shows the date, the weather and the temperatures of the day.
pub proof fn days_are_forecast(output: Json, texts: weather::WeatherTexts, k: int)
    requires
        0 <= k < 3,
        k < outcome::elements(output, "daily"@).len(),
    ensures
        ({
            let day = outcome::elements(output, "daily"@)[k];
            outcome::field(day, "date"@) matches Some(date) ==> exists|i: int|
                0 <= i < weather::forecast_days(output, texts).len() && shows_day(
                    #[trigger] weather::forecast_days(output, texts)[i],
                    day,
                    date,
                    texts,
                )
        }),
{
    let all = outcome::elements(output, "daily"@);
    let days = weather::first_days(all);
    assert(days[k] == all[k]);
    if outcome::field(all[k], "date"@) is Some {
        lemma_day_line(days, texts, k);
        let lines = weather::day_lines(days, texts);
        let i = choose|i: int| 0 <= i < lines.len() && lines[i] == weather::day_line(days[k], texts)->0;
        lemma_day_shown(days[k], outcome::field(days[k], "date"@)->0, texts);
        assert(shows_day(
            weather::forecast_days(output, texts)[i],
            all[k],
            outcome::field(all[k], "date"@)->0,
            texts,
        ));
    }
}

pub open spec fn shows_day(line: Seq<char>, day: Json, date: Seq<char>, texts: weather::WeatherTexts) -> bool {
    &&& text::starts_with(line, texts.days.label(date))
    &&& outcome::field(day, "weather_day"@) matches Some(w) ==> text::has_sub(line, w)
    &&& weather::number_at(day, "temperature_max_c"@, texts.numbers) matches Some(t) ==> text::has_sub(
        line,
        t + "°C"@,
    )
    &&& weather::number_at(day, "temperature_min_c"@, texts.numbers) matches Some(t) ==> text::has_sub(line, t)
    &&& day.whole_at("precipitation_probability_max"@) matches Some(n) ==> text::has_sub(
        line,
        text::decimal(n as nat) + "%"@,
    )
}

proof fn lemma_sub_of_part(parts: Seq<Seq<char>>, sep: Seq<char>, i: int, p: Seq<char>)
    requires
        0 <= i < parts.len(),
        text::has_sub(parts[i], p),
    ensures
        text::has_sub(text::joined(parts, sep), p),
    decreases parts.len(),
{
    let s = text::joined(parts, sep);
    if parts.len() > 1 {
        let front = parts.drop_last();
        let a = text::joined(front, sep);
        if i < front.len() {
            lemma_sub_of_part(front, sep, i, p);
            let k = choose|k: int| text::occurs_at(a, p, k);
            assert(s.subrange(k, k + p.len()) =~= a.subrange(k, k + p.len()));
            assert(text::occurs_at(s, p, k));
        } else {
            let k = choose|k: int| text::occurs_at(parts[i], p, k);
            let m = (a.len() + sep.len()) as int;
            assert(s.subrange(m + k, m + k + p.len()) =~= parts[i].subrange(k, k + p.len()));
            assert(text::occurs_at(s, p, m + k));
        }
    }
}

proof fn lemma_starts_with_first(parts: Seq<Seq<char>>, sep: Seq<char>)
    requires
        parts.len() > 0,
    ensures
        text::starts_with(text::joined(parts, sep), parts[0]),
    decreases parts.len(),
{
    let s = text::joined(parts, sep);
    if parts.len() > 1 {
        let front = parts.drop_last();
        lemma_starts_with_first(front, sep);
        let a = text::joined(front, sep);
        assert(s.subrange(0, parts[0].len() as int) =~= a.subrange(0, parts[0].len() as int));
    } else {
        assert(s.subrange(0, parts[0].len() as int) =~= parts[0]);
    }
}

proof fn lemma_temperature(day: Json, texts: weather::WeatherTexts)
    ensures
        ({
            let shown = weather::day_temperature(day, texts);
            &&& weather::number_at(day, "temperature_max_c"@, texts.numbers) matches Some(t)
                ==> text::has_sub(shown, t + "°C"@)
            &&& weather::number_at(day, "temperature_min_c"@, texts.numbers) matches Some(t)
                ==> text::has_sub(shown, t)
        }),
{
    let min = weather::number_at(day, "temperature_min_c"@, texts.numbers);
    let max = weather::number_at(day, "temperature_max_c"@, texts.numbers);
    match (min, max) {
        (Some(low), Some(high)) => {
            lemma_range(low, "～"@, high, "°C"@);
        },
        (None, Some(high)) => {
            lemma_sub_of_end("最高 "@, high, "°C"@);
        },
        (Some(low), None) => {
            lemma_sub_between("最低 "@, low, "°C"@);
        },
        (None, None) => {},
    }
}

proof fn lemma_range(a: Seq<char>, b: Seq<char>, c: Seq<char>, d: Seq<char>)
    ensures
        text::has_sub(a + b + c + d, a),
        text::has_sub(a + b + c + d, c + d),
{
    let none = Seq::<char>::empty();
    assert(a + b + c + d =~= none + a + (b + c + d));
    lemma_sub_between(none, a, b + c + d);
    assert(a + b + c + d =~= (a + b) + (c + d));
    lemma_sub_behind(a + b, c + d);
}

proof fn lemma_sub_of_end(a: Seq<char>, b: Seq<char>, c: Seq<char>)
    ensures
        text::has_sub(a + b + c, b + c),
{
    assert(a + b + c =~= a + (b + c));
    lemma_sub_behind(a, b + c);
}

proof fn lemma_day_shown(day: Json, date: Seq<char>, texts: weather::WeatherTexts)
    requires
        outcome::field(day, "date"@) == Some(date),
    ensures
        shows_day(weather::day_line(day, texts)->0, day, date, texts),
{
    let parts = weather::day_parts(day, date, texts);
    let sep = "，"@;
    assert(parts[0] == texts.days.label(date));
    assert(parts[1] == weather::day_weather(day, texts));
    assert(parts[2] == weather::day_temperature(day, texts));
    lemma_starts_with_first(parts, sep);
    lemma_sub_whole(parts[1]);
    lemma_sub_of_part(parts, sep, 1, parts[1]);
    lemma_temperature(day, texts);
    let min = weather::number_at(day, "temperature_min_c"@, texts.numbers);
    let max = weather::number_at(day, "temperature_max_c"@, texts.numbers);
    if max is Some {
        lemma_sub_of_part(parts, sep, 2, max->0 + "°C"@);
    }
    if min is Some {
        lemma_sub_of_part(parts, sep, 2, min->0);
    }
    if day.whole_at("precipitation_probability_max"@) is Some {
        let n = text::decimal(day.whole_at("precipitation_probability_max"@)->0 as nat);
        assert(parts[3] == "降水概率 "@ + n + "%"@);
        lemma_sub_of_end("降水概率 "@, n, "%"@);
        lemma_sub_of_part(parts, sep, 3, n + "%"@);
    }
}

proof fn lemma_day_line(days: Seq<Json>, texts: weather::WeatherTexts, k: int)
    requires
        0 <= k < days.len(),
        weather::day_line(days[k], texts) is Some,
    ensures
        exists|i: int|
            0 <= i < weather::day_lines(days, texts).len() && #[trigger] weather::day_lines(days, texts)[i]
                == weather::day_line(days[k], texts)->0,
    decreases days.len(),
{
    let front = days.drop_last();
    let before = weather::day_lines(front, texts);
    let all = weather::day_lines(days, texts);
    if k < front.len() {
        assert(front[k] == days[k]);
        lemma_day_line(front, texts, k);
        let i = choose|i: int| 0 <= i < before.len() && #[trigger] before[i] == weather::day_line(days[k], texts)->0;
        assert(all[i] == before[i]);
    } else {
        assert(days.last() == days[k]);
        assert(all[before.len() as int] == weather::day_line(days[k], texts)->0);
    }
}

// Trains.

/// A schedule has the stops of the output that have a number and a name, none left out, in
/// their order.
pub proof fn schedules_have_every_stop(
    schedule: train::TrainSchedule,
    output: Json,
    day: Option<(i32, u32, u32)>,
    k: int,
)
    requires
        train::is_schedule(schedule, output, day),
        0 <= k < outcome::elements(output, "stops"@).len(),
        outcome::elements(output, "stops"@)[k].whole_at("station_no"@) matches Some(n) && n <= u32::MAX,
        outcome::field(outcome::elements(output, "stops"@)[k], "station_name"@) is Some,
    ensures
        ({
            let v = outcome::elements(output, "stops"@)[k];
            exists|i: int|
                0 <= i < schedule.stops@.len() && (#[trigger] schedule.stops@[i]).station_no as u64
                    == v.whole_at("station_no"@)->0 && schedule.stops@[i].station_name@ == outcome::field(
                    v,
                    "station_name"@,
                )->0 && text::opt_view(schedule.stops@[i].arrive_time) == outcome::field(v, "arrive_time"@)
                    && text::opt_view(schedule.stops@[i].departure_time) == outcome::field(
                    v,
                    "departure_time"@,
                )
        }),
        Some(schedule.train_code@) == outcome::field(output, "train_code"@),
        Some(schedule.start_station@) == outcome::field(output, "start_station"@),
        Some(schedule.end_station@) == outcome::field(output, "end_station"@),
        Some(schedule.travel_date) == day,
{
    let all = outcome::elements(output, "stops"@);
    let kept = train::stop_values(all);
    lemma_kept(all, k);
    let i = choose|i: int| 0 <= i < kept.len() && kept[i] == all[k];
    assert(train::is_stop(schedule.stops@[i], kept[i]));
}

proof fn lemma_kept(all: Seq<Json>, k: int)
    requires
        0 <= k < all.len(),
        train::names_stop(all[k]),
    ensures
        train::stop_values(all).contains(all[k]),
    decreases all.len(),
{
    reveal(Seq::filter);
    let front = all.drop_last();
    let before = train::stop_values(front);
    let kept = train::stop_values(all);
    if k < front.len() {
        assert(front[k] == all[k]);
        lemma_kept(front, k);
        let i = choose|i: int| 0 <= i < before.len() && before[i] == all[k];
        assert(kept[i] == all[k]);
    } else {
        assert(all.last() == all[k]);
        assert(kept[before.len() as int] == all[k]);
    }
}

/// A failed or skipped call is never shown as a fact, and a call that worked is, each by the
/// tool that it was made to.
pub proof fn only_success_is_a_fact(
    output: Json,
    status: ToolOutcomeStatus,
    texts: weather::WeatherTexts,
    replies: train::TrainReplies,
    answers: presenters::WebSearchReplies,
)
    ensures
        weather::weather_block(output, status, texts) is FactCard <==> status == ToolOutcomeStatus::Succeeded,
        presenters::web_search_block(output, status, answers) is FactCard <==> status
            == ToolOutcomeStatus::Succeeded,
        train::train_block(output, status, replies) is FactCard <==> status == ToolOutcomeStatus::Succeeded
            && replies.schedule is Some,
        status == ToolOutcomeStatus::RequiresClarification ==> weather::weather_block(output, status, texts)
            is Clarification && train::train_block(output, status, replies) is Clarification
            && presenters::web_search_block(output, status, answers) is Clarification,
        status == ToolOutcomeStatus::Failed ==> weather::weather_block(output, status, texts) is Error
            && train::train_block(output, status, replies) is Error && presenters::web_search_block(
            output,
            status,
            answers,
        ) is Error,
        status == ToolOutcomeStatus::Skipped ==> weather::weather_block(output, status, texts) is Warning
            && train::train_block(output, status, replies) is Warning && presenters::web_search_block(
            output,
            status,
            answers,
        ) is Warning,
{
}

/// Evidence is left to the model to answer from; a search without any is answered in its place.
pub proof fn evidence_is_left_to_the_model(result: ToolExecutionResult)
    requires
        result.name@ == "knowledge_search"@,
    ensures
        ({
            let status = outcome::field(result.output, "status"@);
            let found = result.succeeded && (status == Some("ok"@) || status == Some("truncated"@));
            &&& presenters::knowledge_outcome(result) matches Some(o)
            &&& found ==> o.blocks.len() == 0 && o.presentation == OutcomePresentation::Internal && o.status
                == ToolOutcomeStatus::Succeeded && o.error_code is None
            &&& !found ==> o.blocks.len() == 1 && o.presentation == OutcomePresentation::Trusted && o.status
                == ToolOutcomeStatus::Failed && o.error_code is Some
        }),
{
}

/// A skipped call says what it was and why.
pub proof fn skipped_calls_say_why(what: Seq<char>, output: Json)
    ensures
        text::starts_with(outcome::skip_text(what, output), what),
        outcome::field(output, "reason"@) matches Some(reason) ==> (reason
            != "dependency_previous_call_failed"@ ==> text::has_sub(outcome::skip_text(what, output), reason)),
{
    let s = outcome::skip_text(what, output);
    assert(s.subrange(0, what.len() as int) =~= what);
    if outcome::field(output, "reason"@) is Some {
        let reason = outcome::field(output, "reason"@)->0;
        if reason != "dependency_previous_call_failed"@ {
            lemma_sub_between(what + "已跳过："@, reason, "。"@);
        }
    }
}

/// A code is taken from the output itself, or from its error.
pub proof fn codes_are_found(output: Json, s: String)
    ensures
        output.entry("error_code"@) == Some(Json::Text(s)) ==> outcome::error_code(output) == Some(s@),
        output.entry("error_code"@) is None ==> (output.entry("error"@) matches Some(e) ==> (e.entry("code"@)
            == Some(Json::Text(s)) ==> outcome::error_code(output) == Some(s@))),
{
}

// Searches.

/// A search on the net asks for the trimmed query, for as many results as were named, and with
/// a model of its own choice only where no model made the call.
pub proof fn searches_ask_as_told(
    r: Result<search::WebSearchToolRequest, ToolError>,
    from_model: bool,
    arguments: Json,
    query: String,
    n: u64,
)
    requires
        search::is_request(r, from_model, arguments),
        arguments.entry("query"@) == Some(Json::Text(query)),
        0 < text::trimmed(query@).len() <= 200,
        arguments.entry("context_size"@) is None,
    ensures
        arguments.entry("max_results"@) is None ==> {
            &&& r matches Ok(q)
            &&& q.query@ == text::trimmed(query@)
            &&& q.max_results is None
            &&& from_model ==> q.model_override is None
        },
        arguments.entry("max_results"@) == Some(Json::Whole(n)) && 1 <= n <= 10 ==> {
            &&& r matches Ok(q)
            &&& q.query@ == text::trimmed(query@)
            &&& q.max_results == Some(n as u8)
        },
        arguments.entry("max_results"@) == Some(Json::Whole(n)) && !(1 <= n <= 10) ==> r is Err,
{
    text::lemma_trimmed_is_clean(query@);
}

/// A search without a query, or with one that is too long, is refused.
pub proof fn searches_need_a_query(arguments: Json, query: String)
    ensures
        arguments.entry("query"@) is None ==> search::query_in(arguments) is Err,
        arguments.entry("query"@) == Some(Json::Text(query)) && (text::trimmed(query@).len() == 0
            || text::trimmed(query@).len() > 200) ==> search::query_in(arguments) is Err,
{
    text::lemma_trimmed_is_clean(query@);
}

// Items of feeds.

/// A card of items shows title, feed and link of each of the first ten.
pub proof fn item_cards_show_their_items(
    query: Option<Seq<char>>,
    items: Seq<Json>,
    texts: rss_cards::RssCardTexts,
    k: int,
)
    requires
        0 <= k < items.len(),
        k < 10,
    ensures
        ({
            let m = rss_cards::items_card(query, items, texts).0;
            let entry = outcome::part(items[k], "item"@);
            let feed = outcome::part(items[k], "subscription"@);
            &&& outcome::field(entry, "title"@) matches Some(t) ==> text::has_sub(m, t)
            &&& outcome::field(feed, "title"@) matches Some(t) ==> text::has_sub(m, t)
            &&& outcome::field(entry, "link"@) matches Some(l) ==> text::has_sub(m, l)
            &&& outcome::field(entry, "summary"@) matches Some(s) ==> (s.len() <= 260 ==> text::has_sub(m, s))
        }),
{
    let first = rss_cards::first_items(items);
    assert(first[k] == items[k]);
    let head = seq![rss_cards::card_title(query), ""@];
    let lines = rss_cards::all_lines(first, texts);
    let end = seq!["以上为本地已轮询入库记录，不代表刚刚刷新远端 RSS。"@];
    let rows = head + lines + end;
    let item = items[k];
    let entry = outcome::part(item, "item"@);
    let own = rss_cards::item_lines(item, texts);
    let title = rss_cards::item_title(item);
    let feed = rss_cards::feed_title(item);
    lemma_sub_behind("【"@ + feed + "】"@, title);
    assert("【"@ + feed + "】"@ + title =~= "【"@ + feed + ("】"@ + title));
    lemma_sub_between("【"@, feed, "】"@ + title);
    assert(own[0] == "【"@ + feed + "】"@ + title);
    lemma_item_line(head, first, end, texts, k, 0, title);
    lemma_item_line(head, first, end, texts, k, 0, feed);
    let a = rss_cards::row(rss_cards::item_summary(item, texts));
    let b = rss_cards::row(rss_cards::item_time(item, texts));
    if outcome::field(entry, "summary"@) is Some && outcome::field(entry, "summary"@)->0.len() <= 260 {
        let s = outcome::field(entry, "summary"@)->0;
        assert(own[1] == s);
        lemma_sub_whole(s);
        lemma_item_line(head, first, end, texts, k, 1, s);
    }
    if outcome::field(entry, "link"@) is Some {
        let l = outcome::field(entry, "link"@)->0;
        lemma_sub_behind("链接："@, l);
        let j = (1 + a.len() + b.len()) as int;
        assert(own[j] == "链接："@ + l);
        lemma_item_line(head, first, end, texts, k, j, l);
    }
}

proof fn lemma_item_line(
    head: Seq<Seq<char>>,
    items: Seq<Json>,
    end: Seq<Seq<char>>,
    texts: rss_cards::RssCardTexts,
    k: int,
    j: int,
    p: Seq<char>,
)
    requires
        0 <= k < items.len(),
        0 <= j < rss_cards::item_lines(items[k], texts).len(),
        text::has_sub(rss_cards::item_lines(items[k], texts)[j], p),
    ensures
        text::has_sub(text::joined(head + rss_cards::all_lines(items, texts) + end, "\n"@), p),
{
    let i = lemma_item_place(items, texts, k, j);
    let rows = head + rss_cards::all_lines(items, texts) + end;
    assert(rows[head.len() + i] == rss_cards::item_lines(items[k], texts)[j]);
    lemma_sub_of_row(rows, head.len() + i, p);
}

proof fn lemma_item_place(items: Seq<Json>, texts: rss_cards::RssCardTexts, k: int, j: int) -> (i: int)
    requires
        0 <= k < items.len(),
        0 <= j < rss_cards::item_lines(items[k], texts).len(),
    ensures
        0 <= i < rss_cards::all_lines(items, texts).len(),
        rss_cards::all_lines(items, texts)[i] == rss_cards::item_lines(items[k], texts)[j],
    decreases items.len(),
{
    let front = items.drop_last();
    let before = rss_cards::all_lines(front, texts);
    if k < front.len() {
        assert(front[k] == items[k]);
        lemma_item_place(front, texts, k, j)
    } else {
        assert(items.last() == items[k]);
        before.len() + j
    }
}

} // verus!
