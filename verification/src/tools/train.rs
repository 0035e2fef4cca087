//! How train schedules are read and shown.
use vstd::prelude::*;
use vstd::string::*;

use crate::json::Json;
use crate::labels::Labels;
use crate::outside;
use crate::text;
use crate::tools::outcome;
use crate::tools::outcome::{
    BlockView, CommandBody, OutcomeView, ResponseBlock, ToolEffect, ToolExecutionOutcome,
    ToolExecutionResult, ToolOutcomeStatus,
};

verus! {

pub const TRAIN_TOOL_NAME: &'static str = "get_train_schedule";

#[derive(Debug)]
pub struct TrainStop {
    pub station_no: u32,
    pub station_name: String,
    pub arrive_time: Option<String>,
    pub departure_time: Option<String>,
    pub stopover_minutes: Option<u32>,
    pub day_difference: i32,
    pub day_difference_reliable: bool,
    pub station_train_code: String,
}

#[derive(Debug)]
pub struct TrainSchedule {
    pub train_code: String,
    /// Year, month and day.
    pub travel_date: (i32, u32, u32),
    pub start_station: String,
    pub end_station: String,
    pub stops: Vec<TrainStop>,
    pub full_train_code: Option<String>,
    pub corporation: Option<String>,
    pub train_style: Option<String>,
    pub dept_train: Option<String>,
}

/// The number under a key, if it is one of `u32`.
pub open spec fn count_at(v: Json, key: Seq<char>) -> Option<u32> {
    match v.whole_at(key) {
        Some(n) => if n <= u32::MAX {
            Some(n as u32)
        } else {
            None
        },
        None => None,
    }
}

fn get_count(v: &Json, key: &str) -> (r: Option<u32>)
    ensures
        r == count_at(*v, key@),
{
    match v.get_whole(key) {
        Some(n) => {
            if n <= u32::MAX as u64 {
                Some(n as u32)
            } else {
                None
            }
        },
        None => None,
    }
}

/// By how many days a stop is off; none where that cannot be read.
pub open spec fn days_at(v: Json) -> i32 {
    match v.entry("day_difference"@) {
        Some(Json::Whole(n)) => if n <= i32::MAX {
            n as i32
        } else {
            0
        },
        Some(Json::Negative(n)) => if n >= i32::MIN && n <= i32::MAX {
            n as i32
        } else {
            0
        },
        _ => 0,
    }
}

fn get_days(v: &Json) -> (r: i32)
    ensures
        r == days_at(*v),
{
    match v.get("day_difference") {
        Some(Json::Whole(n)) => {
            if *n <= i32::MAX as u64 {
                *n as i32
            } else {
                0
            }
        },
        Some(Json::Negative(n)) => {
            if *n >= i32::MIN as i64 && *n <= i32::MAX as i64 {
                *n as i32
            } else {
                0
            }
        },
        _ => 0,
    }
}

/// Whether the stop says what the value does.
pub open spec fn is_stop(stop: TrainStop, v: Json) -> bool {
    &&& Some(stop.station_no) == count_at(v, "station_no"@)
    &&& Some(stop.station_name@) == outcome::field(v, "station_name"@)
    &&& text::opt_view(stop.arrive_time) == outcome::field(v, "arrive_time"@)
    &&& text::opt_view(stop.departure_time) == outcome::field(v, "departure_time"@)
    &&& stop.stopover_minutes == count_at(v, "stopover_minutes"@)
    &&& stop.day_difference == days_at(v)
    &&& stop.day_difference_reliable == (v.bool_at("day_difference_reliable"@) == Some(true))
    &&& stop.station_train_code@ == outcome::field_or(
        v,
        "station_train_code"@,
        outcome::field_or(v, "train_code"@, ""@),
    )
}

/// Whether the value is a stop at all: it has a number and a name.
pub open spec fn names_stop(v: Json) -> bool {
    count_at(v, "station_no"@) is Some && outcome::field(v, "station_name"@) is Some
}

pub fn train_stop_from_output(output: &Json) -> (r: Option<TrainStop>)
    ensures
        match r {
            Some(stop) => names_stop(*output) && is_stop(stop, *output),
            None => !names_stop(*output),
        },
{
    let station_no: u32 = match get_count(output, "station_no") {
        Some(n) => n,
        None => {
            return None;
        },
    };
    let station_name = match outcome::string_field(output, "station_name") {
        Some(s) => s,
        None => {
            return None;
        },
    };
    let own_code = outcome::string_field_or(output, "train_code", "");
    Some(
        TrainStop {
            station_no,
            station_name,
            arrive_time: outcome::string_field(output, "arrive_time"),
            departure_time: outcome::string_field(output, "departure_time"),
            stopover_minutes: get_count(output, "stopover_minutes"),
            day_difference: get_days(output),
            day_difference_reliable: match output.get_bool("day_difference_reliable") {
                Some(b) => b,
                None => false,
            },
            station_train_code: outcome::string_field_or(
                output,
                "station_train_code",
                own_code.as_str(),
            ),
        },
    )
}

/// The elements that are stops, in their order.
pub open spec fn stop_values(items: Seq<Json>) -> Seq<Json> {
    items.filter(|v: Json| names_stop(v))
}

pub open spec fn are_stops(stops: Seq<TrainStop>, values: Seq<Json>) -> bool {
    stops.len() == values.len() && forall|i: int|
        0 <= i < stops.len() ==> is_stop(#[trigger] stops[i], values[i])
}

fn read_stops(items: &Vec<Json>) -> (r: Vec<TrainStop>)
    ensures
        are_stops(r@, stop_values(items@)),
{
    let mut stops: Vec<TrainStop> = Vec::new();
    let mut i: usize = 0;
    let ghost keep = |v: Json| names_stop(v);
    proof {
        reveal(Seq::filter);
        assert(items@.take(0) =~= Seq::empty());
    }
    while i < items.len()
        invariant
            0 <= i <= items@.len(),
            keep == (|v: Json| names_stop(v)),
            are_stops(stops@, items@.take(i as int).filter(keep)),
        decreases items@.len() - i,
    {
        let ghost before = items@.take(i as int).filter(keep);
        proof {
            reveal(Seq::filter);
            assert(items@.take(i + 1).drop_last() =~= items@.take(i as int));
            assert(items@.take(i + 1).last() == items@[i as int]);
            assert(keep(items@[i as int]) == names_stop(items@[i as int]));
        }
        let ghost earlier = stops@;
        match train_stop_from_output(&items[i]) {
            Some(stop) => {
                stops.push(stop);
                proof {
                    let now = items@.take(i + 1).filter(keep);
                    assert(now == before.push(items@[i as int]));
                    assert forall|k: int| 0 <= k < stops@.len() implies is_stop(#[trigger] stops@[k], now[k]) by {
                        if k < earlier.len() {
                            assert(stops@[k] == earlier[k]);
                            assert(now[k] == before[k]);
                        }
                    }
                }
            },
            None => {},
        }
        i += 1;
    }
    assert(items@.take(i as int) =~= items@);
    stops
}

/// The format of the day of travel.
pub const DATE_FORMAT: &'static str = "%Y-%m-%d";

/// The day of travel, if the output gives one.
pub open spec fn travel_day(output: Json) -> Option<(i32, u32, u32)> {
    match outcome::field(output, "travel_date"@) {
        Some(s) => outside::date_reading(s, DATE_FORMAT@),
        None => None,
    }
}

/// Whether the output is a schedule, given what its day reads as: it has a day, a train, both
/// ends and at least one stop.
pub open spec fn is_complete(output: Json, day: Option<(i32, u32, u32)>) -> bool {
    &&& day is Some
    &&& stop_values(outcome::elements(output, "stops"@)).len() > 0
    &&& outcome::field(output, "train_code"@) is Some
    &&& outcome::field(output, "start_station"@) is Some
    &&& outcome::field(output, "end_station"@) is Some
}

pub open spec fn is_schedule(s: TrainSchedule, output: Json, day: Option<(i32, u32, u32)>) -> bool {
    &&& Some(s.train_code@) == outcome::field(output, "train_code"@)
    &&& Some(s.travel_date) == day
    &&& Some(s.start_station@) == outcome::field(output, "start_station"@)
    &&& Some(s.end_station@) == outcome::field(output, "end_station"@)
    &&& are_stops(s.stops@, stop_values(outcome::elements(output, "stops"@)))
    &&& text::opt_view(s.full_train_code) == outcome::field(output, "full_train_code"@)
    &&& text::opt_view(s.corporation) == outcome::field(output, "corporation"@)
    &&& text::opt_view(s.train_style) == outcome::field(output, "train_style"@)
    &&& text::opt_view(s.dept_train) == outcome::field(output, "dept_train"@)
}

/// The schedule of an output whose day was read.
pub fn schedule_on(output: &Json, day: Option<(i32, u32, u32)>) -> (r: Option<TrainSchedule>)
    ensures
        match r {
            Some(s) => is_complete(*output, day) && is_schedule(s, *output, day),
            None => !is_complete(*output, day),
        },
{
    let travel_date = match day {
        Some(d) => d,
        None => {
            return None;
        },
    };
    let stops = match output.get_list("stops") {
        Some(items) => read_stops(items),
        None => {
            proof {
                reveal(Seq::filter);
            }
            return None;
        },
    };
    if stops.len() == 0 {
        return None;
    }
    let train_code = match outcome::string_field(output, "train_code") {
        Some(s) => s,
        None => {
            return None;
        },
    };
    let start_station = match outcome::string_field(output, "start_station") {
        Some(s) => s,
        None => {
            return None;
        },
    };
    let end_station = match outcome::string_field(output, "end_station") {
        Some(s) => s,
        None => {
            return None;
        },
    };
    Some(
        TrainSchedule {
            train_code,
            travel_date,
            start_station,
            end_station,
            stops,
            full_train_code: outcome::string_field(output, "full_train_code"),
            corporation: outcome::string_field(output, "corporation"),
            train_style: outcome::string_field(output, "train_style"),
            dept_train: outcome::string_field(output, "dept_train"),
        },
    )
}

pub fn train_schedule_from_output(output: &Json) -> (r: Option<TrainSchedule>)
    ensures
        match r {
            Some(s) => is_complete(*output, travel_day(*output)) && is_schedule(
                s,
                *output,
                travel_day(*output),
            ),
            None => !is_complete(*output, travel_day(*output)),
        },
{
    let day = match outcome::string_field(output, "travel_date") {
        Some(s) => outside::parse_date(s.as_str(), DATE_FORMAT),
        None => None,
    };
    schedule_on(output, day)
}

// How a result is shown.

/// What the train flow says: of the schedule, and of errors by their codes.
#[derive(Debug)]
pub struct TrainReplies {
    /// The schedule of the result, where there is one.
    pub schedule: Option<CommandBody>,
    pub errors: Labels,
}

pub open spec fn error_text(code: Option<Seq<char>>, replies: TrainReplies) -> Seq<char> {
    let code = match code {
        Some(c) => c,
        None => "provider_error"@,
    };
    if code == "bad_tool_arguments"@ {
        "【火车】\n\n火车查询参数不完整，请提供车次；日期支持今天、明天、后天或 YYYY-MM-DD。"@
    } else {
        replies.errors.label(code)
    }
}

pub fn train_error_body(code: &Option<String>, replies: &TrainReplies) -> (r: CommandBody)
    ensures
        r.shown() == outcome::plain_body(error_text(text::opt_view(*code), *replies)),
{
    let code = match code {
        Some(c) => c.clone(),
        None => "provider_error".to_owned(),
    };
    if text::same(code.as_str(), "bad_tool_arguments") {
        return CommandBody::plain(
            "【火车】\n\n火车查询参数不完整，请提供车次；日期支持今天、明天、后天或 YYYY-MM-DD。",
        );
    }
    CommandBody::plain(replies.errors.get(code.as_str()).as_str())
}

pub open spec fn train_block(output: Json, status: ToolOutcomeStatus, replies: TrainReplies) -> BlockView {
    match status {
        ToolOutcomeStatus::Succeeded => match replies.schedule {
            Some(body) => BlockView::FactCard(body.shown()),
            None => BlockView::Error(
                outcome::plain_body(error_text(Some("provider_error"@), replies)),
            ),
        },
        ToolOutcomeStatus::Skipped => BlockView::Warning(
            outcome::plain_body(outcome::skip_text("火车查询"@, output)),
        ),
        ToolOutcomeStatus::RequiresClarification => BlockView::Clarification(
            outcome::plain_body("请说明要查询哪个车次。"@),
        ),
        ToolOutcomeStatus::PendingConfirmation | ToolOutcomeStatus::Failed => BlockView::Error(
            outcome::plain_body(error_text(outcome::error_code(output), replies)),
        ),
    }
}

/// The outcome of a train query; none for another tool.
pub open spec fn train_outcome(
    result: ToolExecutionResult,
    status: ToolOutcomeStatus,
    replies: TrainReplies,
) -> Option<OutcomeView> {
    if result.name@ != TRAIN_TOOL_NAME@ {
        None
    } else {
        Some(
            outcome::one_block(
                result.name@,
                "train"@,
                status,
                ToolEffect::ReadOnly,
                train_block(result.output, status, replies),
                outcome::error_code(result.output),
                "train"@,
            ),
        )
    }
}

pub fn tool_outcome_from_train_result(
    result: &ToolExecutionResult,
    status: ToolOutcomeStatus,
    replies: &TrainReplies,
) -> (r: Option<ToolExecutionOutcome>)
    ensures
        match train_outcome(*result, status, *replies) {
            Some(view) => r matches Some(o) && o.shown() == view,
            None => r is None,
        },
{
    if !text::same(result.name.as_str(), TRAIN_TOOL_NAME) {
        return None;
    }
    let code = outcome::structured_error_code(&result.output);
    let block = match status {
        ToolOutcomeStatus::Succeeded => match &replies.schedule {
            Some(body) => ResponseBlock::FactCard { body: body.copy() },
            None => ResponseBlock::Error {
                body: train_error_body(&Some("provider_error".to_owned()), replies),
            },
        },
        ToolOutcomeStatus::Skipped => ResponseBlock::Warning {
            body: outcome::skip_body("火车查询", &result.output),
        },
        ToolOutcomeStatus::RequiresClarification => ResponseBlock::Clarification {
            body: CommandBody::plain("请说明要查询哪个车次。"),
        },
        ToolOutcomeStatus::PendingConfirmation | ToolOutcomeStatus::Failed => ResponseBlock::Error {
            body: train_error_body(&code, replies),
        },
    };
    Some(
        outcome::one_block_outcome(
            result.name.as_str(),
            "train",
            status,
            ToolEffect::ReadOnly,
            block,
            code,
            "train",
        ),
    )
}

} // verus!
