//! How the weather is shown.
use vstd::prelude::*;
use vstd::string::*;

use crate::json;
use crate::json::Json;
use crate::knowledge::splitting;
use crate::labels::Labels;
use crate::text;
use crate::tools::outcome;
use crate::tools::outcome::{
    BlockView, BodyView, CommandBody, OutcomeView, ResponseBlock, ToolEffect, ToolExecutionOutcome,
    ToolExecutionResult, ToolOutcomeStatus,
};

verus! {

pub const WEATHER_TOOL_NAME: &'static str = "get_weather";

/// How many characters of the card are shown.
pub const WEATHER_FACT_MAX_CHARS: usize = 900;

/// For how many days the card looks ahead.
pub const FORECAST_DAYS: usize = 3;

/// What other parts made of the numbers and texts of a result.
#[derive(Debug)]
pub struct WeatherTexts {
    /// The weather by its code.
    pub conditions: Labels,
    /// Numbers as they are shown, by how they are written.
    pub numbers: Labels,
    /// Times as they are shown.
    pub times: Labels,
    /// Days as they are called.
    pub days: Labels,
    /// Whether the amount of rain is above zero.
    pub rains: bool,
}

// Numbers.

/// The number under a key, as it is shown.
pub open spec fn number_at(v: Json, key: Seq<char>, numbers: Labels) -> Option<Seq<char>> {
    match v.entry(key) {
        Some(Json::Whole(n)) => Some(numbers.label(json::written(Json::Whole(n)))),
        Some(Json::Negative(n)) => Some(numbers.label(json::written(Json::Negative(n)))),
        Some(Json::Decimal(s)) => Some(numbers.label(s@)),
        _ => None,
    }
}

fn number_field(v: &Json, key: &str, numbers: &Labels) -> (r: Option<String>)
    ensures
        text::opt_view(r) == number_at(*v, key@, *numbers),
{
    match v.get(key) {
        Some(n) => match n {
            Json::Whole(_) | Json::Negative(_) | Json::Decimal(_) => Some(
                numbers.get(json::write_json(n).as_str()),
            ),
            _ => None,
        },
        None => None,
    }
}

/// The weather under `weather_code`, if the code is one.
pub open spec fn condition_at(v: Json, conditions: Labels) -> Option<Seq<char>> {
    match v.whole_at("weather_code"@) {
        Some(n) => if n <= u16::MAX {
            Some(conditions.label(text::decimal(n as nat)))
        } else {
            None
        },
        None => None,
    }
}

fn condition_of(v: &Json, conditions: &Labels) -> (r: Option<String>)
    ensures
        text::opt_view(r) == condition_at(*v, *conditions),
{
    match v.get_whole("weather_code") {
        Some(n) => {
            if n <= u16::MAX as u64 {
                Some(conditions.get(text::decimal_string(n).as_str()))
            } else {
                None
            }
        },
        None => None,
    }
}

// The place.

/// The parts of the place, each once: the name, then what it lies in.
pub open spec fn with_part(parts: Seq<Seq<char>>, part: Option<Seq<char>>) -> Seq<Seq<char>> {
    match part {
        Some(s) => if parts.contains(s) {
            parts
        } else {
            parts.push(s)
        },
        None => parts,
    }
}

pub open spec fn place_parts(location: Json, name: Seq<char>) -> Seq<Seq<char>> {
    with_part(
        with_part(
            with_part(seq![text::trimmed(name)], outcome::field(location, "admin2"@)),
            outcome::field(location, "admin1"@),
        ),
        outcome::field(location, "country"@),
    )
}

fn add_part(parts: &mut Vec<String>, part: Option<String>)
    ensures
        text::views(final(parts)@) == with_part(text::views(old(parts)@), text::opt_view(part)),
{
    match part {
        Some(s) => {
            let ghost before = text::views(parts@);
            let mut i: usize = 0;
            let mut found = false;
            while i < parts.len()
                invariant
                    0 <= i <= parts@.len(),
                    before == text::views(parts@),
                    found == (exists|k: int| 0 <= k < i && #[trigger] before[k] == s@),
                decreases parts@.len() - i,
            {
                let here = text::same(parts[i].as_str(), s.as_str());
                assert(before[i as int] == parts@[i as int]@);
                if here {
                    found = true;
                }
                i += 1;
            }
            assert(found == before.contains(s@));
            if !found {
                let ghost rows = parts@;
                parts.push(s);
                assert(text::views(parts@) =~= before.push(s@));
            }
        },
        None => {},
    }
}

pub fn full_location_label(location: &Json, name: &str) -> (r: String)
    ensures
        r@ == text::joined(place_parts(*location, name@), "，"@),
{
    let mut parts: Vec<String> = Vec::new();
    parts.push(text::trim(name).to_owned());
    assert(text::views(parts@) =~= seq![text::trimmed(name@)]);
    add_part(&mut parts, outcome::string_field(location, "admin2"));
    add_part(&mut parts, outcome::string_field(location, "admin1"));
    add_part(&mut parts, outcome::string_field(location, "country"));
    text::join(&parts, "，")
}

/// The full name of a place, where it says more than the name.
pub open spec fn detail(name: Seq<char>, full: Seq<char>) -> Option<Seq<char>> {
    let t = text::trimmed(full);
    if t.len() == 0 || t == text::trimmed(name) {
        None
    } else {
        Some(t)
    }
}

pub fn location_detail(name: &str, full_location: &str) -> (r: Option<String>)
    ensures
        text::opt_view(r) == detail(name@, full_location@),
{
    let t = text::trim(full_location);
    let len: usize = t.unicode_len();
    if len == 0 || text::same(t, text::trim(name)) {
        None
    } else {
        Some(t.to_owned())
    }
}

// Now.

/// Where the first five bytes end, if they end with a character.
pub open spec fn ends_at_five(s: Seq<char>, k: int) -> bool {
    0 <= k <= s.len() && splitting::byte_len(s.take(k)) == 5
}

/// The first five bytes of the text, or all of it where they do not end with a character.
pub open spec fn five_bytes(s: Seq<char>) -> Seq<char> {
    if exists|k: int| ends_at_five(s, k) {
        s.take(choose|k: int| ends_at_five(s, k))
    } else {
        s
    }
}

/// The time of day of a shown time: what stands behind its first space.
pub open spec fn time_of_day(shown: Seq<char>) -> Seq<char> {
    match text::cut_at(shown, ' ') {
        Some((_, time)) => five_bytes(time),
        None => shown,
    }
}

proof fn lemma_bytes_grow(s: Seq<char>, i: int, k: int)
    requires
        0 <= i < k <= s.len(),
    ensures
        splitting::byte_len(s.take(i)) < splitting::byte_len(s.take(k)),
    decreases k - i,
{
    assert(s.take(k).drop_last() =~= s.take(k - 1));
    if i < k - 1 {
        lemma_bytes_grow(s, i, k - 1);
    }
}

fn char_width(c: char) -> (r: usize)
    ensures
        r == splitting::width(c),
{
    let n: u32 = c as u32;
    if n < 0x80 {
        1
    } else if n < 0x800 {
        2
    } else if n < 0x10000 {
        3
    } else {
        4
    }
}

fn first_five_bytes(s: &str) -> (r: String)
    ensures
        r@ == five_bytes(s@),
{
    let v = text::chars_of(s);
    let mut total: usize = 0;
    let mut i: usize = 0;
    assert(s@.take(0) =~= Seq::empty());
    while i < v.len() && total < 5
        invariant
            0 <= i <= v@.len(),
            v@ == s@,
            total == splitting::byte_len(s@.take(i as int)),
            total <= 8,
            forall|k: int| 0 <= k < i ==> splitting::byte_len(#[trigger] s@.take(k)) < 5,
        decreases v@.len() - i,
    {
        let w: usize = char_width(v[i]);
        proof {
            assert(s@.take(i + 1).drop_last() =~= s@.take(i as int));
            assert(s@.take(i + 1).last() == v@[i as int]);
        }
        total += w;
        i += 1;
    }
    if total == 5 {
        proof {
            assert(ends_at_five(s@, i as int));
            let k = choose|k: int| ends_at_five(s@, k);
            if k < i {
                lemma_bytes_grow(s@, k, i as int);
            } else if i < k {
                lemma_bytes_grow(s@, i as int, k);
            }
            assert(s@.take(i as int) =~= s@.subrange(0, i as int));
        }
        text::slice_of(&v, 0, i)
    } else {
        proof {
            assert forall|k: int| !ends_at_five(s@, k) by {
                if ends_at_five(s@, k) {
                    if k < i {
                        assert(splitting::byte_len(s@.take(k)) < 5);
                    } else if i < k {
                        lemma_bytes_grow(s@, i as int, k);
                    }
                }
            }
        }
        s.to_owned()
    }
}

pub fn short_time(value: &str, times: &Labels) -> (r: String)
    ensures
        r@ == time_of_day(times.label(value@)),
{
    let shown = times.get(value);
    match text::split_once(shown.as_str(), ' ') {
        Some((_, time)) => first_five_bytes(time.as_str()),
        None => shown,
    }
}

pub open spec fn wind(direction: Option<Seq<char>>, scale: Option<Seq<char>>) -> Option<Seq<char>> {
    match (text::cleaned_opt(direction), text::cleaned_opt(scale)) {
        (Some(d), Some(s)) => Some(d + " "@ + s + "级"@),
        (Some(d), None) => Some(d),
        (None, Some(s)) => Some(s + "级风"@),
        (None, None) => None,
    }
}

pub fn format_wind(direction: &Option<String>, scale: &Option<String>) -> (r: Option<String>)
    ensures
        text::opt_view(r) == wind(text::opt_view(*direction), text::opt_view(*scale)),
{
    match (text::clean_option(direction), text::clean_option(scale)) {
        (Some(d), Some(s)) => {
            let mut out = d;
            out.append(" ");
            out.append(s.as_str());
            out.append("级");
            Some(out)
        },
        (Some(d), None) => Some(d),
        (None, Some(s)) => {
            let mut out = s;
            out.append("级风");
            Some(out)
        },
        (None, None) => None,
    }
}

/// The part, if there is one.
pub open spec fn row(o: Option<Seq<char>>) -> Seq<Seq<char>> {
    match o {
        Some(s) => seq![s],
        None => Seq::empty(),
    }
}

fn one_line(s: String) -> (r: Vec<String>)
    ensures
        text::views(r@) == seq![s@],
{
    let mut v: Vec<String> = Vec::new();
    let ghost line = s@;
    v.push(s);
    assert(text::views(v@) =~= seq![line]);
    v
}

fn push_line(out: &mut Vec<String>, s: String)
    ensures
        text::views(final(out)@) == text::views(old(out)@) + seq![s@],
{
    let ghost line = s@;
    out.push(s);
    assert(text::views(out@) =~= text::views(old(out)@) + seq![line]);
}

fn push_option(out: &mut Vec<String>, o: Option<String>)
    ensures
        text::views(final(out)@) == text::views(old(out)@) + row(text::opt_view(o)),
{
    match o {
        Some(s) => {
            push_line(out, s);
        },
        None => {
            assert(text::views(out@) =~= text::views(out@) + Seq::empty());
        },
    }
}

fn surrounded(open: &str, o: Option<String>, close: &str) -> (r: Option<String>)
    ensures
        text::opt_view(r) == (match o {
            Some(s) => Some(open@ + s@ + close@),
            None => None,
        }),
{
    match o {
        Some(s) => {
            let mut t = open.to_owned();
            t.append(s.as_str());
            t.append(close);
            Some(t)
        },
        None => None,
    }
}

fn followed(o: Option<String>, close: &str) -> (r: Option<String>)
    ensures
        text::opt_view(r) == (match o {
            Some(s) => Some(s@ + close@),
            None => None,
        }),
{
    match o {
        Some(s) => {
            let mut t = s;
            t.append(close);
            Some(t)
        },
        None => None,
    }
}

pub open spec fn felt(current: Json, texts: WeatherTexts) -> Option<Seq<char>> {
    match number_at(current, "apparent_temperature_c"@, texts.numbers) {
        Some(n) => Some("体感 "@ + n + "°C"@),
        None => None,
    }
}

pub open spec fn humidity(current: Json) -> Option<Seq<char>> {
    match current.whole_at("humidity_percent"@) {
        Some(n) => Some("湿度 "@ + text::decimal(n as nat) + "%"@),
        None => None,
    }
}

pub open spec fn rain(current: Json, texts: WeatherTexts) -> Option<Seq<char>> {
    match number_at(current, "precipitation_mm"@, texts.numbers) {
        Some(n) => if texts.rains {
            Some("降水 "@ + n + "mm"@)
        } else {
            None
        },
        None => None,
    }
}

pub open spec fn current_wind(current: Json) -> Option<Seq<char>> {
    wind(outcome::field(current, "wind_direction"@), outcome::field(current, "wind_scale"@))
}

pub open spec fn detail_parts(current: Json, texts: WeatherTexts) -> Seq<Seq<char>> {
    row(felt(current, texts)) + row(humidity(current)) + row(rain(current, texts)) + row(
        current_wind(current),
    )
}

pub open spec fn details(current: Json, texts: WeatherTexts) -> Option<Seq<char>> {
    let parts = detail_parts(current, texts);
    if parts.len() == 0 {
        None
    } else {
        Some(text::joined(parts, " · "@))
    }
}

pub fn current_details(current: &Json, texts: &WeatherTexts) -> (r: Option<String>)
    ensures
        text::opt_view(r) == details(*current, *texts),
{
    let mut parts: Vec<String> = Vec::new();
    match number_field(current, "apparent_temperature_c", &texts.numbers) {
        Some(n) => {
            let mut s = "体感 ".to_owned();
            s.append(n.as_str());
            s.append("°C");
            parts.push(s);
        },
        None => {},
    }
    match current.get_whole("humidity_percent") {
        Some(n) => {
            let mut s = "湿度 ".to_owned();
            s.append(text::decimal_string(n).as_str());
            s.append("%");
            parts.push(s);
        },
        None => {},
    }
    match number_field(current, "precipitation_mm", &texts.numbers) {
        Some(n) => {
            if texts.rains {
                let mut s = "降水 ".to_owned();
                s.append(n.as_str());
                s.append("mm");
                parts.push(s);
            }
        },
        None => {},
    }
    match format_wind(
        &outcome::string_field(current, "wind_direction"),
        &outcome::string_field(current, "wind_scale"),
    ) {
        Some(s) => {
            parts.push(s);
        },
        None => {},
    }
    assert(text::views(parts@) =~= detail_parts(*current, *texts));
    if parts.len() == 0 {
        None
    } else {
        Some(text::join(&parts, " · "))
    }
}

// The air.

pub open spec fn air_summary(output: Json) -> Json {
    outcome::part(outcome::part(output, "air_quality"@), "summary"@)
}

pub open spec fn air(output: Json) -> Option<Seq<char>> {
    let summary = air_summary(output);
    match outcome::field(summary, "aqi_display"@) {
        Some(aqi) => Some(
            "空气质量：AQI "@ + aqi + (match outcome::field(summary, "category"@) {
                Some(c) => "（"@ + c + "）"@,
                None => ""@,
            }) + (match outcome::field(summary, "primary_pollutant"@) {
                Some(p) => " · 首要污染物 "@ + p,
                None => ""@,
            }),
        ),
        None => None,
    }
}

pub fn air_quality_summary(output: &Json) -> (r: Option<String>)
    ensures
        text::opt_view(r) == air(*output),
{
    let nothing = Json::Null;
    let quality = match output.get("air_quality") {
        Some(v) => v,
        None => &nothing,
    };
    let summary = match quality.get("summary") {
        Some(v) => v,
        None => &nothing,
    };
    let aqi = match outcome::string_field(summary, "aqi_display") {
        Some(s) => s,
        None => {
            return None;
        },
    };
    let mut category = "".to_owned();
    match outcome::string_field(summary, "category") {
        Some(c) => {
            category = "（".to_owned();
            category.append(c.as_str());
            category.append("）");
        },
        None => {},
    }
    let mut primary = "".to_owned();
    match outcome::string_field(summary, "primary_pollutant") {
        Some(p) => {
            primary = " · 首要污染物 ".to_owned();
            primary.append(p.as_str());
        },
        None => {},
    }
    let mut s = "空气质量：AQI ".to_owned();
    s.append(aqi.as_str());
    s.append(category.as_str());
    s.append(primary.as_str());
    Some(s)
}

// The days ahead.

/// The weather of a day: by day, or else by night, or else by its code.
pub open spec fn day_weather(day: Json, texts: WeatherTexts) -> Seq<char> {
    match outcome::field(day, "weather_day"@) {
        Some(s) => s,
        None => match outcome::field(day, "weather_night"@) {
            Some(s) => s,
            None => match condition_at(day, texts.conditions) {
                Some(s) => s,
                None => "未知"@,
            },
        },
    }
}

pub open spec fn day_temperature(day: Json, texts: WeatherTexts) -> Seq<char> {
    match (
        number_at(day, "temperature_min_c"@, texts.numbers),
        number_at(day, "temperature_max_c"@, texts.numbers),
    ) {
        (Some(min), Some(max)) => min + "～"@ + max + "°C"@,
        (None, Some(max)) => "最高 "@ + max + "°C"@,
        (Some(min), None) => "最低 "@ + min + "°C"@,
        (None, None) => "温度未知"@,
    }
}

pub open spec fn day_parts(day: Json, date: Seq<char>, texts: WeatherTexts) -> Seq<Seq<char>> {
    seq![texts.days.label(date), day_weather(day, texts), day_temperature(day, texts)] + row(
        match day.whole_at("precipitation_probability_max"@) {
            Some(n) => Some("降水概率 "@ + text::decimal(n as nat) + "%"@),
            None => None,
        },
    )
}

/// One day in a line; a day without a date has none.
pub open spec fn day_line(day: Json, texts: WeatherTexts) -> Option<Seq<char>> {
    match outcome::field(day, "date"@) {
        Some(date) => Some(text::joined(day_parts(day, date, texts), "，"@)),
        None => None,
    }
}

fn write_day_weather(day: &Json, texts: &WeatherTexts) -> (r: String)
    ensures
        r@ == day_weather(*day, *texts),
{
    match outcome::string_field(day, "weather_day") {
        Some(s) => s,
        None => match outcome::string_field(day, "weather_night") {
            Some(s) => s,
            None => match condition_of(day, &texts.conditions) {
                Some(s) => s,
                None => "未知".to_owned(),
            },
        },
    }
}

fn write_day_temperature(day: &Json, texts: &WeatherTexts) -> (r: String)
    ensures
        r@ == day_temperature(*day, *texts),
{
    let min = number_field(day, "temperature_min_c", &texts.numbers);
    let max = number_field(day, "temperature_max_c", &texts.numbers);
    match (min, max) {
        (Some(min), Some(max)) => {
            let mut s = min;
            s.append("～");
            s.append(max.as_str());
            s.append("°C");
            s
        },
        (None, Some(max)) => {
            let mut s = "最高 ".to_owned();
            s.append(max.as_str());
            s.append("°C");
            s
        },
        (Some(min), None) => {
            let mut s = "最低 ".to_owned();
            s.append(min.as_str());
            s.append("°C");
            s
        },
        (None, None) => "温度未知".to_owned(),
    }
}

pub fn format_daily_summary(day: &Json, texts: &WeatherTexts) -> (r: Option<String>)
    ensures
        text::opt_view(r) == day_line(*day, *texts),
{
    let date = match outcome::string_field(day, "date") {
        Some(s) => s,
        None => {
            return None;
        },
    };
    let mut parts: Vec<String> = Vec::new();
    parts.push(texts.days.get(date.as_str()));
    parts.push(write_day_weather(day, texts));
    parts.push(write_day_temperature(day, texts));
    match day.get_whole("precipitation_probability_max") {
        Some(n) => {
            let mut s = "降水概率 ".to_owned();
            s.append(text::decimal_string(n).as_str());
            s.append("%");
            parts.push(s);
        },
        None => {},
    }
    assert(text::views(parts@) =~= day_parts(*day, date@, *texts));
    Some(text::join(&parts, "，"))
}

/// The lines of the days that have one.
pub open spec fn day_lines(days: Seq<Json>, texts: WeatherTexts) -> Seq<Seq<char>>
    decreases days.len(),
{
    if days.len() == 0 {
        Seq::empty()
    } else {
        day_lines(days.drop_last(), texts) + row(day_line(days.last(), texts))
    }
}

pub open spec fn first_days(days: Seq<Json>) -> Seq<Json> {
    if days.len() > FORECAST_DAYS {
        days.take(FORECAST_DAYS as int)
    } else {
        days
    }
}

fn forecast_lines(days: &Vec<Json>, texts: &WeatherTexts) -> (r: Vec<String>)
    ensures
        text::views(r@) == day_lines(first_days(days@), *texts),
        r@.len() <= FORECAST_DAYS,
{
    let n: usize = if days.len() > FORECAST_DAYS {
        FORECAST_DAYS
    } else {
        days.len()
    };
    let ghost shown = first_days(days@);
    assert(shown =~= days@.take(n as int));
    let mut lines: Vec<String> = Vec::new();
    let mut i: usize = 0;
    proof {
        assert(shown.take(0) =~= Seq::empty());
        assert(text::views(lines@) =~= Seq::empty());
    }
    while i < n
        invariant
            0 <= i <= n <= days@.len(),
            n <= FORECAST_DAYS,
            shown == days@.take(n as int),
            lines@.len() <= i,
            text::views(lines@) == day_lines(shown.take(i as int), *texts),
        decreases n - i,
    {
        let ghost before = lines@;
        proof {
            assert(shown.take(i + 1).drop_last() =~= shown.take(i as int));
            assert(shown.take(i + 1).last() == days@[i as int]);
        }
        match format_daily_summary(&days[i], texts) {
            Some(s) => {
                lines.push(s);
                assert(text::views(lines@) =~= text::views(before) + seq![s@]);
            },
            None => {
                assert(text::views(lines@) =~= text::views(before) + Seq::empty());
            },
        }
        i += 1;
    }
    assert(shown.take(i as int) =~= shown);
    lines
}

/// The forecast, under a line that counts its days; `open` and `close` stand round each day.
pub open spec fn forecast(lines: Seq<Seq<char>>, head: Seq<char>, open: Seq<char>, close: Seq<char>) -> Seq<Seq<char>> {
    if lines.len() == 0 {
        Seq::empty()
    } else {
        seq![""@, head + text::decimal(lines.len()) + " 天"@] + Seq::new(
            lines.len(),
            |i: int| open + lines[i] + close,
        )
    }
}

fn append_forecast(out: &mut Vec<String>, lines: &Vec<String>, head: &str, open: &str, close: &str)
    ensures
        text::views(final(out)@) == text::views(old(out)@) + forecast(
            text::views(lines@),
            head@,
            open@,
            close@,
        ),
{
    let ghost before = text::views(out@);
    let ghost all = forecast(text::views(lines@), head@, open@, close@);
    let n: usize = lines.len();
    if n == 0 {
        assert(before + all =~= before);
        return;
    }
    let mut count = head.to_owned();
    count.append(text::decimal_string(n as u64).as_str());
    count.append(" 天");
    out.push("".to_owned());
    out.push(count);
    assert(text::views(out@) =~= before + all.take(2));
    let mut i: usize = 0;
    while i < n
        invariant
            0 <= i <= n,
            n == lines@.len(),
            n > 0,
            all == forecast(text::views(lines@), head@, open@, close@),
            text::views(out@) == before + all.take(i + 2),
        decreases n - i,
    {
        let ghost some = out@;
        let mut s = open.to_owned();
        s.append(lines[i].as_str());
        s.append(close);
        let ghost line = s@;
        out.push(s);
        proof {
            assert(all[i + 2] == line);
            assert(text::views(out@) =~= text::views(some).push(line));
            assert(all.take(i + 3) =~= all.take(i + 2).push(all[i + 2]));
            assert((before + all.take(i + 2)).push(line) =~= before + all.take(i + 2).push(line));
        }
        i += 1;
    }
    assert(all.take(n + 2) =~= all);
}

// The card.

pub open spec fn place_name(output: Json) -> Seq<char> {
    outcome::field_or(outcome::part(output, "location"@), "name"@, "当前城市"@)
}

pub open spec fn place_detail(output: Json) -> Option<Seq<char>> {
    detail(
        place_name(output),
        text::joined(place_parts(outcome::part(output, "location"@), place_name(output)), "，"@),
    )
}

/// The time, the weather and the temperature now.
pub open spec fn now_line(output: Json, texts: WeatherTexts) -> Seq<char> {
    let current = outcome::part(output, "current"@);
    "当前 "@ + (match outcome::field(current, "time"@) {
        Some(t) => time_of_day(texts.times.label(t)),
        None => "--:--"@,
    }) + "｜"@ + (match condition_at(current, texts.conditions) {
        Some(s) => s,
        None => "未知"@,
    }) + "｜"@ + (match number_at(current, "temperature_c"@, texts.numbers) {
        Some(n) => n,
        None => "--"@,
    }) + "°C"@
}

fn write_now_line(current: &Json, texts: &WeatherTexts) -> (r: String)
    ensures
        forall|output: Json|
            outcome::part(output, "current"@) == *current ==> r@ == #[trigger] now_line(output, *texts),
{
    let time = match outcome::string_field(current, "time") {
        Some(t) => short_time(t.as_str(), &texts.times),
        None => "--:--".to_owned(),
    };
    let weather = match condition_of(current, &texts.conditions) {
        Some(s) => s,
        None => "未知".to_owned(),
    };
    let temperature = match number_field(current, "temperature_c", &texts.numbers) {
        Some(n) => n,
        None => "--".to_owned(),
    };
    let mut s = "当前 ".to_owned();
    s.append(time.as_str());
    s.append("｜");
    s.append(weather.as_str());
    s.append("｜");
    s.append(temperature.as_str());
    s.append("°C");
    s
}

pub open spec fn forecast_days(output: Json, texts: WeatherTexts) -> Seq<Seq<char>> {
    day_lines(first_days(outcome::elements(output, "daily"@)), texts)
}

pub open spec fn card_lines(output: Json, texts: WeatherTexts) -> Seq<Seq<char>> {
    seq!["🌦 "@ + place_name(output) + "天气"@] + row(place_detail(output)) + seq![""@] + seq![
        now_line(output, texts),
    ] + row(details(outcome::part(output, "current"@), texts)) + row(air(output)) + forecast(
        forecast_days(output, texts),
        "未来 "@,
        "- "@,
        ""@,
    )
}

pub open spec fn card_markdown(output: Json, texts: WeatherTexts) -> Seq<Seq<char>> {
    seq!["# 🌦 "@ + place_name(output) + "天气"@] + row(
        match place_detail(output) {
            Some(d) => Some("**"@ + d + "**"@),
            None => None,
        },
    ) + seq![""@] + seq!["**"@ + now_line(output, texts) + "**  "@] + row(
        match details(outcome::part(output, "current"@), texts) {
            Some(d) => Some(d + "  "@),
            None => None,
        },
    ) + row(air(output)) + forecast(forecast_days(output, texts), "## 未来 "@, "- **"@, "**"@)
}

pub open spec fn weather_card(output: Json, texts: WeatherTexts) -> BodyView {
    outcome::cut_body(
        (
            text::joined(card_lines(output, texts), "\n"@),
            Some(text::joined(card_markdown(output, texts), "\n"@)),
        ),
        WEATHER_FACT_MAX_CHARS as int,
    )
}

pub fn weather_fact_card(output: &Json, texts: &WeatherTexts) -> (r: CommandBody)
    ensures
        r.shown() == weather_card(*output, *texts),
{
    let nothing = Json::Null;
    let location = match output.get("location") {
        Some(v) => v,
        None => &nothing,
    };
    let current = match output.get("current") {
        Some(v) => v,
        None => &nothing,
    };
    let none: Vec<Json> = Vec::new();
    assert(none@ =~= Seq::empty());
    let daily = match output.get_list("daily") {
        Some(v) => v,
        None => &none,
    };
    let name = outcome::string_field_or(location, "name", "当前城市");
    let full = full_location_label(location, name.as_str());
    let place = location_detail(name.as_str(), full.as_str());
    let now = write_now_line(current, texts);
    assert(now@ == now_line(*output, *texts));
    let more = current_details(current, texts);
    let air_line = air_quality_summary(output);
    let mut head = "🌦 ".to_owned();
    head.append(name.as_str());
    head.append("天气");
    let mut lines = one_line(head);
    push_option(&mut lines, text::copy_option(&place));
    push_line(&mut lines, "".to_owned());
    push_line(&mut lines, now.clone());
    push_option(&mut lines, text::copy_option(&more));
    push_option(&mut lines, text::copy_option(&air_line));
    let mut heading = "# 🌦 ".to_owned();
    heading.append(name.as_str());
    heading.append("天气");
    let mut markdown = one_line(heading);
    push_option(&mut markdown, surrounded("**", place, "**"));
    push_line(&mut markdown, "".to_owned());
    let mut marked = "**".to_owned();
    marked.append(now.as_str());
    marked.append("**  ");
    push_line(&mut markdown, marked);
    push_option(&mut markdown, followed(more, "  "));
    push_option(&mut markdown, air_line);
    let days = forecast_lines(daily, texts);
    append_forecast(&mut lines, &days, "未来 ", "- ", "");
    append_forecast(&mut markdown, &days, "## 未来 ", "- **", "**");
    assert(text::views(lines@) == card_lines(*output, *texts));
    assert(text::views(markdown@) == card_markdown(*output, *texts));
    CommandBody::dual(text::join(&lines, "\n"), text::join(&markdown, "\n")).cut_to(
        WEATHER_FACT_MAX_CHARS,
    )
}

// How a result is shown.

pub open spec fn error_text(code: Option<Seq<char>>) -> Seq<char> {
    if code == Some("not_found"@) {
        "【天气】\n\n没找到这个城市。可以换成更完整的城市名再试。"@
    } else if code == Some("timeout"@) {
        "【天气】\n\n天气服务超时了，请稍后再试。"@
    } else if code == Some("bad_tool_arguments"@) {
        "【天气】\n\n天气查询参数不完整，请说明要查询的城市。"@
    } else {
        "【天气】\n\n天气服务暂时不可用，请稍后再试。"@
    }
}

pub fn weather_error_body(output: &Json) -> (r: CommandBody)
    ensures
        r.shown() == outcome::plain_body(error_text(outcome::error_code(*output))),
{
    let code = outcome::structured_error_code(output);
    if outcome::is_text(&code, "not_found") {
        CommandBody::plain("【天气】\n\n没找到这个城市。可以换成更完整的城市名再试。")
    } else if outcome::is_text(&code, "timeout") {
        CommandBody::plain("【天气】\n\n天气服务超时了，请稍后再试。")
    } else if outcome::is_text(&code, "bad_tool_arguments") {
        CommandBody::plain("【天气】\n\n天气查询参数不完整，请说明要查询的城市。")
    } else {
        CommandBody::plain("【天气】\n\n天气服务暂时不可用，请稍后再试。")
    }
}

pub open spec fn weather_block(output: Json, status: ToolOutcomeStatus, texts: WeatherTexts) -> BlockView {
    match status {
        ToolOutcomeStatus::Succeeded => BlockView::FactCard(weather_card(output, texts)),
        ToolOutcomeStatus::Skipped => BlockView::Warning(
            outcome::plain_body(outcome::skip_text("天气查询"@, output)),
        ),
        ToolOutcomeStatus::RequiresClarification => BlockView::Clarification(
            outcome::plain_body("请说明要查询哪个城市的天气。"@),
        ),
        ToolOutcomeStatus::PendingConfirmation | ToolOutcomeStatus::Failed => BlockView::Error(
            outcome::plain_body(error_text(outcome::error_code(output))),
        ),
    }
}

/// The outcome of a weather query; none for another tool.
pub open spec fn weather_outcome(
    result: ToolExecutionResult,
    status: ToolOutcomeStatus,
    texts: WeatherTexts,
) -> Option<OutcomeView> {
    if result.name@ != WEATHER_TOOL_NAME@ {
        None
    } else {
        Some(
            outcome::one_block(
                result.name@,
                "weather"@,
                status,
                ToolEffect::ReadOnly,
                weather_block(result.output, status, texts),
                outcome::error_code(result.output),
                "weather"@,
            ),
        )
    }
}

pub fn tool_outcome_from_weather_result(
    result: &ToolExecutionResult,
    status: ToolOutcomeStatus,
    texts: &WeatherTexts,
) -> (r: Option<ToolExecutionOutcome>)
    ensures
        match weather_outcome(*result, status, *texts) {
            Some(view) => r matches Some(o) && o.shown() == view,
            None => r is None,
        },
{
    if !text::same(result.name.as_str(), WEATHER_TOOL_NAME) {
        return None;
    }
    let block = match status {
        ToolOutcomeStatus::Succeeded => ResponseBlock::FactCard {
            body: weather_fact_card(&result.output, texts),
        },
        ToolOutcomeStatus::Skipped => ResponseBlock::Warning {
            body: outcome::skip_body("天气查询", &result.output),
        },
        ToolOutcomeStatus::RequiresClarification => ResponseBlock::Clarification {
            body: CommandBody::plain("请说明要查询哪个城市的天气。"),
        },
        ToolOutcomeStatus::PendingConfirmation | ToolOutcomeStatus::Failed => ResponseBlock::Error {
            body: weather_error_body(&result.output),
        },
    };
    Some(
        outcome::one_block_outcome(
            result.name.as_str(),
            "weather",
            status,
            ToolEffect::ReadOnly,
            block,
            outcome::structured_error_code(&result.output),
            "weather",
        ),
    )
}

// Laws.

/// Neither form of the card is longer than a card may be.
pub proof fn weather_cards_are_short(output: Json, texts: WeatherTexts)
    ensures
        weather_card(output, texts).0.len() <= WEATHER_FACT_MAX_CHARS,
        weather_card(output, texts).1 is Some,
        weather_card(output, texts).1->0.len() <= WEATHER_FACT_MAX_CHARS,
{
}

} // verus!
