use vstd::prelude::*;
use crate::clock::{
    CivilDate, add_days, day_or_start, weekday_from_monday,
    weekday_index,
};
use crate::extract::{
    deref_opt, items, member_at, nth, rounded_or, safe_number, scaled_round,
    sub_of, truncated_or,
};
use crate::json::{Json, Member, safe_get};
use crate::number::Decimal;
use crate::sky::{SkyInfo, sky_display, skycon_info};

verus! {

/// Most hourly entries a forecast carries.
pub const MAX_HOURS: usize = 24;

/// Most daily entries a forecast carries.
pub const MAX_DAYS: usize = 3;

/// A value of the output: one taken over from the payload, or one made here.
#[derive(Debug)]
pub enum Carried<'a> {
    Given(&'a Json),
    Made(Json),
}

impl<'a> Carried<'a> {
    pub open spec fn value(self) -> Json {
        match self {
            Carried::Given(j) => *j,
            Carried::Made(j) => j,
        }
    }

    pub fn get(&self) -> (r: &Json)
        ensures
            *r == self.value(),
    {
        match self {
            Carried::Given(j) => j,
            Carried::Made(j) => j,
        }
    }
}

#[derive(Debug)]
pub struct WeatherCurrent<'a> {
    pub temperature: i64,
    pub apparent_temperature: i64,
    pub humidity: i64,
    pub wind_speed: i64,
    pub wind_direction: i64,
    pub pressure: i64,
    pub visibility: Carried<'a>,
    pub skycon: String,
    pub weather_info: SkyInfo,
    pub air_quality: Carried<'a>,
}

#[derive(Debug)]
pub struct HourlyEntry {
    pub time: u32,
    pub temperature: i64,
    pub skycon: String,
    pub weather_info: SkyInfo,
}

#[derive(Debug)]
pub struct LifeIndex<'a> {
    pub ultraviolet: Carried<'a>,
    pub car_washing: Carried<'a>,
    pub dressing: Carried<'a>,
    pub comfort: Carried<'a>,
    pub cold_risk: Carried<'a>,
}

#[derive(Debug)]
pub struct DailyEntry<'a> {
    pub date: String,
    pub weekday: String,
    pub relative_day: String,
    pub max_temp: i64,
    pub min_temp: i64,
    pub skycon: String,
    pub weather_info: SkyInfo,
    pub life_index: LifeIndex<'a>,
}

/// The normalized forecast handed to the front end.
#[derive(Debug)]
pub struct WeatherData<'a> {
    pub current: WeatherCurrent<'a>,
    pub hourly: Vec<HourlyEntry>,
    pub daily: Vec<DailyEntry<'a>>,
    pub forecast_keypoint: Carried<'a>,
}

/// Why an accepted payload could not be normalized.
#[derive(Clone, Copy, Debug, PartialEq, Eq)]
pub enum FormatError {
    MissingResult,
    MissingRealtime,
}

impl FormatError {
    /// The message shown for this failure.
    pub fn message(&self) -> (r: String)
        ensures
            *self == FormatError::MissingResult ==> r@ == "缺少 result"@,
            *self == FormatError::MissingRealtime ==> r@ == "缺少 realtime"@,
    {
        match self {
            FormatError::MissingResult => String::from_str("缺少 result"),
            FormatError::MissingRealtime => String::from_str("缺少 realtime"),
        }
    }
}

/// The sky code of a value, `CLEAR_DAY` where it is absent or not a string.
pub open spec fn code_or_clear(o: Option<Json>) -> Seq<char> {
    match o {
        Some(Json::Str(s)) => s@,
        _ => "CLEAR_DAY"@,
    }
}

/// Hour offset of a longitude: `longitude / 15`, rounded.
pub open spec fn tz_offset(longitude: Decimal) -> int {
    longitude.spec_round_ratio(1, 15)
}

/// Local hour at the provider's location when it is `utc_hour` in UTC.
pub open spec fn start_hour(utc_hour: int, longitude: Decimal) -> int {
    (utc_hour + tz_offset(longitude)) % 24
}

/// Hour tag of hourly entry `i`.
pub open spec fn hour_tag(start: int, i: int) -> int {
    (start + i) % 24
}

pub open spec fn relative_label(i: int) -> Seq<char> {
    if i == 0 {
        "今天"@
    } else if i == 1 {
        "明天"@
    } else if i == 2 {
        "后天"@
    } else {
        ""@
    }
}

pub open spec fn weekday_name(w: int) -> Seq<char> {
    if w == 0 {
        "周一"@
    } else if w == 1 {
        "周二"@
    } else if w == 2 {
        "周三"@
    } else if w == 3 {
        "周四"@
    } else if w == 4 {
        "周五"@
    } else if w == 5 {
        "周六"@
    } else {
        "周日"@
    }
}

pub open spec fn digit_char(d: int) -> char {
    ((d + 48) as u8) as char
}

/// `n` in two decimal digits.
pub open spec fn two_digits(n: int) -> Seq<char> {
    seq![digit_char(n / 10), digit_char(n % 10)]
}

/// `MM-DD` of a date.
pub open spec fn date_text(date: (int, int, int)) -> Seq<char> {
    two_digits(date.1) + seq!['-'] + two_digits(date.2)
}

/// The placeholder of a day without a life index: `{"index": "", "desc": ""}`.
pub open spec fn is_blank_index(j: Json) -> bool {
    match j {
        Json::Obj(ms) => ms@.len() == 2 && ms@[0].key@ == "index"@ && ms@[0].value.str_of()
            == Some(Seq::<char>::empty()) && ms@[1].key@ == "desc"@ && ms@[1].value.str_of()
            == Some(Seq::<char>::empty()),
        _ => false,
    }
}

/// A life-index entry carries the payload's value, or the placeholder where the payload
/// has none.
pub open spec fn carries_index(c: Carried, o: Option<Json>) -> bool {
    match o {
        Some(j) => c.value() == j,
        None => is_blank_index(c.value()),
    }
}

/// Entry `i` of the life-index series `key`.
pub open spec fn life_entry(life: Option<Json>, key: Seq<char>, i: int) -> Option<Json> {
    nth(items(member_at(life, key)), i)
}

pub open spec fn sky_matches(code: Seq<char>, info: SkyInfo) -> bool {
    (info.icon@, info.desc@) == sky_display(code)
}

impl HourlyEntry {
    /// This is hourly entry `i`, made of the temperature `t` and sky `k` samples.
    pub open spec fn describes(self, start: int, i: int, t: Json, k: Json) -> bool {
        &&& self.time == hour_tag(start, i)
        &&& self.temperature == rounded_or(t.field("value"@), 1, 1, 0)
        &&& self.skycon@ == code_or_clear(k.field("value"@))
        &&& sky_matches(self.skycon@, self.weather_info)
    }
}

fn digit_str(d: u32) -> (r: &'static str)
    requires
        d < 10,
    ensures
        r@ == seq![digit_char(d as int)],
{
    proof {
        reveal_strlit("0");
        reveal_strlit("1");
        reveal_strlit("2");
        reveal_strlit("3");
        reveal_strlit("4");
        reveal_strlit("5");
        reveal_strlit("6");
        reveal_strlit("7");
        reveal_strlit("8");
        reveal_strlit("9");
    }
    let r = if d == 0 {
        "0"
    } else if d == 1 {
        "1"
    } else if d == 2 {
        "2"
    } else if d == 3 {
        "3"
    } else if d == 4 {
        "4"
    } else if d == 5 {
        "5"
    } else if d == 6 {
        "6"
    } else if d == 7 {
        "7"
    } else if d == 8 {
        "8"
    } else {
        "9"
    };
    assert(r@ =~= seq![digit_char(d as int)]);
    r
}

/// `MM-DD` of a date.
pub fn format_date(date: &CivilDate) -> (r: String)
    requires
        date.month < 100,
        date.day < 100,
    ensures
        r@ == date_text(date.triple()),
{
    let mut s = String::from_str(digit_str(date.month / 10));
    s.append(digit_str(date.month % 10));
    s.append("-");
    s.append(digit_str(date.day / 10));
    s.append(digit_str(date.day % 10));
    proof {
        reveal_strlit("-");
        assert(s@ =~= date_text(date.triple()));
    }
    s
}

fn relative_str(i: usize) -> (r: &'static str)
    ensures
        r@ == relative_label(i as int),
{
    if i == 0 {
        "今天"
    } else if i == 1 {
        "明天"
    } else if i == 2 {
        "后天"
    } else {
        ""
    }
}

fn weekday_str(w: u32) -> (r: &'static str)
    ensures
        r@ == weekday_name(w as int),
{
    if w == 0 {
        "周一"
    } else if w == 1 {
        "周二"
    } else if w == 2 {
        "周三"
    } else if w == 3 {
        "周四"
    } else if w == 4 {
        "周五"
    } else if w == 5 {
        "周六"
    } else {
        "周日"
    }
}

/// The local hour at `longitude` when it is `utc_hour` in UTC, by the offset
/// `round(longitude / 15)`.
pub fn local_start_hour(utc_hour: u32, longitude: &Decimal) -> (r: u32)
    ensures
        r as int == start_hour(utc_hour as int, *longitude),
        r < 24,
{
    let off = longitude.round_ratio(1, 15);
    let x: i128 = utc_hour as i128 + off as i128;
    if x >= 0 {
        let m = (x as u128) % 24;
        m as u32
    } else {
        let y: u128 = (-x) as u128;
        let m = y % 24;
        proof {
            let xi = x as int;
            let yi = y as int;
            assert((xi % 24) == if m == 0 { 0 } else { 24 - m }) by (nonlinear_arith)
                requires
                    xi == -yi,
                    yi > 0,
                    m == yi % 24,
            ;
        }
        if m == 0 {
            0
        } else {
            (24 - m) as u32
        }
    }
}

/// Code of a sky sample: its `value` member, `CLEAR_DAY` where that is not a string.
fn sky_code<'a>(sample: Option<&'a Json>) -> (r: &'a str)
    ensures
        r@ == code_or_clear(member_at(deref_opt(sample), "value"@)),
{
    match sub_of(sample, "value") {
        Some(v) => match v.as_str() {
            Some(s) => s,
            None => "CLEAR_DAY",
        },
        None => "CLEAR_DAY",
    }
}

/// The hourly entries: one for each sample present in both series, at most
/// `MAX_HOURS`, tagged with hours counted on from `start`.
pub fn hourly_entries(temps: &Vec<Json>, skies: &Vec<Json>, start: u32) -> (r: Vec<HourlyEntry>)
    requires
        start < 24,
    ensures
        r@.len() == vstd::math::min(
            vstd::math::min(temps@.len() as int, skies@.len() as int),
            MAX_HOURS as int,
        ),
        forall|i: int|
            0 <= i < r@.len() ==> #[trigger] r@[i].describes(start as int, i, temps@[i], skies@[i]),
{
    let mut count = temps.len();
    if skies.len() < count {
        count = skies.len();
    }
    if MAX_HOURS < count {
        count = MAX_HOURS;
    }
    let mut out: Vec<HourlyEntry> = Vec::new();
    let mut i: usize = 0;
    while i < count
        invariant
            start < 24,
            i <= count,
            count <= temps@.len(),
            count <= skies@.len(),
            count <= MAX_HOURS,
            out@.len() == i,
            forall|j: int|
                0 <= j < i ==> #[trigger] out@[j].describes(start as int, j, temps@[j], skies@[j]),
        decreases count - i,
    {
        let temperature = scaled_round(temps[i].get("value"), 1, 1, 0);
        let code = sky_code(Some(&skies[i]));
        let hour = (start + i as u32) % 24;
        out.push(
            HourlyEntry {
                time: hour,
                temperature,
                skycon: String::from_str(code),
                weather_info: skycon_info(code),
            },
        );
        i = i + 1;
    }
    out
}

impl<'a> DailyEntry<'a> {
    /// This is daily entry `i`, made of the temperature sample `t`, the sky sample `k`
    /// and the life-index block `life`, for the day `i` days after `today`.
    pub open spec fn describes(
        self,
        i: int,
        today: CivilDate,
        t: Json,
        k: Option<Json>,
        life: Option<Json>,
    ) -> bool {
        let d = day_or_start(today, i);
        &&& self.date@ == date_text(d)
        &&& self.weekday@ == weekday_name(weekday_from_monday(d))
        &&& self.relative_day@ == relative_label(i)
        &&& self.max_temp == rounded_or(t.field("max"@), 1, 1, 0)
        &&& self.min_temp == rounded_or(t.field("min"@), 1, 1, 0)
        &&& self.skycon@ == code_or_clear(member_at(k, "value"@))
        &&& sky_matches(self.skycon@, self.weather_info)
        &&& carries_index(self.life_index.ultraviolet, life_entry(life, "ultraviolet"@, i))
        &&& carries_index(self.life_index.car_washing, life_entry(life, "carWashing"@, i))
        &&& carries_index(self.life_index.dressing, life_entry(life, "dressing"@, i))
        &&& carries_index(self.life_index.comfort, life_entry(life, "comfort"@, i))
        &&& carries_index(self.life_index.cold_risk, life_entry(life, "coldRisk"@, i))
    }
}

/// `{"index": "", "desc": ""}`.
fn blank_index() -> (r: Json)
    ensures
        is_blank_index(r),
{
    let mut ms: Vec<Member> = Vec::new();
    ms.push(Member { key: String::from_str("index"), value: Json::Str(String::new()) });
    ms.push(Member { key: String::from_str("desc"), value: Json::Str(String::new()) });
    Json::Obj(ms)
}

/// Entry `i` of the life-index series `key`, or the placeholder.
fn life_value<'a>(life: Option<&'a Json>, key: &str, i: usize) -> (r: Carried<'a>)
    ensures
        carries_index(r, life_entry(deref_opt(life), key@, i as int)),
{
    match sub_of(life, key) {
        Some(Json::Arr(a)) => {
            if i < a.len() {
                Carried::Given(&a[i])
            } else {
                Carried::Made(blank_index())
            }
        },
        _ => Carried::Made(blank_index()),
    }
}

/// The elements of an optional array, or `empty`.
fn array_or<'b>(o: Option<&'b Json>, empty: &'b Vec<Json>) -> (r: &'b Vec<Json>)
    requires
        empty@.len() == 0,
    ensures
        r@ == items(deref_opt(o)),
{
    match o {
        Some(Json::Arr(a)) => a,
        _ => {
            assert(empty@ =~= Seq::<Json>::empty());
            empty
        },
    }
}

/// The daily entries: one for each temperature sample, at most `MAX_DAYS`, dated from
/// `today` on.
pub fn daily_entries<'a>(
    temps: &Vec<Json>,
    skies: &Vec<Json>,
    life: Option<&'a Json>,
    today: &CivilDate,
) -> (r: Vec<DailyEntry<'a>>)
    requires
        today.valid(),
    ensures
        r@.len() == vstd::math::min(temps@.len() as int, MAX_DAYS as int),
        forall|i: int|
            0 <= i < r@.len() ==> #[trigger] r@[i].describes(
                i,
                *today,
                temps@[i],
                nth(skies@, i),
                deref_opt(life),
            ),
{
    let mut count = temps.len();
    if MAX_DAYS < count {
        count = MAX_DAYS;
    }
    let mut out: Vec<DailyEntry<'a>> = Vec::new();
    let mut i: usize = 0;
    while i < count
        invariant
            today.valid(),
            i <= count,
            count <= temps@.len(),
            count <= MAX_DAYS,
            out@.len() == i,
            forall|j: int|
                0 <= j < i ==> #[trigger] out@[j].describes(
                    j,
                    *today,
                    temps@[j],
                    nth(skies@, j),
                    deref_opt(life),
                ),
        decreases count - i,
    {
        let date = match add_days(today, i as u64) {
            Some(d) => d,
            None => *today,
        };
        let weekday = weekday_index(&date);
        let sample = if i < skies.len() {
            Some(&skies[i])
        } else {
            None
        };
        let code = sky_code(sample);
        let entry = DailyEntry {
            date: format_date(&date),
            weekday: String::from_str(weekday_str(weekday)),
            relative_day: String::from_str(relative_str(i)),
            max_temp: scaled_round(temps[i].get("max"), 1, 1, 0),
            min_temp: scaled_round(temps[i].get("min"), 1, 1, 0),
            skycon: String::from_str(code),
            weather_info: skycon_info(code),
            life_index: LifeIndex {
                ultraviolet: life_value(life, "ultraviolet", i),
                car_washing: life_value(life, "carWashing", i),
                dressing: life_value(life, "dressing", i),
                comfort: life_value(life, "comfort", i),
                cold_risk: life_value(life, "coldRisk", i),
            },
        };
        assert(deref_opt(sample) == nth(skies@, i as int));
        out.push(entry);
        i = i + 1;
    }
    out
}

/// A value, `null` where it is absent.
pub open spec fn or_null(o: Option<Json>) -> Json {
    match o {
        Some(j) => j,
        None => Json::Null,
    }
}

impl<'a> WeatherCurrent<'a> {
    /// These are the current conditions read from the `realtime` block `rt`.
    pub open spec fn describes(self, rt: Json) -> bool {
        &&& self.temperature == rounded_or(rt.field("temperature"@), 1, 1, 0)
        &&& self.apparent_temperature == rounded_or(rt.field("apparent_temperature"@), 1, 1, 0)
        &&& self.humidity == rounded_or(rt.at_path("humidity"@), 100, 1, 0)
        &&& self.wind_speed == rounded_or(rt.at_path("wind.speed"@), 36, 10, 0)
        &&& self.wind_direction == truncated_or(rt.at_path("wind.direction"@), 0)
        &&& self.pressure == rounded_or(rt.at_path("pressure"@), 1, 100, 1013)
        &&& self.visibility.value() == or_null(rt.field("visibility"@))
        &&& self.skycon@ == code_or_clear(rt.field("skycon"@))
        &&& sky_matches(self.skycon@, self.weather_info)
        &&& self.air_quality.value() == or_null(rt.field("air_quality"@))
    }
}

impl<'a> WeatherData<'a> {
    /// The fixed shape every forecast has, live or simulated: at most `MAX_HOURS`
    /// hourly entries tagged with hours of the day, at most `MAX_DAYS` daily entries
    /// labelled by their position.
    pub open spec fn conforms(self) -> bool {
        &&& self.hourly@.len() <= MAX_HOURS
        &&& forall|i: int| 0 <= i < self.hourly@.len() ==> #[trigger] self.hourly@[i].time < 24
        &&& self.daily@.len() <= MAX_DAYS
        &&& forall|i: int|
            0 <= i < self.daily@.len() ==> #[trigger] self.daily@[i].relative_day@
                == relative_label(i)
    }

    /// This is the forecast made of the `result` block `res` with its `realtime` block
    /// `rt`, at `longitude`, when it is `utc_hour` in UTC and `today` here.
    pub open spec fn normalizes(
        self,
        res: Json,
        rt: Json,
        longitude: Decimal,
        utc_hour: int,
        today: CivilDate,
    ) -> bool {
        let hb = res.field("hourly"@);
        let temps = items(member_at(hb, "temperature"@));
        let skies = items(member_at(hb, "skycon"@));
        let db = res.field("daily"@);
        let dtemps = items(member_at(db, "temperature"@));
        let dskies = items(member_at(db, "skycon"@));
        let life = member_at(db, "life_index"@);
        let start = start_hour(utc_hour, longitude);
        &&& self.current.describes(rt)
        &&& match res.field("forecast_keypoint"@) {
            Some(j) => self.forecast_keypoint.value() == j,
            None => self.forecast_keypoint.value().str_of() == Some("天气提示"@),
        }
        &&& self.hourly@.len() == vstd::math::min(
            vstd::math::min(temps.len() as int, skies.len() as int),
            MAX_HOURS as int,
        )
        &&& forall|i: int|
            0 <= i < self.hourly@.len() ==> #[trigger] self.hourly@[i].describes(
                start,
                i,
                temps[i],
                skies[i],
            )
        &&& self.daily@.len() == vstd::math::min(dtemps.len() as int, MAX_DAYS as int)
        &&& forall|i: int|
            0 <= i < self.daily@.len() ==> #[trigger] self.daily@[i].describes(
                i,
                today,
                dtemps[i],
                nth(dskies, i),
                life,
            )
    }
}

fn carried_or_null<'a>(o: Option<&'a Json>) -> (r: Carried<'a>)
    ensures
        r.value() == or_null(deref_opt(o)),
{
    match o {
        Some(j) => Carried::Given(j),
        None => Carried::Made(Json::Null),
    }
}

/// The current conditions of a `realtime` block.
pub fn current_conditions<'a>(rt: &'a Json) -> (r: WeatherCurrent<'a>)
    ensures
        r.describes(*rt),
{
    let code = match rt.get("skycon") {
        Some(v) => match v.as_str() {
            Some(s) => s,
            None => "CLEAR_DAY",
        },
        None => "CLEAR_DAY",
    };
    WeatherCurrent {
        temperature: scaled_round(rt.get("temperature"), 1, 1, 0),
        apparent_temperature: scaled_round(rt.get("apparent_temperature"), 1, 1, 0),
        humidity: scaled_round(safe_get(rt, "humidity"), 100, 1, 0),
        wind_speed: scaled_round(safe_get(rt, "wind.speed"), 36, 10, 0),
        wind_direction: match safe_get(rt, "wind.direction") {
            Some(v) => safe_number(v, 0),
            None => 0,
        },
        pressure: scaled_round(safe_get(rt, "pressure"), 1, 100, 1013),
        visibility: carried_or_null(rt.get("visibility")),
        skycon: String::from_str(code),
        weather_info: skycon_info(code),
        air_quality: carried_or_null(rt.get("air_quality")),
    }
}

/// Normalizes a weather payload at `longitude`, when it is `utc_hour` in UTC and
/// `today` here. Fails only where the `result` or its `realtime` block is missing.
pub fn format_weather_data<'a>(
    raw: &'a Json,
    longitude: &Decimal,
    utc_hour: u32,
    today: &CivilDate,
) -> (r: Result<WeatherData<'a>, FormatError>)
    requires
        utc_hour < 24,
        today.valid(),
    ensures
        match raw.field("result"@) {
            None => r matches Err(e) && e == FormatError::MissingResult,
            Some(res) => match res.field("realtime"@) {
                None => r matches Err(e) && e == FormatError::MissingRealtime,
                Some(rt) => r matches Ok(w) && w.normalizes(
                    res,
                    rt,
                    *longitude,
                    utc_hour as int,
                    *today,
                ) && w.conforms(),
            },
        },
{
    let result = match raw.get("result") {
        Some(x) => x,
        None => {
            return Err(FormatError::MissingResult);
        },
    };
    let realtime = match result.get("realtime") {
        Some(x) => x,
        None => {
            return Err(FormatError::MissingRealtime);
        },
    };
    let current = current_conditions(realtime);
    let forecast_keypoint = match result.get("forecast_keypoint") {
        Some(j) => Carried::Given(j),
        None => Carried::Made(Json::Str(String::from_str("天气提示"))),
    };
    let hb = result.get("hourly");
    let db = result.get("daily");
    let no_hours: Vec<Json> = Vec::new();
    let no_skies: Vec<Json> = Vec::new();
    let no_days: Vec<Json> = Vec::new();
    let no_day_skies: Vec<Json> = Vec::new();
    let temps = array_or(sub_of(hb, "temperature"), &no_hours);
    let skies = array_or(sub_of(hb, "skycon"), &no_skies);
    let start = local_start_hour(utc_hour, longitude);
    let hourly = hourly_entries(temps, skies, start);
    let dtemps = array_or(sub_of(db, "temperature"), &no_days);
    let dskies = array_or(sub_of(db, "skycon"), &no_day_skies);
    let life = sub_of(db, "life_index");
    let daily = daily_entries(dtemps, dskies, life, today);
    let w = WeatherData { current, hourly, daily, forecast_keypoint };
    proof {
        assert forall|i: int| 0 <= i < w.hourly@.len() implies #[trigger] w.hourly@[i].time < 24 by {
            assert(w.hourly@[i].describes(start as int, i, temps@[i], skies@[i]));
        }
        assert forall|i: int| 0 <= i < w.daily@.len() implies #[trigger] w.daily@[i].relative_day@
            == relative_label(i) by {
            assert(w.daily@[i].describes(i, *today, dtemps@[i], nth(dskies@, i), deref_opt(life)));
        }
    }
    Ok(w)
}

/// The provider signals success: `status` is `"ok"`, or a `result` block is present.
pub open spec fn weather_accepted(raw: Json) -> bool {
    ||| (raw.field("status"@) matches Some(j) && j.str_of() == Some("ok"@))
    ||| raw.field("result"@) is Some
}

/// The outcome of normalizing the weather provider's answer `raw`: the simulated
/// forecast where the answer carries no success signal (a provider failure is never
/// surfaced), else what `format_weather_data` gives.
pub open spec fn weather_outcome<'a>(
    raw: Json,
    longitude: Decimal,
    utc_hour: int,
    today: CivilDate,
    r: Result<WeatherData<'a>, FormatError>,
) -> bool {
    if !weather_accepted(raw) {
        r matches Ok(w) && w.is_simulated()
    } else {
        match raw.field("result"@) {
            None => r matches Err(e) && e == FormatError::MissingResult,
            Some(res) => match res.field("realtime"@) {
                None => r matches Err(e) && e == FormatError::MissingRealtime,
                Some(rt) => r matches Ok(w) && w.normalizes(res, rt, longitude, utc_hour, today)
                    && w.conforms(),
            },
        }
    }
}

/// Normalizes the weather provider's answer. Where it signals no success the
/// simulated forecast, the one default of the same shape, is served instead; only a
/// `result` block without its `realtime` part fails.
pub fn weather_from_payload<'a>(
    raw: &'a Json,
    longitude: &Decimal,
    utc_hour: u32,
    today: &CivilDate,
) -> (r: Result<WeatherData<'a>, FormatError>)
    requires
        utc_hour < 24,
        today.valid(),
    ensures
        weather_outcome(*raw, *longitude, utc_hour as int, *today, r),
        r matches Ok(w) ==> w.conforms(),
{
    let ok_status = match raw.get("status") {
        Some(j) => match j.as_str() {
            Some(t) => crate::text::str_eq(t, "ok"),
            None => false,
        },
        None => false,
    };
    if !ok_status && raw.get("result").is_none() {
        return Ok(simulated_weather());
    }
    format_weather_data(raw, longitude, utc_hour, today)
}

fn text(s: &str) -> (r: Json)
    ensures
        r.str_of() == Some(s@),
{
    Json::Str(String::from_str(s))
}

fn member(key: &str, value: Json) -> (r: Member)
    ensures
        r.key@ == key@,
        r.value == value,
{
    Member { key: String::from_str(key), value }
}

fn object1(k: &str, v: Json) -> (r: Json)
    ensures
        r matches Json::Obj(ms) && ms@.len() == 1 && ms@[0].key@ == k@ && ms@[0].value == v,
{
    let mut ms: Vec<Member> = Vec::new();
    ms.push(member(k, v));
    Json::Obj(ms)
}

fn sim_sky() -> (r: SkyInfo)
    ensures
        r.icon@ == "?"@,
        r.desc@ == "中雨"@,
{
    SkyInfo { icon: String::from_str("?"), desc: String::from_str("中雨") }
}

/// A whole number.
pub open spec fn is_int(j: Json, n: int) -> bool {
    j matches Json::Num(d) && d.spec_mantissa() == n && d.spec_scale() == 0
}

/// `{key: v}` with `v` the whole number `n`.
pub open spec fn is_single_int(j: Json, key: Seq<char>, n: int) -> bool {
    j matches Json::Obj(ms) && ms@.len() == 1 && ms@[0].key@ == key && is_int(ms@[0].value, n)
}

/// `{key: v}` with `v` the text `t`.
pub open spec fn is_single_text(j: Json, key: Seq<char>, t: Seq<char>) -> bool {
    j matches Json::Obj(ms) && ms@.len() == 1 && ms@[0].key@ == key && ms@[0].value.str_of()
        == Some(t)
}

/// `{"index": index, "desc": desc}`.
pub open spec fn is_index_pair(j: Json, index: Seq<char>, desc: Seq<char>) -> bool {
    match j {
        Json::Obj(ms) => ms@.len() == 2 && ms@[0].key@ == "index"@ && ms@[0].value.str_of()
            == Some(index) && ms@[1].key@ == "desc"@ && ms@[1].value.str_of() == Some(desc),
        _ => false,
    }
}

/// The simulated air-quality block:
/// `{"aqi": {"chn": 14}, "description": {"chn": "优"}, "pm25": 9, "pm10": 14, "o3": 19}`.
pub open spec fn is_simulated_air(j: Json) -> bool {
    match j {
        Json::Obj(ms) => {
            &&& ms@.len() == 5
            &&& ms@[0].key@ == "aqi"@ && is_single_int(ms@[0].value, "chn"@, 14)
            &&& ms@[1].key@ == "description"@ && is_single_text(ms@[1].value, "chn"@, "优"@)
            &&& ms@[2].key@ == "pm25"@ && is_int(ms@[2].value, 9)
            &&& ms@[3].key@ == "pm10"@ && is_int(ms@[3].value, 14)
            &&& ms@[4].key@ == "o3"@ && is_int(ms@[4].value, 19)
        },
        _ => false,
    }
}

pub open spec fn is_simulated_sky(code: String, info: SkyInfo) -> bool {
    code@ == "MODERATE_RAIN"@ && info.icon@ == "?"@ && info.desc@ == "中雨"@
}

impl<'a> WeatherData<'a> {
    /// This is the fixed forecast of degraded mode: every field has the value below.
    pub open spec fn is_simulated(self) -> bool {
        let c = self.current;
        let d = self.daily@[0];
        &&& c.temperature == 26 && c.apparent_temperature == 30 && c.humidity == 87
        &&& c.wind_speed == 28 && c.wind_direction == 0 && c.pressure == 1007
        &&& c.visibility.value() matches Json::Num(v) && v.spec_mantissa() == 526
            && v.spec_scale() == 2
        &&& is_simulated_sky(c.skycon, c.weather_info)
        &&& is_simulated_air(c.air_quality.value())
        &&& self.hourly@.len() == MAX_HOURS
        &&& forall|i: int|
            0 <= i < self.hourly@.len() ==> (#[trigger] self.hourly@[i]).time == i
                && self.hourly@[i].temperature == 26 && is_simulated_sky(
                self.hourly@[i].skycon,
                self.hourly@[i].weather_info,
            )
        &&& self.daily@.len() == 1
        &&& d.date@ == "今日"@ && d.weekday@ == "周几"@ && d.relative_day@ == "今天"@
        &&& d.max_temp == 29 && d.min_temp == 24
        &&& is_simulated_sky(d.skycon, d.weather_info)
        &&& is_index_pair(d.life_index.ultraviolet.value(), "中"@, "注意防晒"@)
        &&& is_blank_index(d.life_index.car_washing.value())
        &&& is_blank_index(d.life_index.dressing.value())
        &&& is_blank_index(d.life_index.comfort.value())
        &&& is_blank_index(d.life_index.cold_risk.value())
        &&& self.forecast_keypoint.value().str_of() == Some("注意携带雨具"@)
    }
}

/// The fixed forecast served while no weather provider is configured.
pub fn simulated_weather() -> (r: WeatherData<'static>)
    ensures
        r.is_simulated(),
        r.conforms(),
{
    let mut aq: Vec<Member> = Vec::new();
    aq.push(member("aqi", object1("chn", Json::Num(Decimal::from_int(14)))));
    aq.push(member("description", object1("chn", text("优"))));
    aq.push(member("pm25", Json::Num(Decimal::from_int(9))));
    aq.push(member("pm10", Json::Num(Decimal::from_int(14))));
    aq.push(member("o3", Json::Num(Decimal::from_int(19))));
    let visibility = match Decimal::new(526, 2) {
        Some(d) => Json::Num(d),
        None => Json::Null,
    };
    let current = WeatherCurrent {
        temperature: 26,
        apparent_temperature: 30,
        humidity: 87,
        wind_speed: 28,
        wind_direction: 0,
        pressure: 1007,
        visibility: Carried::Made(visibility),
        skycon: String::from_str("MODERATE_RAIN"),
        weather_info: sim_sky(),
        air_quality: Carried::Made(Json::Obj(aq)),
    };
    let mut hourly: Vec<HourlyEntry> = Vec::new();
    let mut i: u32 = 0;
    while i < 24
        invariant
            i <= 24,
            hourly@.len() == i,
            forall|j: int|
                0 <= j < i ==> (#[trigger] hourly@[j]).time == j && hourly@[j].temperature == 26
                    && is_simulated_sky(hourly@[j].skycon, hourly@[j].weather_info),
        decreases 24 - i,
    {
        hourly.push(
            HourlyEntry {
                time: i,
                temperature: 26,
                skycon: String::from_str("MODERATE_RAIN"),
                weather_info: sim_sky(),
            },
        );
        i = i + 1;
    }
    let mut uv: Vec<Member> = Vec::new();
    uv.push(member("index", text("中")));
    uv.push(member("desc", text("注意防晒")));
    let day = DailyEntry {
        date: String::from_str("今日"),
        weekday: String::from_str("周几"),
        relative_day: String::from_str(relative_str(0)),
        max_temp: 29,
        min_temp: 24,
        skycon: String::from_str("MODERATE_RAIN"),
        weather_info: sim_sky(),
        life_index: LifeIndex {
            ultraviolet: Carried::Made(Json::Obj(uv)),
            car_washing: Carried::Made(blank_index()),
            dressing: Carried::Made(blank_index()),
            comfort: Carried::Made(blank_index()),
            cold_risk: Carried::Made(blank_index()),
        },
    };
    let mut daily: Vec<DailyEntry<'static>> = Vec::new();
    daily.push(day);
    WeatherData {
        current,
        hourly,
        daily,
        forecast_keypoint: Carried::Made(text("注意携带雨具")),
    }
}

/// What the gateway does for a weather request.
#[derive(Debug)]
pub enum WeatherStep {
    /// Serve this fixed forecast; no provider is asked.
    Simulated(WeatherData<'static>),
    /// Ask the weather provider and hand its answer to `weather_from_payload`.
    Fetch,
}

/// Without a weather credential the simulated forecast is served, in the same shape as
/// a live one.
pub fn weather_start(has_credential: bool) -> (r: WeatherStep)
    ensures
        r is Fetch <==> has_credential,
        r matches WeatherStep::Simulated(w) ==> w.is_simulated() && w.conforms(),
{
    if has_credential {
        WeatherStep::Fetch
    } else {
        WeatherStep::Simulated(simulated_weather())
    }
}

/// Hour tags are hours of the day and cycle with period 24: entry `i + 24` would
/// carry the tag of entry `i`, and each entry's tag is one past its predecessor's.
pub proof fn hour_tags_cycle(start: int, i: int)
    requires
        0 <= start < 24,
        i >= 0,
    ensures
        0 <= hour_tag(start, i) < 24,
        hour_tag(start, i + 24) == hour_tag(start, i),
        hour_tag(start, i + 1) == (hour_tag(start, i) + 1) % 24,
        hour_tag(start, 0) == start,
{
    assert((start + i + 24) % 24 == (start + i) % 24) by (nonlinear_arith);
    assert((start + i + 1) % 24 == ((start + i) % 24 + 1) % 24) by (nonlinear_arith);
}

/// Daily entries are labelled today, tomorrow and the day after, by position; no
/// position past those has a label, and no forecast carries one.
pub proof fn relative_day_labels(w: WeatherData, i: int)
    requires
        w.conforms(),
        0 <= i < w.daily@.len(),
    ensures
        i < MAX_DAYS,
        i == 0 ==> w.daily@[i].relative_day@ == "今天"@,
        i == 1 ==> w.daily@[i].relative_day@ == "明天"@,
        i == 2 ==> w.daily@[i].relative_day@ == "后天"@,
{
    assert(w.daily@[i].relative_day@ == relative_label(i));
}

} // verus!
