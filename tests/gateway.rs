use weather_gateway::clock::CivilDate;
use weather_gateway::extract::{safe_number, safe_round};
use weather_gateway::json::{safe_get, Json, Member};
use weather_gateway::location::{
    clean_ip, client_address, geocode_next, geocode_start, ip_location, ip_start,
    parse_location, sanitize_ip, search_results, search_start, GeoProvider, GeoStep, IpStep,
    SearchError, SearchStep,
};
use weather_gateway::number::{parse_decimal, Decimal};
use weather_gateway::sky::skycon_info;
use weather_gateway::weather::{
    format_weather_data, local_start_hour, simulated_weather, weather_from_payload,
    weather_start, Carried, FormatError, WeatherStep,
};

fn num(text: &str) -> Json {
    Json::Num(parse_decimal(text).unwrap())
}

fn s(text: &str) -> Json {
    Json::Str(text.to_string())
}

fn obj(members: Vec<(&str, Json)>) -> Json {
    Json::Obj(
        members
            .into_iter()
            .map(|(k, v)| Member { key: k.to_string(), value: v })
            .collect(),
    )
}

fn dec(m: i64, scale: u32) -> Decimal {
    Decimal::new(m, scale).unwrap()
}

fn today() -> CivilDate {
    CivilDate { year: 2024, month: 2, day: 28 }
}

fn payload(realtime: Json) -> Json {
    obj(vec![("status", s("ok")), ("result", obj(vec![("realtime", realtime)]))])
}

fn given_text(c: &Carried) -> Option<String> {
    match c.get() {
        Json::Str(t) => Some(t.clone()),
        _ => None,
    }
}

#[test]
fn skycon_known_codes() {
    let i = skycon_info("CLEAR_DAY");
    assert_eq!(i.icon, "☀️");
    assert_eq!(i.desc, "晴");
    let i = skycon_info("MODERATE_HAZE");
    assert_eq!(i.icon, "🌫️");
    assert_eq!(i.desc, "中度霾");
    let i = skycon_info("WIND");
    assert_eq!(i.desc, "大风");
    assert!(skycon_info("PARTLY_CLOUDY_NIGHT").icon.contains("icon-stacked"));
}

#[test]
fn skycon_unknown_code_echoes() {
    let i = skycon_info("THUNDER");
    assert_eq!(i.icon, "?");
    assert_eq!(i.desc, "THUNDER");
    let i = skycon_info("");
    assert_eq!(i.desc, "");
}

#[test]
fn round_ties_away_from_zero() {
    assert_eq!(safe_round(&num("2.5"), 0), 3);
    assert_eq!(safe_round(&num("-2.5"), 0), -3);
    assert_eq!(safe_round(&num("2.4"), 0), 2);
    assert_eq!(safe_round(&num("-0.5"), 0), -1);
    assert_eq!(safe_round(&num("0.49"), 0), 0);
}

#[test]
fn absent_or_non_numeric_gives_default() {
    assert_eq!(safe_round(&Json::Null, 7), 7);
    assert_eq!(safe_round(&s("12"), -3), -3);
    assert_eq!(safe_number(&Json::Bool(true), 5), 5);
}

#[test]
fn truncation_toward_zero() {
    assert_eq!(safe_number(&num("-2.7"), 0), -2);
    assert_eq!(safe_number(&num("359.9"), 0), 359);
}

#[test]
fn unit_conversions() {
    let rt = obj(vec![
        ("humidity", num("0.87")),
        ("wind", obj(vec![("speed", num("7.78")), ("direction", num("123.9"))])),
        ("pressure", num("100700")),
        ("temperature", num("25.5")),
    ]);
    let raw = payload(rt);
    let w = format_weather_data(&raw, &dec(0, 0), 0, &today()).unwrap();
    assert_eq!(w.current.humidity, 87);
    assert_eq!(w.current.wind_speed, 28);
    assert_eq!(w.current.wind_direction, 123);
    assert_eq!(w.current.pressure, 1007);
    assert_eq!(w.current.temperature, 26);
}

#[test]
fn current_defaults() {
    let raw = payload(obj(vec![]));
    let w = format_weather_data(&raw, &dec(0, 0), 0, &today()).unwrap();
    assert_eq!(w.current.pressure, 1013);
    assert_eq!(w.current.temperature, 0);
    assert_eq!(w.current.humidity, 0);
    assert_eq!(w.current.wind_speed, 0);
    assert_eq!(w.current.skycon, "CLEAR_DAY");
    assert_eq!(w.current.weather_info.desc, "晴");
    assert!(matches!(w.current.visibility.get(), Json::Null));
    assert_eq!(given_text(&w.forecast_keypoint), Some("天气提示".to_string()));
    assert!(w.hourly.is_empty());
    assert!(w.daily.is_empty());
}

#[test]
fn format_needs_result_and_realtime() {
    let raw = obj(vec![("status", s("ok"))]);
    assert!(matches!(
        format_weather_data(&raw, &dec(0, 0), 0, &today()),
        Err(FormatError::MissingResult)
    ));
    let raw = obj(vec![("result", obj(vec![("hourly", obj(vec![]))]))]);
    assert!(matches!(
        format_weather_data(&raw, &dec(0, 0), 0, &today()),
        Err(FormatError::MissingRealtime)
    ));
}

#[test]
fn start_hour_from_longitude() {
    assert_eq!(local_start_hour(20, &dec(120, 0)), 4);
    assert_eq!(local_start_hour(2, &dec(-75, 0)), 21);
    assert_eq!(local_start_hour(0, &dec(1164074, 4)), 8);
    assert_eq!(local_start_hour(5, &dec(-1800, 1)), 17);
}

#[test]
fn hourly_tags_wrap_around() {
    let sample = |v: Json| obj(vec![("value", v)]);
    let temps: Vec<Json> = (0..30).map(|i| sample(num(&format!("{}.5", i)))).collect();
    let skies: Vec<Json> = (0..26).map(|_| sample(s("CLOUDY"))).collect();
    let raw = obj(vec![(
        "result",
        obj(vec![
            ("realtime", obj(vec![])),
            ("hourly", obj(vec![("temperature", Json::Arr(temps)), ("skycon", Json::Arr(skies))])),
        ]),
    )]);
    let w = format_weather_data(&raw, &dec(0, 0), 22, &today()).unwrap();
    assert_eq!(w.hourly.len(), 24);
    let tags: Vec<u32> = w.hourly.iter().map(|h| h.time).collect();
    assert_eq!(&tags[..4], &[22, 23, 0, 1]);
    assert!(tags.iter().all(|t| *t < 24));
    assert_eq!(w.hourly[0].temperature, 1);
    assert_eq!(w.hourly[3].temperature, 4);
    assert_eq!(w.hourly[5].weather_info.desc, "阴");
}

#[test]
fn daily_labels_and_dates() {
    let day = |max: &str, min: &str| obj(vec![("max", num(max)), ("min", num(min))]);
    let uv: Vec<Json> = vec![obj(vec![("index", s("3")), ("desc", s("中等"))])];
    let raw = obj(vec![(
        "result",
        obj(vec![
            ("realtime", obj(vec![])),
            (
                "daily",
                obj(vec![
                    (
                        "temperature",
                        Json::Arr(vec![day("30.4", "20.6"), day("31", "21"), day("32", "22"), day("33", "23")]),
                    ),
                    ("skycon", Json::Arr(vec![obj(vec![("value", s("LIGHT_RAIN"))])])),
                    ("life_index", obj(vec![("ultraviolet", Json::Arr(uv))])),
                ]),
            ),
        ]),
    )]);
    let w = format_weather_data(&raw, &dec(0, 0), 0, &today()).unwrap();
    assert_eq!(w.daily.len(), 3);
    let labels: Vec<&str> = w.daily.iter().map(|d| d.relative_day.as_str()).collect();
    assert_eq!(labels, vec!["今天", "明天", "后天"]);
    let dates: Vec<&str> = w.daily.iter().map(|d| d.date.as_str()).collect();
    assert_eq!(dates, vec!["02-28", "02-29", "03-01"]);
    let weekdays: Vec<&str> = w.daily.iter().map(|d| d.weekday.as_str()).collect();
    assert_eq!(weekdays, vec!["周三", "周四", "周五"]);
    assert_eq!(w.daily[0].max_temp, 30);
    assert_eq!(w.daily[0].min_temp, 21);
    assert_eq!(w.daily[0].skycon, "LIGHT_RAIN");
    assert_eq!(w.daily[1].skycon, "CLEAR_DAY");
    match w.daily[0].life_index.ultraviolet.get() {
        Json::Obj(ms) => assert_eq!(ms[0].key, "index"),
        _ => panic!("life index entry expected"),
    }
    match w.daily[1].life_index.ultraviolet.get() {
        Json::Obj(ms) => {
            assert_eq!(ms.len(), 2);
            assert!(matches!(&ms[0].value, Json::Str(t) if t.is_empty()));
        }
        _ => panic!("placeholder expected"),
    }
}

#[test]
fn weather_payload_acceptance() {
    let raw = obj(vec![("status", s("failed"))]);
    let w = weather_from_payload(&raw, &dec(1164, 1), 3, &today()).unwrap();
    assert_eq!(w.current.temperature, 26);
    assert_eq!(w.hourly.len(), 24);
    assert_eq!(given_text(&w.forecast_keypoint), Some("注意携带雨具".to_string()));
    let w = weather_from_payload(&Json::Null, &dec(0, 0), 0, &today()).unwrap();
    assert_eq!(w.current.pressure, 1007);
    let raw = obj(vec![("status", s("ok"))]);
    let e = weather_from_payload(&raw, &dec(0, 0), 0, &today()).err().unwrap();
    assert_eq!(e, FormatError::MissingResult);
    assert_eq!(e.message(), "缺少 result");
    assert_eq!(FormatError::MissingRealtime.message(), "缺少 realtime");
    let raw = obj(vec![("result", obj(vec![("realtime", obj(vec![("skycon", s("FOG"))]))]))]);
    let w = weather_from_payload(&raw, &dec(0, 0), 0, &today()).unwrap();
    assert_eq!(w.current.weather_info.desc, "雾");
}

#[test]
fn simulated_forecast_has_live_shape() {
    let w = simulated_weather();
    assert_eq!(w.current.temperature, 26);
    assert_eq!(w.current.humidity, 87);
    assert_eq!(w.current.pressure, 1007);
    assert_eq!(w.hourly.len(), 24);
    assert_eq!(w.hourly[23].time, 23);
    assert!(w.hourly.iter().all(|h| h.temperature == 26 && h.skycon == "MODERATE_RAIN"));
    assert!(matches!(w.current.visibility.get(), Json::Num(d) if *d == dec(526, 2)));
    assert_eq!(given_text(&w.forecast_keypoint), Some("注意携带雨具".to_string()));
    assert_eq!(w.daily[0].max_temp, 29);
    assert_eq!(w.daily.len(), 1);
    assert_eq!(w.daily[0].relative_day, "今天");
    assert!(matches!(weather_start(true), WeatherStep::Fetch));
    assert!(matches!(weather_start(false), WeatherStep::Simulated(_)));
}

#[test]
fn geocode_first_provider_short_circuits() {
    assert!(matches!(geocode_start(), GeoStep::Query(GeoProvider::CityLookup)));
    let resp = obj(vec![("data", obj(vec![("city", s("杭州")), ("openCityName", s("杭州市"))]))]);
    match geocode_next(GeoProvider::CityLookup, Some(&resp), true) {
        GeoStep::Answer(a) => assert_eq!(a, "杭州市"),
        _ => panic!("answer expected"),
    }
    let resp = obj(vec![("data", Json::Null)]);
    match geocode_next(GeoProvider::CityLookup, Some(&resp), true) {
        GeoStep::Answer(a) => assert_eq!(a, "未知位置"),
        _ => panic!("answer expected"),
    }
}

#[test]
fn geocode_falls_back_then_defaults() {
    let resp = obj(vec![("code", num("500"))]);
    assert!(matches!(
        geocode_next(GeoProvider::CityLookup, Some(&resp), true),
        GeoStep::Query(GeoProvider::Regeo)
    ));
    match geocode_next(GeoProvider::CityLookup, None, false) {
        GeoStep::Answer(a) => assert_eq!(a, "未知位置"),
        _ => panic!("answer expected"),
    }
    let ok = obj(vec![
        ("status", s("1")),
        ("regeocode", obj(vec![("formatted_address", s("北京市东城区"))])),
    ]);
    match geocode_next(GeoProvider::Regeo, Some(&ok), true) {
        GeoStep::Answer(a) => assert_eq!(a, "北京市东城区"),
        _ => panic!("answer expected"),
    }
    let bad = obj(vec![("status", s("0"))]);
    match geocode_next(GeoProvider::Regeo, Some(&bad), true) {
        GeoStep::Answer(a) => assert_eq!(a, "未知位置"),
        _ => panic!("answer expected"),
    }
}

#[test]
fn search_query_rules() {
    assert!(matches!(search_start("", true), Err(SearchError::MissingQuery)));
    assert!(matches!(search_start("   ", true), Err(SearchError::MissingQuery)));
    match search_start("杭州", false) {
        Ok(SearchStep::Answer(v)) => assert!(v.is_empty()),
        _ => panic!("empty answer expected"),
    }
    match search_start("  北京 ", true) {
        Ok(SearchStep::Query(k)) => assert_eq!(k, "%E5%8C%97%E4%BA%AC"),
        _ => panic!("query expected"),
    }
}

#[test]
fn search_caps_at_five() {
    let poi = |i: i32| {
        obj(vec![
            ("name", s(&format!("P{}", i))),
            ("address", s("addr")),
            ("location", s(&format!("116.{},39.9", i))),
        ])
    };
    let pois: Vec<Json> = (1..=6).map(poi).collect();
    let resp = obj(vec![("pois", Json::Arr(pois))]);
    let r = search_results(Some(&resp));
    assert_eq!(r.len(), 5);
    assert_eq!(r[0].name, "P1");
    assert_eq!(r[0].lng, dec(1161, 1));
    assert_eq!(r[0].lat, dec(399, 1));
}

#[test]
fn search_drops_unparseable_entries() {
    let pois = vec![
        obj(vec![("name", s("A")), ("location", s("bad"))]),
        obj(vec![("name", s("B")), ("location", s("120.1,30.2"))]),
        obj(vec![("location", s("1,2"))]),
    ];
    let resp = obj(vec![("pois", Json::Arr(pois))]);
    let r = search_results(Some(&resp));
    assert_eq!(r.len(), 1);
    assert_eq!(r[0].name, "B");
    assert_eq!(r[0].address, "");
    assert!(search_results(None).is_empty());
    assert!(search_results(Some(&obj(vec![("pois", Json::Arr(vec![]))]))).is_empty());
}

#[test]
fn location_text_parsing() {
    let (lng, lat) = parse_location("116.397428,39.90923").unwrap();
    assert_eq!(lng, dec(116397428, 6));
    assert_eq!(lat, dec(3990923, 5));
    assert!(parse_location("116.3").is_none());
    let (lng, lat) = parse_location("1e2,39.9").unwrap();
    assert_eq!(lng, dec(100, 0));
    assert_eq!(lat, dec(399, 1));
    assert!(parse_location("a,b").is_none());
}

#[test]
fn decimal_parsing() {
    assert_eq!(parse_decimal("-12.50"), Some(dec(-1250, 2)));
    assert_eq!(parse_decimal("+7"), Some(dec(7, 0)));
    assert_eq!(parse_decimal(".5"), Some(dec(5, 1)));
    assert_eq!(parse_decimal(""), None);
    assert_eq!(parse_decimal("-"), None);
    assert_eq!(parse_decimal("1.2.3"), None);
    assert_eq!(parse_decimal("99999999999999999999"), None);
    assert_eq!(parse_decimal("1e2"), Some(dec(100, 0)));
    assert_eq!(parse_decimal("2.5E1"), Some(dec(25, 0)));
    assert_eq!(parse_decimal("1.5e-3"), Some(dec(15, 4)));
    assert_eq!(parse_decimal("-7e+0"), Some(dec(-7, 0)));
    assert_eq!(parse_decimal("1e"), None);
    assert_eq!(parse_decimal("e5"), None);
    assert_eq!(parse_decimal("1e2.5"), None);
    assert_eq!(parse_decimal("inf"), None);
}

#[test]
fn decimal_long_fractions_round() {
    assert_eq!(parse_decimal("0.1234567890123456789"), Some(dec(123456789012345679, 18)));
    assert_eq!(parse_decimal("0.1234567890123456784"), Some(dec(123456789012345678, 18)));
    assert_eq!(parse_decimal("-1.25e-18"), Some(dec(-1, 18)));
    assert_eq!(parse_decimal("-1.5e-18"), Some(dec(-2, 18)));
    assert_eq!(parse_decimal("4e-30"), Some(dec(0, 18)));
    assert_eq!(parse_decimal("9e18"), Some(dec(9000000000000000000, 0)));
    assert_eq!(parse_decimal("1e19"), None);
}

#[test]
fn ip_sanitizing() {
    assert_eq!(sanitize_ip("[2001:db8::1]:443"), "2001:db8::1");
    assert_eq!(sanitize_ip("203.0.113.5:8080"), "203.0.113.5");
    assert_eq!(sanitize_ip("2001:db8::2"), "2001:db8::2");
    assert_eq!(sanitize_ip("203.0.113.9"), "203.0.113.9");
    assert_eq!(clean_ip("  203.0.113.5:8080 "), "203.0.113.5");
}

#[test]
fn ip_header_order() {
    assert_eq!(client_address(Some("1.1.1.1"), Some("2.2.2.2"), Some("3.3.3.3")), "1.1.1.1");
    assert_eq!(client_address(None, Some("2.2.2.2, 10.0.0.1"), Some("3.3.3.3")), "2.2.2.2");
    assert_eq!(client_address(Some(""), None, Some("3.3.3.3")), "3.3.3.3");
    assert_eq!(client_address(None, None, None), "");
}

#[test]
fn ip_without_headers_uses_default() {
    match ip_start(None, None, None) {
        IpStep::Answer(l) => {
            assert_eq!(l.lat, dec(399042, 4));
            assert_eq!(l.lng, dec(1164074, 4));
            assert_eq!(l.address, "北京市");
        }
        _ => panic!("default expected"),
    }
    match ip_start(None, None, Some("[2001:db8::1]:443")) {
        IpStep::Query(k) => assert_eq!(k, "2001%3Adb8%3A%3A1"),
        _ => panic!("query expected"),
    }
}

#[test]
fn ip_provider_answer() {
    let resp = obj(vec![(
        "data",
        obj(vec![
            ("lat", num("30.27")),
            ("lng", num("120.15")),
            ("rgeo", obj(vec![("district", s("西湖区")), ("province", s("浙江省"))])),
        ]),
    )]);
    let l = ip_location(Some(&resp));
    assert_eq!(l.lat, dec(3027, 2));
    assert_eq!(l.address, "西湖区");
    let missing = obj(vec![("data", obj(vec![("lat", num("30.27"))]))]);
    let l = ip_location(Some(&missing));
    assert_eq!(l.lng, dec(1164074, 4));
    assert_eq!(l.address, "北京市");
}

#[test]
fn dotted_path_lookup() {
    let v = obj(vec![("wind", obj(vec![("speed", num("3"))]))]);
    assert!(matches!(safe_get(&v, "wind.speed"), Some(Json::Num(_))));
    assert!(safe_get(&v, "wind.gust").is_none());
    assert!(safe_get(&v, "wind.speed.x").is_none());
    assert!(safe_get(&v, "").is_none());
}
