use vstd::prelude::*;
use crate::text::str_eq;

verus! {

/// Icon and description of a known sky-condition code.
pub open spec fn sky_pair(code: Seq<char>) -> Option<(Seq<char>, Seq<char>)> {
    if code == "CLEAR_DAY"@ {
        Some(("☀️"@, "晴"@))
    } else if code == "CLEAR_NIGHT"@ {
        Some(("🌙"@, "晴（夜间）"@))
    } else if code == "PARTLY_CLOUDY_DAY"@ {
        Some(("⛅"@, "多云"@))
    } else if code == "PARTLY_CLOUDY_NIGHT"@ {
        Some(("<span class=\"icon-stacked\"><span class=\"i-back\">🌙</span><span class=\"i-front\">☁️</span></span>"@, "多云（夜间）"@))
    } else if code == "CLOUDY"@ {
        Some(("☁️"@, "阴"@))
    } else if code == "LIGHT_RAIN"@ {
        Some(("🌧️"@, "小雨"@))
    } else if code == "MODERATE_RAIN"@ {
        Some(("🌧️"@, "中雨"@))
    } else if code == "HEAVY_RAIN"@ {
        Some(("⛈️"@, "大雨"@))
    } else if code == "STORM_RAIN"@ {
        Some(("⛈️"@, "暴雨"@))
    } else if code == "HAIL"@ {
        Some(("🌨️"@, "冰雹"@))
    } else if code == "SLEET"@ {
        Some(("🌨️"@, "雨夹雪"@))
    } else if code == "LIGHT_SNOW"@ {
        Some(("🌨️"@, "小雪"@))
    } else if code == "MODERATE_SNOW"@ {
        Some(("🌨️"@, "中雪"@))
    } else if code == "HEAVY_SNOW"@ {
        Some(("❄️"@, "大雪"@))
    } else if code == "STORM_SNOW"@ {
        Some(("❄️"@, "暴雪"@))
    } else if code == "FOG"@ {
        Some(("🌫️"@, "雾"@))
    } else if code == "LIGHT_HAZE"@ {
        Some(("🌫️"@, "轻度霾"@))
    } else if code == "MODERATE_HAZE"@ {
        Some(("🌫️"@, "中度霾"@))
    } else if code == "HEAVY_HAZE"@ {
        Some(("🌫️"@, "重度霾"@))
    } else if code == "DUST"@ {
        Some(("🌪️"@, "浮尘"@))
    } else if code == "SAND"@ {
        Some(("🌪️"@, "沙尘"@))
    } else if code == "WIND"@ {
        Some(("🌬️"@, "大风"@))
    } else {
        None
    }
}

/// Icon and description shown for any code: the table's pair, or a placeholder icon
/// with the code itself as the description.
pub open spec fn sky_display(code: Seq<char>) -> (Seq<char>, Seq<char>) {
    match sky_pair(code) {
        Some(p) => p,
        None => ("?"@, code),
    }
}

/// Human-readable rendering of a sky-condition code.
#[derive(Debug)]
pub struct SkyInfo {
    pub icon: String,
    pub desc: String,
}

fn sky_lookup<'a>(code: &'a str) -> (r: (&'a str, &'a str))
    ensures
        (r.0@, r.1@) == sky_display(code@),
{
    if str_eq(code, "CLEAR_DAY") {
        ("☀️", "晴")
    } else if str_eq(code, "CLEAR_NIGHT") {
        ("🌙", "晴（夜间）")
    } else if str_eq(code, "PARTLY_CLOUDY_DAY") {
        ("⛅", "多云")
    } else if str_eq(code, "PARTLY_CLOUDY_NIGHT") {
        ("<span class=\"icon-stacked\"><span class=\"i-back\">🌙</span><span class=\"i-front\">☁️</span></span>", "多云（夜间）")
    } else if str_eq(code, "CLOUDY") {
        ("☁️", "阴")
    } else if str_eq(code, "LIGHT_RAIN") {
        ("🌧️", "小雨")
    } else if str_eq(code, "MODERATE_RAIN") {
        ("🌧️", "中雨")
    } else if str_eq(code, "HEAVY_RAIN") {
        ("⛈️", "大雨")
    } else if str_eq(code, "STORM_RAIN") {
        ("⛈️", "暴雨")
    } else if str_eq(code, "HAIL") {
        ("🌨️", "冰雹")
    } else if str_eq(code, "SLEET") {
        ("🌨️", "雨夹雪")
    } else if str_eq(code, "LIGHT_SNOW") {
        ("🌨️", "小雪")
    } else if str_eq(code, "MODERATE_SNOW") {
        ("🌨️", "中雪")
    } else if str_eq(code, "HEAVY_SNOW") {
        ("❄️", "大雪")
    } else if str_eq(code, "STORM_SNOW") {
        ("❄️", "暴雪")
    } else if str_eq(code, "FOG") {
        ("🌫️", "雾")
    } else if str_eq(code, "LIGHT_HAZE") {
        ("🌫️", "轻度霾")
    } else if str_eq(code, "MODERATE_HAZE") {
        ("🌫️", "中度霾")
    } else if str_eq(code, "HEAVY_HAZE") {
        ("🌫️", "重度霾")
    } else if str_eq(code, "DUST") {
        ("🌪️", "浮尘")
    } else if str_eq(code, "SAND") {
        ("🌪️", "沙尘")
    } else if str_eq(code, "WIND") {
        ("🌬️", "大风")
    } else {
        ("?", code)
    }
}

/// Icon and description of a sky-condition code; an unknown code is described by
/// itself, under a placeholder icon.
pub fn skycon_info(code: &str) -> (r: SkyInfo)
    ensures
        (r.icon@, r.desc@) == sky_display(code@),
        sky_pair(code@) matches Some(p) ==> r.icon@ == p.0 && r.desc@ == p.1,
        sky_pair(code@) is None ==> r.icon@ == "?"@ && r.desc@ == code@,
{
    let (icon, desc) = sky_lookup(code);
    SkyInfo { icon: String::from_str(icon), desc: String::from_str(desc) }
}

} // verus!
