use vstd::prelude::*;
use crate::extract::{deref_opt, items, member_at, sub_of};
use crate::json::Json;
use crate::number::{Decimal, decimal_text, parse_decimal};
use crate::text::{
    encode_component, find_char, first_index, has_char, last_index, lemma_first_index,
    lemma_last_index,
    percent_encoded, rfind_char, trim_str, trimmed,
};

verus! {

/// Most places a search returns.
pub const MAX_PLACES: usize = 5;

/// The text of the member `key` of an optional value, if it is a string.
pub open spec fn str_member(o: Option<Json>, key: Seq<char>) -> Option<Seq<char>> {
    match member_at(o, key) {
        Some(v) => v.str_of(),
        None => None,
    }
}

pub open spec fn text_view(o: Option<&str>) -> Option<Seq<char>> {
    match o {
        Some(s) => Some(s@),
        None => None,
    }
}

/// The first text present, else `fallback`.
pub open spec fn first_text(a: Option<Seq<char>>, b: Option<Seq<char>>, c: Option<Seq<char>>, fallback: Seq<char>) -> Seq<char> {
    match a {
        Some(t) => t,
        None => match b {
            Some(t) => t,
            None => match c {
                Some(t) => t,
                None => fallback,
            },
        },
    }
}

/// The text of the member `key` of an optional borrowed value, if it is a string.
pub fn str_member_of<'a>(o: Option<&'a Json>, key: &str) -> (r: Option<&'a str>)
    ensures
        text_view(r) == str_member(deref_opt(o), key@),
{
    match sub_of(o, key) {
        Some(v) => v.as_str(),
        None => None,
    }
}

fn first_text_of<'a>(a: Option<&'a str>, b: Option<&'a str>, c: Option<&'a str>, fallback: &'a str) -> (r: &'a str)
    ensures
        r@ == first_text(text_view(a), text_view(b), text_view(c), fallback@),
{
    match a {
        Some(t) => t,
        None => match b {
            Some(t) => t,
            None => match c {
                Some(t) => t,
                None => fallback,
            },
        },
    }
}

// ----- reverse geocoding -----

pub open spec fn unknown_location() -> Seq<char> {
    "未知位置"@
}

/// The keyless provider's address: present whenever its answer has a `data` block,
/// taken from `detail`, `openCityName` or `city`, else the unknown-location text.
pub open spec fn city_lookup_address(resp: Option<Json>) -> Option<Seq<char>> {
    let data = member_at(resp, "data"@);
    match data {
        None => None,
        Some(_) => Some(
            first_text(
                str_member(data, "detail"@),
                str_member(data, "openCityName"@),
                str_member(data, "city"@),
                unknown_location(),
            ),
        ),
    }
}

/// The keyed provider's address: its `regeocode.formatted_address`, where `status`
/// is `"1"`.
pub open spec fn regeo_address(resp: Option<Json>) -> Option<Seq<char>> {
    if str_member(resp, "status"@) == Some("1"@) {
        str_member(member_at(resp, "regeocode"@), "formatted_address"@)
    } else {
        None
    }
}

/// The providers of the reverse-geocoding chain, in the order they are asked.
#[derive(Clone, Copy, Debug, PartialEq, Eq)]
pub enum GeoProvider {
    /// The keyless location-name service.
    CityLookup,
    /// The keyed reverse-geocoding service.
    Regeo,
}

/// What the reverse-geocoding chain does next.
#[derive(Debug)]
pub enum GeoStep {
    Query(GeoProvider),
    Answer(String),
}

/// The chain begins with the keyless provider.
pub fn geocode_start() -> (r: GeoStep)
    ensures
        r matches GeoStep::Query(p) && p == GeoProvider::CityLookup,
{
    GeoStep::Query(GeoProvider::CityLookup)
}

/// The step after `provider` answered `response` (nothing on a timeout, a transport
/// failure or a body that is not JSON). The keyed provider is asked only when the
/// keyless one rejected and a key is configured; the chain never fails.
pub fn geocode_next(provider: GeoProvider, response: Option<&Json>, regeo_configured: bool) -> (r: GeoStep)
    ensures
        provider == GeoProvider::CityLookup ==> match city_lookup_address(deref_opt(response)) {
            Some(a) => r matches GeoStep::Answer(s) && s@ == a,
            None => if regeo_configured {
                r matches GeoStep::Query(p) && p == GeoProvider::Regeo
            } else {
                r matches GeoStep::Answer(s) && s@ == unknown_location()
            },
        },
        provider == GeoProvider::Regeo ==> match regeo_address(deref_opt(response)) {
            Some(a) => r matches GeoStep::Answer(s) && s@ == a,
            None => r matches GeoStep::Answer(s) && s@ == unknown_location(),
        },
        provider == GeoProvider::CityLookup && member_at(deref_opt(response), "data"@) is Some
            ==> r is Answer,
{
    match provider {
        GeoProvider::CityLookup => {
            let data = sub_of(response, "data");
            if data.is_some() {
                let a = first_text_of(
                    str_member_of(data, "detail"),
                    str_member_of(data, "openCityName"),
                    str_member_of(data, "city"),
                    "未知位置",
                );
                GeoStep::Answer(String::from_str(a))
            } else if regeo_configured {
                GeoStep::Query(GeoProvider::Regeo)
            } else {
                GeoStep::Answer(String::from_str("未知位置"))
            }
        },
        GeoProvider::Regeo => {
            let ok = match str_member_of(response, "status") {
                Some(t) => crate::text::str_eq(t, "1"),
                None => false,
            };
            if ok {
                match str_member_of(sub_of(response, "regeocode"), "formatted_address") {
                    Some(a) => GeoStep::Answer(String::from_str(a)),
                    None => GeoStep::Answer(String::from_str("未知位置")),
                }
            } else {
                GeoStep::Answer(String::from_str("未知位置"))
            }
        },
    }
}

// ----- place search -----

/// One place found by a search.
#[derive(Debug)]
pub struct Place {
    pub lat: Decimal,
    pub lng: Decimal,
    pub name: String,
    pub address: String,
}

/// `d` is the number that the text `t` writes.
pub open spec fn decimal_is(d: Decimal, t: Seq<char>) -> bool {
    decimal_text(t) == Some((d.spec_mantissa(), d.spec_scale()))
}

/// The longitude text of a `"lng,lat"` location: up to the first comma.
pub open spec fn lng_text(loc: Seq<char>) -> Seq<char> {
    loc.take(first_index(loc, ',') as int)
}

/// The latitude text of a `"lng,lat"` location: after the first comma, up to the next.
pub open spec fn lat_text(loc: Seq<char>) -> Seq<char> {
    let rest = loc.skip(first_index(loc, ',') + 1 as int);
    rest.take(first_index(rest, ',') as int)
}

/// A location text with a comma whose two parts are numbers.
pub open spec fn location_ok(loc: Seq<char>) -> bool {
    &&& first_index(loc, ',') < loc.len()
    &&& decimal_text(lng_text(loc)) is Some
    &&& decimal_text(lat_text(loc)) is Some
}

/// A result entry that makes a place: a name, and a location that parses.
pub open spec fn poi_ok(poi: Json) -> bool {
    &&& str_member(Some(poi), "name"@) is Some
    &&& str_member(Some(poi), "location"@) matches Some(loc) && location_ok(loc)
}

/// `p` is the place made of the result entry `poi`.
pub open spec fn place_from(p: Place, poi: Json) -> bool {
    &&& str_member(Some(poi), "name"@) == Some(p.name@)
    &&& p.address@ == match str_member(Some(poi), "address"@) {
        Some(a) => a,
        None => Seq::empty(),
    }
    &&& str_member(Some(poi), "location"@) matches Some(loc) && decimal_is(p.lng, lng_text(loc))
        && decimal_is(p.lat, lat_text(loc))
}

/// The entries of `s` that make places, in order.
pub open spec fn usable_pois(s: Seq<Json>) -> Seq<Json>
    decreases s.len(),
{
    if s.len() == 0 {
        Seq::empty()
    } else if poi_ok(s.last()) {
        usable_pois(s.drop_last()).push(s.last())
    } else {
        usable_pois(s.drop_last())
    }
}

proof fn lemma_usable_len(s: Seq<Json>)
    ensures
        usable_pois(s).len() <= s.len(),
    decreases s.len(),
{
    if s.len() > 0 {
        lemma_usable_len(s.drop_last());
    }
}

proof fn lemma_usable_all(s: Seq<Json>)
    requires
        forall|i: int| 0 <= i < s.len() ==> poi_ok(#[trigger] s[i]),
    ensures
        usable_pois(s) == s,
    decreases s.len(),
{
    if s.len() > 0 {
        lemma_usable_all(s.drop_last());
        assert(s.drop_last().push(s.last()) =~= s);
    }
}

/// Where the provider lists at least `MAX_PLACES` entries and the first `MAX_PLACES`
/// of them all make places, the search answers exactly those, in order.
pub proof fn search_keeps_first_places(pois: Seq<Json>)
    requires
        pois.len() >= MAX_PLACES,
        forall|i: int| 0 <= i < MAX_PLACES ==> poi_ok(#[trigger] pois[i]),
    ensures
        ({
            let firsts = pois.take(vstd::math::min(pois.len() as int, MAX_PLACES as int));
            usable_pois(firsts) == pois.take(MAX_PLACES as int)
                && usable_pois(firsts).len() == MAX_PLACES
        }),
{
    let firsts = pois.take(MAX_PLACES as int);
    assert(vstd::math::min(pois.len() as int, MAX_PLACES as int) == MAX_PLACES);
    assert forall|i: int| 0 <= i < firsts.len() implies poi_ok(#[trigger] firsts[i]) by {
        assert(firsts[i] == pois[i]);
    }
    lemma_usable_all(firsts);
}

/// The longitude and latitude of a `"lng,lat"` text.
pub fn parse_location(loc: &str) -> (r: Option<(Decimal, Decimal)>)
    ensures
        r is Some <==> location_ok(loc@),
        r matches Some(p) ==> decimal_is(p.0, lng_text(loc@)) && decimal_is(p.1, lat_text(loc@)),
{
    let n = loc.unicode_len();
    let k = find_char(loc, ',');
    proof {
        lemma_first_index(loc@, ',');
    }
    if k >= n {
        return None;
    }
    let first = loc.substring_char(0, k);
    let rest = loc.substring_char(k + 1, n);
    assert(rest@ =~= loc@.skip(k + 1 as int));
    let k2 = find_char(rest, ',');
    proof {
        lemma_first_index(rest@, ',');
    }
    let second = rest.substring_char(0, k2);
    let lng = parse_decimal(first);
    let lat = parse_decimal(second);
    match (lng, lat) {
        (Some(a), Some(b)) => Some((a, b)),
        _ => None,
    }
}

/// The place made of one result entry, if it makes one.
pub fn place_of(poi: &Json) -> (r: Option<Place>)
    ensures
        r is Some <==> poi_ok(*poi),
        r matches Some(p) ==> place_from(p, *poi),
{
    let name = match str_member_of(Some(poi), "name") {
        Some(t) => t,
        None => {
            return None;
        },
    };
    let address = match str_member_of(Some(poi), "address") {
        Some(t) => String::from_str(t),
        None => String::new(),
    };
    let loc = match str_member_of(Some(poi), "location") {
        Some(t) => t,
        None => {
            return None;
        },
    };
    match parse_location(loc) {
        Some((lng, lat)) => Some(Place { lat, lng, name: String::from_str(name), address }),
        None => None,
    }
}

/// The places of the search provider's answer: of its first `MAX_PLACES` entries of
/// `pois`, those that make a place, in order.
pub fn search_results(response: Option<&Json>) -> (r: Vec<Place>)
    ensures
        ({
            let pois = items(member_at(deref_opt(response), "pois"@));
            let firsts = pois.take(vstd::math::min(pois.len() as int, MAX_PLACES as int));
            &&& r@.len() == usable_pois(firsts).len()
            &&& forall|i: int| 0 <= i < r@.len() ==> place_from(#[trigger] r@[i], usable_pois(firsts)[i])
        }),
        r@.len() <= MAX_PLACES,
{
    let ghost pois = items(member_at(deref_opt(response), "pois"@));
    let mut out: Vec<Place> = Vec::new();
    let arr = match sub_of(response, "pois") {
        Some(Json::Arr(a)) => a,
        _ => {
            proof {
                let firsts = pois.take(vstd::math::min(pois.len() as int, MAX_PLACES as int));
                assert(firsts.len() == 0);
            }
            return out;
        },
    };
    assert(arr@ == pois);
    let mut count = arr.len();
    if MAX_PLACES < count {
        count = MAX_PLACES;
    }
    let ghost firsts = pois.take(count as int);
    let mut i: usize = 0;
    assert(firsts.take(0) =~= Seq::<Json>::empty());
    while i < count
        invariant
            i <= count <= arr@.len(),
            count <= MAX_PLACES,
            arr@ == pois,
            firsts == pois.take(count as int),
            out@.len() == usable_pois(firsts.take(i as int)).len(),
            forall|j: int|
                0 <= j < out@.len() ==> place_from(#[trigger] out@[j], usable_pois(firsts.take(i as int))[j]),
        decreases count - i,
    {
        let ghost before = firsts.take(i as int);
        let ghost after = firsts.take(i + 1);
        assert(after.drop_last() =~= before);
        assert(after.last() == arr@[i as int]);
        match place_of(&arr[i]) {
            Some(p) => {
                out.push(p);
            },
            None => {},
        }
        i = i + 1;
    }
    proof {
        assert(firsts.take(count as int) =~= firsts);
        lemma_usable_len(firsts);
    }
    out
}

/// Why a search request is refused.
#[derive(Clone, Copy, Debug, PartialEq, Eq)]
pub enum SearchError {
    /// The query is empty.
    MissingQuery,
}

/// What the search chain does next.
#[derive(Debug)]
pub enum SearchStep {
    /// Ask the search provider for these URL-encoded keywords and hand its answer to
    /// `search_results`.
    Query(String),
    /// Answer with these places; no provider is asked.
    Answer(Vec<Place>),
}

/// The first step for an already trimmed query: an empty query is refused; without a
/// provider key the answer is an empty list.
pub fn search_plan(query: &str, has_key: bool) -> (r: Result<SearchStep, SearchError>)
    ensures
        query@.len() == 0 <==> (r matches Err(e) && e == SearchError::MissingQuery),
        query@.len() > 0 && !has_key ==> (r matches Ok(SearchStep::Answer(v)) && v@.len() == 0),
        query@.len() > 0 && has_key ==> (r matches Ok(SearchStep::Query(k)) && k@ == percent_encoded(query@)),
{
    if query.unicode_len() == 0 {
        return Err(SearchError::MissingQuery);
    }
    if has_key {
        Ok(SearchStep::Query(encode_component(query)))
    } else {
        Ok(SearchStep::Answer(Vec::new()))
    }
}

/// The first step for a query as the caller wrote it: surrounding whitespace is
/// dropped first.
pub fn search_start(query: &str, has_key: bool) -> (r: Result<SearchStep, SearchError>)
    ensures
        trimmed(query@).len() == 0 <==> (r matches Err(e) && e == SearchError::MissingQuery),
        query@.len() == 0 ==> (r matches Err(e) && e == SearchError::MissingQuery),
        trimmed(query@).len() > 0 && !has_key ==> (r matches Ok(SearchStep::Answer(v)) && v@.len() == 0),
        trimmed(query@).len() > 0 && has_key ==> (r matches Ok(SearchStep::Query(k)) && k@
            == percent_encoded(trimmed(query@))),
{
    search_plan(trim_str(query), has_key)
}

// ----- locating by client address -----

/// A coordinate with an address label.
#[derive(Debug)]
pub struct Located {
    pub lat: Decimal,
    pub lng: Decimal,
    pub address: String,
}

pub open spec fn default_city() -> Seq<char> {
    "北京市"@
}

/// The fixed city-level fallback: 39.9042, 116.4074.
pub open spec fn is_default_location(l: Located) -> bool {
    &&& l.lat.spec_mantissa() == 399042 && l.lat.spec_scale() == 4
    &&& l.lng.spec_mantissa() == 1164074 && l.lng.spec_scale() == 4
    &&& l.address@ == default_city()
}

/// The first comma-separated entry of a forwarding chain.
pub open spec fn first_hop(s: Seq<char>) -> Seq<char> {
    s.take(first_index(s, ',') as int)
}

pub open spec fn nonempty(o: Option<Seq<char>>) -> bool {
    o matches Some(t) && t.len() > 0
}

/// The client address named by the headers: the connecting-IP header, else the first
/// entry of the forwarded-for chain, else the real-IP header, whichever is first
/// non-empty; empty where none is.
pub open spec fn chosen_address(
    connecting: Option<Seq<char>>,
    forwarded: Option<Seq<char>>,
    real_ip: Option<Seq<char>>,
) -> Seq<char> {
    let hop = match forwarded {
        Some(f) => Some(first_hop(f)),
        None => None,
    };
    if nonempty(connecting) {
        connecting->Some_0
    } else if nonempty(hop) {
        hop->Some_0
    } else if nonempty(real_ip) {
        real_ip->Some_0
    } else {
        Seq::empty()
    }
}

/// An address without brackets or port: `[v6]...` gives what the brackets hold, an
/// address with both `.` and `:` loses what follows its last `:`, anything else
/// stays.
pub open spec fn sanitized(t: Seq<char>) -> Seq<char> {
    if t.len() > 0 && t[0] == '[' && has_char(t, ']') {
        t.subrange(1, first_index(t, ']') as int)
    } else if has_char(t, '.') && has_char(t, ':') {
        t.take(last_index(t, ':'))
    } else {
        t
    }
}

/// Strips brackets and port from an already trimmed address.
pub fn sanitize_ip(t: &str) -> (r: String)
    ensures
        r@ == sanitized(t@),
{
    let n = t.unicode_len();
    if n > 0 && t.get_char(0) == '[' {
        let end = find_char(t, ']');
        proof {
            lemma_first_index(t@, ']');
        }
        if end < n {
            return String::from_str(t.substring_char(1, end));
        }
        assert(!has_char(t@, ']'));
    }
    let dot = find_char(t, '.');
    proof {
        lemma_first_index(t@, '.');
    }
    if dot < n {
        proof {
            lemma_last_index(t@, ':');
        }
        match rfind_char(t, ':') {
            Some(idx) => {
                return String::from_str(t.substring_char(0, idx));
            },
            None => {},
        }
    } else {
        assert(!has_char(t@, '.'));
    }
    String::from_str(t)
}

/// Trims an address and strips brackets and port.
pub fn clean_ip(s: &str) -> (r: String)
    ensures
        r@ == sanitized(trimmed(s@)),
{
    sanitize_ip(trim_str(s))
}

fn nonempty_text<'a>(o: Option<&'a str>) -> (r: Option<&'a str>)
    ensures
        nonempty(text_view(o)) ==> r == o,
        !nonempty(text_view(o)) ==> r is None,
{
    match o {
        Some(t) => if t.unicode_len() > 0 {
            Some(t)
        } else {
            None
        },
        None => None,
    }
}

/// The client address named by the headers, before trimming.
pub fn client_address<'a>(
    connecting: Option<&'a str>,
    forwarded: Option<&'a str>,
    real_ip: Option<&'a str>,
) -> (r: &'a str)
    ensures
        r@ == chosen_address(text_view(connecting), text_view(forwarded), text_view(real_ip)),
{
    let hop = match forwarded {
        Some(f) => {
            let k = find_char(f, ',');
            proof {
                lemma_first_index(f@, ',');
            }
            Some(f.substring_char(0, k))
        },
        None => None,
    };
    proof {
        reveal_strlit("");
    }
    match nonempty_text(connecting) {
        Some(t) => t,
        None => match nonempty_text(hop) {
            Some(t) => t,
            None => match nonempty_text(real_ip) {
                Some(t) => t,
                None => "",
            },
        },
    }
}

/// The fixed city-level fallback.
pub fn default_location() -> (r: Located)
    ensures
        is_default_location(r),
{
    Located {
        lat: Decimal::with_scale(399042, 4),
        lng: Decimal::with_scale(1164074, 4),
        address: String::from_str("北京市"),
    }
}

/// What the IP-locate chain does next.
#[derive(Debug)]
pub enum IpStep {
    /// Ask the IP-location provider about this URL-encoded address and hand its answer
    /// to `ip_location`.
    Query(String),
    /// Answer with this location; no provider is asked.
    Answer(Located),
}

/// The first step for the given client-address headers: without a usable address the
/// answer is the fallback location, asked of nobody.
pub fn ip_start(connecting: Option<&str>, forwarded: Option<&str>, real_ip: Option<&str>) -> (r: IpStep)
    ensures
        ({
            let chosen = chosen_address(text_view(connecting), text_view(forwarded), text_view(real_ip));
            &&& chosen.len() == 0 ==> (r matches IpStep::Answer(l) && is_default_location(l))
            &&& chosen.len() > 0 && sanitized(trimmed(chosen)).len() == 0 ==> (r matches IpStep::Answer(l) && is_default_location(l))
            &&& chosen.len() > 0 && sanitized(trimmed(chosen)).len() > 0 ==> (r matches IpStep::Query(k) && k@ == percent_encoded(sanitized(trimmed(chosen))))
        }),
        connecting is None && forwarded is None && real_ip is None ==> (r matches IpStep::Answer(l) && is_default_location(l)),
{
    let raw = client_address(connecting, forwarded, real_ip);
    if raw.unicode_len() == 0 {
        return IpStep::Answer(default_location());
    }
    let ip = clean_ip(raw);
    if ip.as_str().unicode_len() == 0 {
        return IpStep::Answer(default_location());
    }
    IpStep::Query(encode_component(ip.as_str()))
}

/// The IP-location provider's answer: its `data.lat` and `data.lng` where both are
/// numbers, labelled with the first of `data.rgeo`'s `city`, `district` and
/// `province`, else the default city; the fallback location otherwise.
pub fn ip_location(response: Option<&Json>) -> (r: Located)
    ensures
        ({
            let data = member_at(deref_opt(response), "data"@);
            let rgeo = member_at(data, "rgeo"@);
            match (member_at(data, "lat"@), member_at(data, "lng"@)) {
                (Some(Json::Num(la)), Some(Json::Num(ln))) => r.lat == la && r.lng == ln && r.address@
                    == first_text(
                    str_member(rgeo, "city"@),
                    str_member(rgeo, "district"@),
                    str_member(rgeo, "province"@),
                    default_city(),
                ),
                _ => is_default_location(r),
            }
        }),
{
    let data = sub_of(response, "data");
    let rgeo = sub_of(data, "rgeo");
    match (sub_of(data, "lat"), sub_of(data, "lng")) {
        (Some(Json::Num(la)), Some(Json::Num(ln))) => {
            let address = first_text_of(
                str_member_of(rgeo, "city"),
                str_member_of(rgeo, "district"),
                str_member_of(rgeo, "province"),
                "北京市",
            );
            Located { lat: *la, lng: *ln, address: String::from_str(address) }
        },
        _ => default_location(),
    }
}

} // verus!
