use vstd::prelude::*;
use vstd::string::StringExecFns;

verus! {

/// The feed's service root for trams.
pub const TTSS_TRAM_API_URL: &'static str = "http://www.ttss.krakow.pl/internetservice";

/// The feed's service root for buses.
pub const TTSS_BUS_API_URL: &'static str = "http://ttss.mpk.krakow.pl/internetservice";

/// What an entry of a stop-name lookup is: a stop, or a divider between groups.
#[derive(Clone, Copy, Debug, PartialEq, Eq, Structural)]
pub enum AutocompleteType {
    Divider,
    Stop,
}

/// One entry of a stop-name lookup.
#[derive(Clone, Debug)]
pub struct AutocompleteResult {
    pub name: String,
    pub count: Option<i32>,
    pub id: Option<String>,
    pub kind: AutocompleteType,
}

/// The transit mode that a stop serves.
#[derive(Clone, Copy, Debug, PartialEq, Eq, Structural)]
pub enum StopCategories {
    Tram,
    Bus,
    Other,
}

/// One entry of the stop catalog. Coordinates are in milliarcseconds
/// (divide by 3 600 000 for degrees).
#[derive(Clone, Debug)]
pub struct Stop {
    pub category: StopCategories,
    pub id: String,
    pub latitude: u32,
    pub longitude: u32,
    pub name: String,
    pub short_name: String,
}

/// Whether a stop's passages are listed by arrival or by departure.
#[derive(Clone, Copy, Debug, PartialEq, Eq, Structural)]
pub enum Mode {
    Arrival,
    Departure,
}

impl Mode {
    /// The literal that the feed uses for this mode.
    pub open spec fn literal(self) -> Seq<char> {
        match self {
            Mode::Arrival => "arrival"@,
            Mode::Departure => "departure"@,
        }
    }

    /// The literal that the feed uses for this mode.
    pub fn as_str(&self) -> (r: &'static str)
        ensures
            r@ == self.literal(),
    {
        match self {
            Mode::Arrival => "arrival",
            Mode::Departure => "departure",
        }
    }
}

/// The state of one passage at a stop.
#[derive(Clone, Copy, Debug, PartialEq, Eq, Structural)]
pub enum StopInfoStatus {
    Predicted,
    Departed,
    Stopping,
}

/// A status literal other than the three known ones.
#[derive(Clone, Copy, Debug, PartialEq, Eq, Structural)]
pub struct UnknownStatusError;

impl StopInfoStatus {
    /// The canonical uppercase literal of this status.
    pub open spec fn literal(self) -> Seq<char> {
        match self {
            StopInfoStatus::Predicted => "PREDICTED"@,
            StopInfoStatus::Departed => "DEPARTED"@,
            StopInfoStatus::Stopping => "STOPPING"@,
        }
    }

    /// The canonical uppercase literal of this status.
    pub fn as_str(&self) -> (r: &'static str)
        ensures
            r@ == self.literal(),
    {
        match self {
            StopInfoStatus::Predicted => "PREDICTED",
            StopInfoStatus::Departed => "DEPARTED",
            StopInfoStatus::Stopping => "STOPPING",
        }
    }

    /// Maps one of the three literals, case-sensitively, to its status.
    pub fn from_literal(text: &str) -> (r: Result<StopInfoStatus, UnknownStatusError>)
        ensures
            r matches Ok(s) ==> s.literal() == text@,
            r is Err ==> (forall|s: StopInfoStatus| s.literal() != text@),
    {
        proof {
            reveal_strlit("PREDICTED");
            reveal_strlit("DEPARTED");
            reveal_strlit("STOPPING");
        }
        if ascii_eq(text, "PREDICTED") {
            Ok(StopInfoStatus::Predicted)
        } else if ascii_eq(text, "DEPARTED") {
            Ok(StopInfoStatus::Departed)
        } else if ascii_eq(text, "STOPPING") {
            Ok(StopInfoStatus::Stopping)
        } else {
            Err(UnknownStatusError)
        }
    }
}

/// Whether `a` and the ASCII text `b` hold the same characters.
fn ascii_eq(a: &str, b: &str) -> (r: bool)
    requires
        vstd::string::is_ascii(b),
    ensures
        r == (a@ == b@),
{
    if !a.is_ascii() {
        return false;
    }
    let x = a.as_bytes();
    let y = b.as_bytes();
    proof {
        vstd::string::is_ascii_spec_bytes(a);
        vstd::string::is_ascii_spec_bytes(b);
    }
    if x.len() != y.len() {
        assert(a@.len() != b@.len());
        return false;
    }
    let mut i: usize = 0;
    while i < x.len()
        invariant
            x@.len() == y@.len() == a@.len() == b@.len(),
            x@ == Seq::new(a@.len(), |k: int| a@[k] as u8),
            y@ == Seq::new(b@.len(), |k: int| b@[k] as u8),
            vstd::string::is_ascii(a),
            vstd::string::is_ascii(b),
            i <= x@.len(),
            forall|k: int| 0 <= k < i ==> a@[k] == b@[k],
        decreases x@.len() - i,
    {
        if x[i] != y[i] {
            assert(a@[i as int] != b@[i as int]);
            return false;
        }
        assert(a@[i as int] as u8 == b@[i as int] as u8);
        i = i + 1;
    }
    assert(a@ =~= b@);
    true
}

/// One passage at a stop, as the feed reports it.
#[derive(Clone, Debug)]
pub struct StopInfoTrips {
    /// Seconds until the passage; negative when it lies in the past.
    pub actual_relative_time: i32,
    /// `HH:MM`, present only when the vehicle can be located.
    pub actual_time: Option<String>,
    pub direction: String,
    /// The time as the signs show it.
    pub mixed_time: String,
    pub passageid: String,
    /// The line number.
    pub pattern_text: String,
    /// Planned time, `HH:MM`.
    pub planned_time: String,
    pub route_id: String,
    pub status: StopInfoStatus,
    pub trip_id: String,
    pub vehicle_id: String,
}

/// A route that serves a stop.
#[derive(Clone, Debug)]
pub struct StopInfoRoutes {
    pub authority: String,
    pub directions: [String; 2],
    pub id: String,
    pub name: String,
    pub route_type: String,
    pub short_name: String,
}

/// The passages of one stop.
#[derive(Clone, Debug)]
pub struct StopInfo {
    pub actual: Vec<StopInfoTrips>,
    /// Unix time in milliseconds.
    pub first_passage_time: i64,
    /// Unix time in milliseconds.
    pub last_passage_time: i64,
    pub old: Vec<StopInfoTrips>,
    pub routes: Vec<StopInfoRoutes>,
    pub stop_name: String,
    pub stop_short_name: String,
}

/// The address of the stop-name lookup for `query`.
pub fn autocomplete_url(api_url: &str, query: &str) -> (r: String)
    ensures
        r@ == api_url@ + "/services/lookup/autocomplete/json?query="@ + query@,
{
    let mut r = String::from_str(api_url);
    r.append("/services/lookup/autocomplete/json?query=");
    r.append(query);
    r
}

/// The address of the whole stop catalog.
pub fn all_stops_url(api_url: &str) -> (r: String)
    ensures
        r@ == api_url@
            + "/geoserviceDispatcher/services/stopinfo/stops?left=-648000000&bottom=-324000000&right=648000000&top=324000000"@,
{
    let mut r = String::from_str(api_url);
    r.append(
        "/geoserviceDispatcher/services/stopinfo/stops?left=-648000000&bottom=-324000000&right=648000000&top=324000000",
    );
    r
}

/// The address of the passages of stop `stop` in mode `mode`.
pub fn stop_passages_url(api_url: &str, stop: &str, mode: Mode) -> (r: String)
    ensures
        r@ == api_url@ + "/services/passageInfo/stopPassages/stopPoint?stopPoint="@ + stop@
            + "&mode="@ + mode.literal(),
{
    let mut r = String::from_str(api_url);
    r.append("/services/passageInfo/stopPassages/stopPoint?stopPoint=");
    r.append(stop);
    r.append("&mode=");
    r.append(mode.as_str());
    r
}

} // verus!
