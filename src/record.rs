//! The historical flight records that the remote service returns, as plain values.

use crate::time::{is_opt_instant, MAX_INSTANT_SECS};
use vstd::prelude::*;

verus! {

/// The flight number under which a flight was operated.
#[derive(Clone, Debug)]
pub struct FlightNumberData {
    pub default: String,
    pub alternative: Option<String>,
}

#[derive(Clone, Debug)]
pub struct Identification {
    pub number: FlightNumberData,
    pub callsign: Option<String>,
}

#[derive(Clone, Debug)]
pub struct Model {
    pub code: String,
    pub text: Option<String>,
}

#[derive(Clone, Debug)]
pub struct Aircraft {
    pub model: Model,
    pub registration: Option<String>,
    pub hex: Option<String>,
    pub serial_no: Option<String>,
}

#[derive(Clone, Debug)]
pub struct Code {
    pub iata: String,
    pub icao: String,
}

#[derive(Clone, Debug)]
pub struct Airline {
    pub name: String,
    pub code: Code,
}

#[derive(Clone, Debug)]
pub struct Airport {
    pub name: String,
    pub code: Code,
}

#[derive(Clone, Debug)]
pub struct Airports {
    pub origin: Airport,
    pub destination: Airport,
}

/// A departure and an arrival instant, each in seconds since 1970-01-01T00:00:00Z.
#[derive(Clone, Debug)]
pub struct Times {
    pub departure: Option<i64>,
    pub arrival: Option<i64>,
}

#[derive(Clone, Debug)]
pub struct TimeData {
    pub scheduled: Times,
    pub real: Times,
    pub estimated: Times,
}

/// One historical occurrence of a flight leg.
#[derive(Clone, Debug)]
pub struct Flight {
    pub aircraft: Aircraft,
    pub airline: Option<Airline>,
    pub airport: Airports,
    pub identification: Identification,
    pub time: TimeData,
}

#[derive(Clone, Debug)]
pub struct PageData {
    pub current: u64,
}

#[derive(Clone, Debug)]
pub struct FlightApiResponse {
    pub data: Option<Vec<Flight>>,
    pub page: PageData,
}

#[derive(Clone, Debug)]
pub struct FlightApiResult {
    pub response: FlightApiResponse,
}

/// The body of a flight history answer.
#[derive(Clone, Debug)]
pub struct Fr24FlightApiResponse {
    pub result: FlightApiResult,
}

/// The credentials of an account of the flight-tracking service.
#[derive(Clone, Debug)]
pub struct User {
    pub mail: String,
    pub password: String,
}

/// Whether the scheduled times of an occurrence are representable instants.
pub open spec fn has_instants(f: Flight) -> bool {
    is_opt_instant(f.time.scheduled.departure) && is_opt_instant(f.time.scheduled.arrival)
}

/// Whether an occurrence carries what a schedule summary needs: a flight number, an
/// origin, a destination and an aircraft model, none of them empty, and scheduled times
/// that are instants. Other occurrences are skipped by the consolidation.
pub open spec fn is_usable(f: Flight) -> bool {
    &&& f.identification.number.default@.len() > 0
    &&& f.airport.origin.code.icao@.len() > 0
    &&& f.airport.destination.code.icao@.len() > 0
    &&& f.aircraft.model.code@.len() > 0
    &&& has_instants(f)
}

fn opt_instant_ok(t: &Option<i64>) -> (r: bool)
    ensures
        r == is_opt_instant(*t),
{
    match t {
        Some(s) => -MAX_INSTANT_SECS <= *s && *s <= MAX_INSTANT_SECS,
        None => true,
    }
}

impl Flight {
    /// Whether this occurrence can be folded into a schedule summary.
    pub fn is_well_formed(&self) -> (r: bool)
        ensures
            r == is_usable(*self),
    {
        !self.identification.number.default.as_str().is_empty()
            && !self.airport.origin.code.icao.as_str().is_empty()
            && !self.airport.destination.code.icao.as_str().is_empty()
            && !self.aircraft.model.code.as_str().is_empty()
            && opt_instant_ok(&self.time.scheduled.departure)
            && opt_instant_ok(&self.time.scheduled.arrival)
    }
}

impl Fr24FlightApiResponse {
    /// The occurrences that the answer holds; none where it holds no data.
    pub fn into_flights(self) -> (r: Vec<Flight>)
        ensures
            r@ == match self.result.response.data {
                Some(v) => v@,
                None => Seq::<Flight>::empty(),
            },
    {
        match self.result.response.data {
            Some(v) => v,
            None => Vec::new(),
        }
    }
}

impl User {
    pub fn new(mail: String, password: String) -> (r: User)
        ensures
            r.mail == mail,
            r.password == password,
    {
        User { mail, password }
    }
}

} // verus!
