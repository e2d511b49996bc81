//! The schedule summary of one flight number on one route, and how an occurrence
//! starts or extends it.

use crate::record::{has_instants, Flight, Times};
use crate::time::{is_opt_instant, time_of_day, utc_time_of_day, utc_weekday, weekday_of, TimeOfDay, Weekday};
use vstd::prelude::*;

verus! {

/// What a schedule summary says, as sets.
pub struct InfoView {
    pub origin: Seq<char>,
    pub dest: Seq<char>,
    pub departures: Set<TimeOfDay>,
    pub arrivals: Set<TimeOfDay>,
    pub weekdays: Set<Weekday>,
    pub models: Set<Seq<char>>,
    pub callsigns: Set<Seq<char>>,
}

/// The distinct values seen for one flight number on one route (origin to destination).
/// Each list holds no value twice.
#[derive(Clone, Debug)]
pub struct FlightInfo {
    pub origin: String,
    pub dest: String,
    pub scheduled_departure: Vec<TimeOfDay>,
    pub scheduled_arrival: Vec<TimeOfDay>,
    pub weekday: Vec<Weekday>,
    pub model: Vec<String>,
    pub callsign: Vec<String>,
}

/// The texts held by a list of strings.
pub open spec fn str_set(v: Seq<String>) -> Set<Seq<char>> {
    Set::new(|x: Seq<char>| exists|i: int| 0 <= i < v.len() && v[i]@ == x)
}

/// Whether a list of strings holds no text twice.
pub open spec fn str_distinct(v: Seq<String>) -> bool {
    forall|i: int, j: int| 0 <= i < j < v.len() ==> v[i]@ != v[j]@
}

/// The scheduled departure times of day that an occurrence contributes.
pub open spec fn departure_times(f: Flight) -> Set<TimeOfDay> {
    match f.time.scheduled.departure {
        Some(d) => set![utc_time_of_day(d)],
        None => Set::empty(),
    }
}

/// The scheduled arrival times of day that an occurrence contributes.
pub open spec fn arrival_times(f: Flight) -> Set<TimeOfDay> {
    match f.time.scheduled.arrival {
        Some(a) => set![utc_time_of_day(a)],
        None => Set::empty(),
    }
}

/// The weekdays that an occurrence contributes (that of its scheduled departure).
pub open spec fn departure_weekdays(f: Flight) -> Set<Weekday> {
    match f.time.scheduled.departure {
        Some(d) => set![utc_weekday(d)],
        None => Set::empty(),
    }
}

/// The callsigns that an occurrence contributes.
pub open spec fn callsigns_of(f: Flight) -> Set<Seq<char>> {
    match f.identification.callsign {
        Some(c) => set![c@],
        None => Set::empty(),
    }
}

/// The summary that one occurrence makes on its own.
pub open spec fn initial_view(f: Flight) -> InfoView {
    InfoView {
        origin: f.airport.origin.code.icao@,
        dest: f.airport.destination.code.icao@,
        departures: departure_times(f),
        arrivals: arrival_times(f),
        weekdays: departure_weekdays(f),
        models: set![f.aircraft.model.code@],
        callsigns: callsigns_of(f),
    }
}

/// A summary with what one more occurrence of its route contributes.
pub open spec fn merge_view(v: InfoView, f: Flight) -> InfoView {
    InfoView {
        origin: v.origin,
        dest: v.dest,
        departures: v.departures.union(departure_times(f)),
        arrivals: v.arrivals.union(arrival_times(f)),
        weekdays: v.weekdays.union(departure_weekdays(f)),
        models: v.models.insert(f.aircraft.model.code@),
        callsigns: v.callsigns.union(callsigns_of(f)),
    }
}

impl FlightInfo {
    pub open spec fn view(&self) -> InfoView {
        InfoView {
            origin: self.origin@,
            dest: self.dest@,
            departures: self.scheduled_departure@.to_set(),
            arrivals: self.scheduled_arrival@.to_set(),
            weekdays: self.weekday@.to_set(),
            models: str_set(self.model@),
            callsigns: str_set(self.callsign@),
        }
    }

    /// No list holds a value twice.
    pub open spec fn wf(&self) -> bool {
        &&& self.scheduled_departure@.no_duplicates()
        &&& self.scheduled_arrival@.no_duplicates()
        &&& self.weekday@.no_duplicates()
        &&& str_distinct(self.model@)
        &&& str_distinct(self.callsign@)
    }
}

proof fn lemma_push_to_set<T>(s: Seq<T>, x: T)
    ensures
        s.push(x).to_set() == s.to_set().insert(x),
{
    assert forall|a: T| s.push(x).to_set().contains(a) <==> s.to_set().insert(x).contains(a) by {
        if s.contains(a) {
            let i = choose|i: int| 0 <= i < s.len() && s[i] == a;
            assert(s.push(x)[i] == a);
        }
        if a == x {
            assert(s.push(x)[s.len() as int] == a);
        }
        if s.push(x).contains(a) {
            let i = choose|i: int| 0 <= i < s.push(x).len() && s.push(x)[i] == a;
            if i < s.len() {
                assert(s[i] == a);
            }
        }
    }
    assert(s.push(x).to_set() =~= s.to_set().insert(x));
}

proof fn lemma_push_str_set(s: Seq<String>, x: String)
    ensures
        str_set(s.push(x)) == str_set(s).insert(x@),
{
    assert forall|a: Seq<char>| str_set(s.push(x)).contains(a) <==> str_set(s).insert(x@).contains(a) by {
        if str_set(s).contains(a) {
            let i = choose|i: int| 0 <= i < s.len() && s[i]@ == a;
            assert(s.push(x)[i]@ == a);
        }
        if a == x@ {
            assert(s.push(x)[s.len() as int]@ == a);
        }
        if str_set(s.push(x)).contains(a) {
            let i = choose|i: int| 0 <= i < s.push(x).len() && s.push(x)[i]@ == a;
            if i < s.len() {
                assert(s[i]@ == a);
            }
        }
    }
    assert(str_set(s.push(x)) =~= str_set(s).insert(x@));
}

fn insert_time(v: &mut Vec<TimeOfDay>, t: TimeOfDay)
    requires
        old(v)@.no_duplicates(),
    ensures
        final(v)@.no_duplicates(),
        final(v)@.to_set() == old(v)@.to_set().insert(t),
{
    let mut i: usize = 0;
    let mut found = false;
    while i < v.len() && !found
        invariant
            i <= v.len(),
            v@ == old(v)@,
            !found ==> forall|j: int| 0 <= j < i ==> v@[j] != t,
            found ==> (v@.to_set().contains(t)),
        decreases (v.len() - i) * 2 + if found { 0int } else { 1int },
    {
        if v[i] == t {
            assert(v@[i as int] == t);
            found = true;
        } else {
            i = i + 1;
        }
    }
    if found {
        proof {
            assert(v@.to_set().insert(t) =~= v@.to_set());
        }
    } else {
        proof {
            lemma_push_to_set(v@, t);
        }
        v.push(t);
    }
}

fn insert_weekday(v: &mut Vec<Weekday>, w: Weekday)
    requires
        old(v)@.no_duplicates(),
    ensures
        final(v)@.no_duplicates(),
        final(v)@.to_set() == old(v)@.to_set().insert(w),
{
    let mut i: usize = 0;
    let mut found = false;
    while i < v.len() && !found
        invariant
            i <= v.len(),
            v@ == old(v)@,
            !found ==> forall|j: int| 0 <= j < i ==> v@[j] != w,
            found ==> (v@.to_set().contains(w)),
        decreases (v.len() - i) * 2 + if found { 0int } else { 1int },
    {
        if v[i] == w {
            assert(v@[i as int] == w);
            found = true;
        } else {
            i = i + 1;
        }
    }
    if found {
        proof {
            assert(v@.to_set().insert(w) =~= v@.to_set());
        }
    } else {
        proof {
            lemma_push_to_set(v@, w);
        }
        v.push(w);
    }
}

fn insert_str(v: &mut Vec<String>, s: String)
    requires
        str_distinct(old(v)@),
    ensures
        str_distinct(final(v)@),
        str_set(final(v)@) == str_set(old(v)@).insert(s@),
{
    let mut i: usize = 0;
    let mut found = false;
    while i < v.len() && !found
        invariant
            i <= v.len(),
            v@ == old(v)@,
            !found ==> forall|j: int| 0 <= j < i ==> v@[j]@ != s@,
            found ==> (str_set(v@).contains(s@)),
        decreases (v.len() - i) * 2 + if found { 0int } else { 1int },
    {
        if v[i] == s {
            assert(v@[i as int]@ == s@);
            found = true;
        } else {
            i = i + 1;
        }
    }
    if found {
        proof {
            assert(str_set(v@).insert(s@) =~= str_set(v@));
        }
    } else {
        proof {
            lemma_push_str_set(v@, s);
        }
        v.push(s);
    }
}

impl FlightInfo {
    /// The summary that one occurrence makes on its own: its origin and destination,
    /// its scheduled departure's time of day and weekday and its scheduled arrival's
    /// time of day where they are given, its aircraft model, and its callsign where
    /// it has one.
    pub fn from(f: Flight) -> (r: FlightInfo)
        requires
            has_instants(f),
        ensures
            r.wf(),
            r@ == initial_view(f),
    {
        let ghost g = f;
        let mut r = FlightInfo {
            origin: f.airport.origin.code.icao,
            dest: f.airport.destination.code.icao,
            scheduled_departure: Vec::new(),
            scheduled_arrival: Vec::new(),
            weekday: Vec::new(),
            model: Vec::new(),
            callsign: Vec::new(),
        };
        proof {
            assert(r@.departures =~= Set::empty());
            assert(r@.arrivals =~= Set::empty());
            assert(r@.weekdays =~= Set::empty());
            assert(r@.models =~= Set::empty());
            assert(r@.callsigns =~= Set::empty());
        }
        r.absorb(f.time.scheduled, f.aircraft.model.code, f.identification.callsign);
        proof {
            assert(r@.departures =~= departure_times(g));
            assert(r@.arrivals =~= arrival_times(g));
            assert(r@.weekdays =~= departure_weekdays(g));
            assert(r@.models =~= set![g.aircraft.model.code@]);
            assert(r@.callsigns =~= callsigns_of(g));
        }
        r
    }

    /// Adds what one more occurrence of this route contributes: origin and destination
    /// stay as they are, and each set gains the values that `f` carries.
    pub fn merge(&mut self, f: Flight)
        requires
            old(self).wf(),
            has_instants(f),
        ensures
            final(self).wf(),
            final(self)@ == merge_view(old(self)@, f),
    {
        let ghost g = f;
        self.absorb(f.time.scheduled, f.aircraft.model.code, f.identification.callsign);
        proof {
            let m = merge_view(old(self)@, g);
            assert(self@.departures =~= m.departures);
            assert(self@.arrivals =~= m.arrivals);
            assert(self@.weekdays =~= m.weekdays);
            assert(self@.callsigns =~= m.callsigns);
        }
    }

    fn absorb(&mut self, scheduled: Times, model: String, callsign: Option<String>)
        requires
            old(self).wf(),
            is_opt_instant(scheduled.departure),
            is_opt_instant(scheduled.arrival),
        ensures
            final(self).wf(),
            final(self).origin == old(self).origin,
            final(self).dest == old(self).dest,
            final(self)@.departures == match scheduled.departure {
                Some(d) => old(self)@.departures.insert(utc_time_of_day(d)),
                None => old(self)@.departures,
            },
            final(self)@.weekdays == match scheduled.departure {
                Some(d) => old(self)@.weekdays.insert(utc_weekday(d)),
                None => old(self)@.weekdays,
            },
            final(self)@.arrivals == match scheduled.arrival {
                Some(a) => old(self)@.arrivals.insert(utc_time_of_day(a)),
                None => old(self)@.arrivals,
            },
            final(self)@.models == old(self)@.models.insert(model@),
            final(self)@.callsigns == match callsign {
                Some(c) => old(self)@.callsigns.insert(c@),
                None => old(self)@.callsigns,
            },
    {
        match scheduled.departure {
            Some(d) => {
                insert_time(&mut self.scheduled_departure, time_of_day(d));
                insert_weekday(&mut self.weekday, weekday_of(d));
            },
            None => {},
        }
        match scheduled.arrival {
            Some(a) => {
                insert_time(&mut self.scheduled_arrival, time_of_day(a));
            },
            None => {},
        }
        insert_str(&mut self.model, model);
        match callsign {
            Some(c) => {
                insert_str(&mut self.callsign, c);
            },
            None => {},
        }
    }
}

} // verus!
