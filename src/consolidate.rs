//! Folding a sequence of occurrences into one schedule summary per flight number and
//! route.

use crate::record::{is_usable, Flight};
use crate::summary::{
    arrival_times, callsigns_of, departure_times, departure_weekdays,
    initial_view, merge_view, FlightInfo, InfoView,
};
use crate::time::{utc_time_of_day, utc_weekday, TimeOfDay, Weekday};
use vstd::prelude::*;

verus! {

/// The grouping key of an occurrence: its flight number, origin and destination.
/// Origin and destination keep their order: a route and its return are two keys.
pub open spec fn key_of(f: Flight) -> (Seq<char>, Seq<char>, Seq<char>) {
    (
        f.identification.number.default@,
        f.airport.origin.code.icao@,
        f.airport.destination.code.icao@,
    )
}

/// Whether `f` is a usable occurrence of `s` under key `k`.
pub open spec fn contributes(s: Seq<Flight>, k: (Seq<char>, Seq<char>, Seq<char>), f: Flight) -> bool {
    s.contains(f) && is_usable(f) && key_of(f) == k
}

/// Whether some usable occurrence of `s` has key `k`.
pub open spec fn has_route(s: Seq<Flight>, k: (Seq<char>, Seq<char>, Seq<char>)) -> bool {
    exists|f: Flight| #[trigger] contributes(s, k, f)
}

/// The summary of key `k` over `s`: the union of what its usable occurrences contribute.
pub open spec fn summary_of(s: Seq<Flight>, k: (Seq<char>, Seq<char>, Seq<char>)) -> InfoView {
    InfoView {
        origin: k.1,
        dest: k.2,
        departures: Set::new(
            |t: TimeOfDay| exists|f: Flight| #[trigger] contributes(s, k, f) && departure_times(f).contains(t),
        ),
        arrivals: Set::new(
            |t: TimeOfDay| exists|f: Flight| #[trigger] contributes(s, k, f) && arrival_times(f).contains(t),
        ),
        weekdays: Set::new(
            |w: Weekday| exists|f: Flight| #[trigger] contributes(s, k, f) && departure_weekdays(f).contains(w),
        ),
        models: Set::new(
            |m: Seq<char>| exists|f: Flight| #[trigger] contributes(s, k, f) && f.aircraft.model.code@ == m,
        ),
        callsigns: Set::new(
            |c: Seq<char>| exists|f: Flight| #[trigger] contributes(s, k, f) && callsigns_of(f).contains(c),
        ),
    }
}

/// The consolidation of `s`: each key of a usable occurrence of `s`, mapped to its summary.
pub open spec fn consolidated(s: Seq<Flight>) -> Map<(Seq<char>, Seq<char>, Seq<char>), InfoView> {
    Map::new(|k: (Seq<char>, Seq<char>, Seq<char>)| has_route(s, k), |k: (Seq<char>, Seq<char>, Seq<char>)| summary_of(s, k))
}

/// The summary of one flight number on one route.
#[derive(Clone, Debug)]
pub struct RouteEntry {
    pub flight_number: String,
    pub info: FlightInfo,
}

/// The consolidated schedule: one entry per flight number and route.
#[derive(Clone, Debug)]
pub struct FlightNoMap {
    pub entries: Vec<RouteEntry>,
}

pub open spec fn entry_key(e: RouteEntry) -> (Seq<char>, Seq<char>, Seq<char>) {
    (e.flight_number@, e.info.origin@, e.info.dest@)
}

/// Each summary is well formed and no two entries share a key.
pub open spec fn entries_wf(es: Seq<RouteEntry>) -> bool {
    &&& forall|i: int| 0 <= i < es.len() ==> #[trigger] es[i].info.wf()
    &&& forall|i: int, j: int|
        0 <= i < es.len() && 0 <= j < es.len() && i != j ==> entry_key(#[trigger] es[i]) != entry_key(#[trigger] es[j])
}

impl FlightNoMap {
    /// Each summary is well formed and no two entries share a key.
    pub open spec fn wf(&self) -> bool {
        entries_wf(self.entries@)
    }

    pub open spec fn view(&self) -> Map<(Seq<char>, Seq<char>, Seq<char>), InfoView> {
        Map::new(
            |k: (Seq<char>, Seq<char>, Seq<char>)| exists|i: int| 0 <= i < self.entries@.len() && entry_key(#[trigger] self.entries@[i]) == k,
            |k: (Seq<char>, Seq<char>, Seq<char>)| self.entries@[choose|i: int| 0 <= i < self.entries@.len() && entry_key(#[trigger] self.entries@[i]) == k].info@,
        )
    }
}

impl FlightNoMap {
    /// The summary of a flight number on a route, if the map holds one.
    pub fn get(&self, flight_number: &String, origin: &String, dest: &String) -> (r: Option<&FlightInfo>)
        requires
            self.wf(),
        ensures
            match r {
                Some(info) => self@.contains_key((flight_number@, origin@, dest@))
                    && info@ == self@[(flight_number@, origin@, dest@)],
                None => !self@.contains_key((flight_number@, origin@, dest@)),
            },
    {
        let mut j: usize = 0;
        while j < self.entries.len()
            invariant
                self.wf(),
                j <= self.entries@.len(),
                forall|i: int| 0 <= i < j ==> entry_key(#[trigger] self.entries@[i]) != (flight_number@, origin@, dest@),
            decreases self.entries@.len() - j,
        {
            let e = &self.entries[j];
            if e.flight_number.eq(flight_number) && e.info.origin.eq(origin) && e.info.dest.eq(dest) {
                proof {
                    assert(entry_key(self.entries@[j as int]) == (flight_number@, origin@, dest@));
                    let c = choose|i: int| 0 <= i < self.entries@.len() && entry_key(#[trigger] self.entries@[i]) == (flight_number@, origin@, dest@);
                    assert(entry_key(self.entries@[c]) == entry_key(self.entries@[j as int]));
                }
                return Some(&e.info);
            }
            j = j + 1;
        }
        None
    }
}

proof fn lemma_summary_step(s: Seq<Flight>, s2: Seq<Flight>, f: Flight, k: (Seq<char>, Seq<char>, Seq<char>))
    requires
        forall|g: Flight| s2.contains(g) <==> (s.contains(g) || g == f),
    ensures
        has_route(s2, k) <==> (has_route(s, k) || (is_usable(f) && key_of(f) == k)),
        (is_usable(f) && key_of(f) == k) ==> summary_of(s2, k) == merge_view(summary_of(s, k), f),
        !(is_usable(f) && key_of(f) == k) ==> summary_of(s2, k) == summary_of(s, k),
{
    assert forall|g: Flight| contributes(s2, k, g) <==> (contributes(s, k, g) || (g == f && is_usable(f) && key_of(f) == k)) by {}
    if is_usable(f) && key_of(f) == k {
        assert(contributes(s2, k, f));
        let a = summary_of(s2, k);
        let b = merge_view(summary_of(s, k), f);
        assert(a.departures =~= b.departures);
        assert(a.arrivals =~= b.arrivals);
        assert(a.weekdays =~= b.weekdays);
        assert(a.models =~= b.models);
        assert(a.callsigns =~= b.callsigns);
    } else {
        let a = summary_of(s2, k);
        let b = summary_of(s, k);
        assert(a.departures =~= b.departures);
        assert(a.arrivals =~= b.arrivals);
        assert(a.weekdays =~= b.weekdays);
        assert(a.models =~= b.models);
        assert(a.callsigns =~= b.callsigns);
    }
}

proof fn lemma_step_all(s: Seq<Flight>, s2: Seq<Flight>, f: Flight)
    requires
        forall|g: Flight| s2.contains(g) <==> (s.contains(g) || g == f),
    ensures
        forall|k: (Seq<char>, Seq<char>, Seq<char>)|
            #![trigger has_route(s2, k)]
            #![trigger summary_of(s2, k)]
            {
                &&& has_route(s2, k) <==> (has_route(s, k) || (is_usable(f) && key_of(f) == k))
                &&& (is_usable(f) && key_of(f) == k) ==> summary_of(s2, k) == merge_view(summary_of(s, k), f)
                &&& !(is_usable(f) && key_of(f) == k) ==> summary_of(s2, k) == summary_of(s, k)
            },
{
    assert forall|k: (Seq<char>, Seq<char>, Seq<char>)|
        #![trigger has_route(s2, k)]
        #![trigger summary_of(s2, k)]
        {
            &&& has_route(s2, k) <==> (has_route(s, k) || (is_usable(f) && key_of(f) == k))
            &&& (is_usable(f) && key_of(f) == k) ==> summary_of(s2, k) == merge_view(summary_of(s, k), f)
            &&& !(is_usable(f) && key_of(f) == k) ==> summary_of(s2, k) == summary_of(s, k)
        } by {
        lemma_summary_step(s, s2, f, k);
    }
}

proof fn lemma_first_of_route(s: Seq<Flight>, f: Flight)
    requires
        !has_route(s, key_of(f)),
    ensures
        merge_view(summary_of(s, key_of(f)), f) == initial_view(f),
{
    let a = merge_view(summary_of(s, key_of(f)), f);
    let b = initial_view(f);
    assert(a.departures =~= b.departures);
    assert(a.arrivals =~= b.arrivals);
    assert(a.weekdays =~= b.weekdays);
    assert(a.models =~= b.models);
    assert(a.callsigns =~= b.callsigns);
}

/// The position of the entry with the key of `f`, if there is one.
fn find_entry(entries: &Vec<RouteEntry>, f: &Flight) -> (r: Option<usize>)
    ensures
        match r {
            Some(j) => j < entries@.len() && entry_key(entries@[j as int]) == key_of(*f),
            None => forall|j: int| 0 <= j < entries@.len() ==> entry_key(#[trigger] entries@[j]) != key_of(*f),
        },
{
    let mut j: usize = 0;
    while j < entries.len()
        invariant
            j <= entries@.len(),
            forall|i: int| 0 <= i < j ==> entry_key(#[trigger] entries@[i]) != key_of(*f),
        decreases entries@.len() - j,
    {
        let e = &entries[j];
        if e.flight_number == f.identification.number.default && e.info.origin == f.airport.origin.code.icao
            && e.info.dest == f.airport.destination.code.icao {
            return Some(j);
        }
        j = j + 1;
    }
    None
}

/// Groups the occurrences by flight number and route, and gives each group the union of
/// what its occurrences contribute. Occurrences that are not well formed (see
/// `Flight::is_well_formed`) are skipped. The result does not depend on the order of
/// the occurrences, and holds no key twice.
pub fn consolidate_flight_info(flights: Vec<Flight>) -> (r: FlightNoMap)
    ensures
        r.wf(),
        r@ == consolidated(flights@),
{
    let ghost all = flights@;
    let mut flights = flights;
    let mut entries: Vec<RouteEntry> = Vec::new();
    while flights.len() > 0
        invariant
            flights@.len() <= all.len(),
            flights@ == all.subrange(0, flights@.len() as int),
            entries_wf(entries@),
            forall|j: int| 0 <= j < entries@.len() ==>
                has_route(all.subrange(flights@.len() as int, all.len() as int), #[trigger] entry_key(entries@[j])),
            forall|j: int| 0 <= j < entries@.len() ==>
                (#[trigger] entries@[j]).info@ == summary_of(all.subrange(flights@.len() as int, all.len() as int), entry_key(entries@[j])),
            forall|k: (Seq<char>, Seq<char>, Seq<char>)| #[trigger] has_route(all.subrange(flights@.len() as int, all.len() as int), k) ==>
                exists|j: int| 0 <= j < entries@.len() && entry_key(#[trigger] entries@[j]) == k,
        decreases flights@.len(),
    {
        let ghost s = all.subrange(flights@.len() as int, all.len() as int);
        let f = flights.pop().unwrap();
        let ghost s2 = all.subrange(flights@.len() as int, all.len() as int);
        let ghost g = f;
        let ghost old_entries = entries@;
        proof {
            assert forall|h: Flight| s2.contains(h) <==> (s.contains(h) || h == g) by {
                if s.contains(h) {
                    let i = choose|i: int| 0 <= i < s.len() && s[i] == h;
                    assert(s2[i + 1] == h);
                }
                if h == g {
                    assert(s2[0] == h);
                }
                if s2.contains(h) {
                    let i = choose|i: int| 0 <= i < s2.len() && s2[i] == h;
                    if i > 0 {
                        assert(s[i - 1] == h);
                    }
                }
            }
            lemma_step_all(s, s2, g);
        }
        if f.is_well_formed() {
            match find_entry(&entries, &f) {
                Some(j) => {
                    assert(old_entries[j as int].info.wf());
                    let mut e = entries.remove(j);
                    e.info.merge(f);
                    entries.insert(j, e);
                    proof {
                        assert(entries@ =~= old_entries.update(j as int, e));
                        assert(entry_key(e) == entry_key(old_entries[j as int]));
                        assert forall|k: (Seq<char>, Seq<char>, Seq<char>)| #[trigger] has_route(s2, k) implies
                            exists|i: int| 0 <= i < entries@.len() && entry_key(#[trigger] entries@[i]) == k by {
                            if has_route(s, k) {
                                let i = choose|i: int| 0 <= i < old_entries.len() && entry_key(#[trigger] old_entries[i]) == k;
                                assert(entry_key(entries@[i]) == k);
                            } else {
                                assert(entry_key(entries@[j as int]) == k);
                            }
                        }
                    }
                },
                None => {
                    let number = f.identification.number.default.clone();
                    proof {
                        lemma_first_of_route(s, g);
                    }
                    entries.push(RouteEntry { flight_number: number, info: FlightInfo::from(f) });
                    proof {
                        let n = old_entries.len() as int;
                        assert(entry_key(entries@[n]) == key_of(g));
                        assert forall|k: (Seq<char>, Seq<char>, Seq<char>)| #[trigger] has_route(s2, k) implies
                            exists|i: int| 0 <= i < entries@.len() && entry_key(#[trigger] entries@[i]) == k by {
                            if has_route(s, k) {
                                let i = choose|i: int| 0 <= i < old_entries.len() && entry_key(#[trigger] old_entries[i]) == k;
                                assert(entry_key(entries@[i]) == k);
                            } else {
                                assert(entry_key(entries@[n]) == k);
                            }
                        }
                    }
                },
            }
        }
    }
    proof {
        assert(all.subrange(0, all.len() as int) =~= all);
    }
    let r = FlightNoMap { entries };
    proof {
        assert(r@ =~= consolidated(all));
    }
    r
}

proof fn lemma_push_contains(s: Seq<Flight>, f: Flight)
    ensures
        forall|g: Flight| s.push(f).contains(g) <==> (s.contains(g) || g == f),
{
    assert forall|g: Flight| s.push(f).contains(g) <==> (s.contains(g) || g == f) by {
        if s.contains(g) {
            let i = choose|i: int| 0 <= i < s.len() && s[i] == g;
            assert(s.push(f)[i] == g);
        }
        if g == f {
            assert(s.push(f)[s.len() as int] == g);
        }
        if s.push(f).contains(g) {
            let i = choose|i: int| 0 <= i < s.push(f).len() && s.push(f)[i] == g;
            if i < s.len() {
                assert(s[i] == g);
            }
        }
    }
}

/// The consolidation depends only on which occurrences are given, not on their order:
/// two sequences that are permutations of each other consolidate to the same summaries.
pub proof fn lemma_order_independent(a: Seq<Flight>, b: Seq<Flight>)
    requires
        a.to_multiset() == b.to_multiset(),
    ensures
        consolidated(a) == consolidated(b),
{
    a.to_multiset_ensures();
    b.to_multiset_ensures();
    assert forall|f: Flight| a.contains(f) <==> b.contains(f) by {
        assert(a.to_multiset().count(f) == b.to_multiset().count(f));
        assert(a.contains(f) <==> a.to_multiset().count(f) > 0);
        assert(b.contains(f) <==> b.to_multiset().count(f) > 0);
    }
    assert forall|k: (Seq<char>, Seq<char>, Seq<char>)| summary_of(a, k) == summary_of(b, k) by {
        assert forall|f: Flight| contributes(a, k, f) <==> contributes(b, k, f) by {}
        assert(summary_of(a, k).departures =~= summary_of(b, k).departures);
        assert(summary_of(a, k).arrivals =~= summary_of(b, k).arrivals);
        assert(summary_of(a, k).weekdays =~= summary_of(b, k).weekdays);
        assert(summary_of(a, k).models =~= summary_of(b, k).models);
        assert(summary_of(a, k).callsigns =~= summary_of(b, k).callsigns);
    }
    assert forall|k: (Seq<char>, Seq<char>, Seq<char>)| has_route(a, k) <==> has_route(b, k) by {
        if has_route(a, k) {
            let f = choose|f: Flight| contributes(a, k, f);
            assert(contributes(b, k, f));
        }
        if has_route(b, k) {
            let f = choose|f: Flight| contributes(b, k, f);
            assert(contributes(a, k, f));
        }
    }
    assert(consolidated(a) =~= consolidated(b));
}

/// Two occurrences of one route that carry the same times, model and callsign make a
/// single summary whose sets hold each value once: the summary that either makes alone.
pub proof fn lemma_duplicates_absorbed(f: Flight, g: Flight)
    requires
        is_usable(f),
        key_of(g) == key_of(f),
        g.time.scheduled == f.time.scheduled,
        g.aircraft.model.code@ == f.aircraft.model.code@,
        match (f.identification.callsign, g.identification.callsign) {
            (Some(x), Some(y)) => x@ == y@,
            (None, None) => true,
            _ => false,
        },
    ensures
        consolidated(seq![f, g]).dom() == set![key_of(f)],
        consolidated(seq![f, g])[key_of(f)] == initial_view(f),
        consolidated(seq![f, g])[key_of(f)].models.len() == 1,
        f.time.scheduled.departure is Some ==> consolidated(seq![f, g])[key_of(f)].departures.len() == 1
            && consolidated(seq![f, g])[key_of(f)].weekdays.len() == 1,
        f.time.scheduled.arrival is Some ==> consolidated(seq![f, g])[key_of(f)].arrivals.len() == 1,
        f.identification.callsign is Some ==> consolidated(seq![f, g])[key_of(f)].callsigns.len() == 1,
{
    let k = key_of(f);
    let s0 = Seq::<Flight>::empty();
    let s1 = s0.push(f);
    let s2 = s1.push(g);
    assert(s2 =~= seq![f, g]);
    lemma_push_contains(s0, f);
    lemma_push_contains(s1, g);
    lemma_step_all(s0, s1, f);
    lemma_step_all(s1, s2, g);
    assert(!has_route(s0, k));
    lemma_first_of_route(s0, f);
    let v = initial_view(f);
    let w = merge_view(v, g);
    assert(w.departures =~= v.departures);
    assert(w.arrivals =~= v.arrivals);
    assert(w.weekdays =~= v.weekdays);
    assert(w.models =~= v.models);
    assert(w.callsigns =~= v.callsigns);
    assert forall|k2: (Seq<char>, Seq<char>, Seq<char>)| has_route(s2, k2) <==> k2 == k by {}
    assert(consolidated(s2).dom() =~= set![k]);
    assert(v.models.len() == 1) by {
        assert(v.models =~= Set::empty().insert(f.aircraft.model.code@));
    }
    if let Some(d) = f.time.scheduled.departure {
        assert(v.departures.len() == Set::<TimeOfDay>::empty().insert(utc_time_of_day(d)).len());
        assert(v.weekdays.len() == Set::<Weekday>::empty().insert(utc_weekday(d)).len());
    }
    if let Some(a) = f.time.scheduled.arrival {
        assert(v.arrivals.len() == Set::<TimeOfDay>::empty().insert(utc_time_of_day(a)).len());
    }
    if let Some(c) = f.identification.callsign {
        assert(v.callsigns.len() == Set::<Seq<char>>::empty().insert(c@).len());
    }
}

/// An occurrence without a scheduled departure adds no departure time and no weekday to
/// its route's summary, and still adds its aircraft model.
pub proof fn lemma_missing_departure(s: Seq<Flight>, f: Flight)
    requires
        is_usable(f),
        f.time.scheduled.departure is None,
    ensures
        consolidated(s.push(f)).contains_key(key_of(f)),
        consolidated(s.push(f))[key_of(f)].departures == summary_of(s, key_of(f)).departures,
        consolidated(s.push(f))[key_of(f)].weekdays == summary_of(s, key_of(f)).weekdays,
        consolidated(s.push(f))[key_of(f)].models.contains(f.aircraft.model.code@),
{
    lemma_push_contains(s, f);
    lemma_step_all(s, s.push(f), f);
    let k = key_of(f);
    assert(has_route(s.push(f), k));
    assert(summary_of(s.push(f), k).departures =~= summary_of(s, k).departures);
    assert(summary_of(s.push(f), k).weekdays =~= summary_of(s, k).weekdays);
}

/// Occurrences of one flight number on a route and on its return (origin and
/// destination swapped) stay apart: each route has a summary of its own, whose origin
/// and destination are those of the route.
pub proof fn lemma_routes_separate(s: Seq<Flight>, f: Flight, g: Flight)
    requires
        s.contains(f),
        s.contains(g),
        is_usable(f),
        is_usable(g),
        g.identification.number.default@ == f.identification.number.default@,
        g.airport.origin.code.icao@ == f.airport.destination.code.icao@,
        g.airport.destination.code.icao@ == f.airport.origin.code.icao@,
        f.airport.origin.code.icao@ != f.airport.destination.code.icao@,
    ensures
        key_of(f) != key_of(g),
        consolidated(s).contains_key(key_of(f)),
        consolidated(s).contains_key(key_of(g)),
        consolidated(s)[key_of(f)].origin == f.airport.origin.code.icao@,
        consolidated(s)[key_of(f)].dest == f.airport.destination.code.icao@,
        consolidated(s)[key_of(g)].origin == f.airport.destination.code.icao@,
        consolidated(s)[key_of(g)].dest == f.airport.origin.code.icao@,
{
    assert(contributes(s, key_of(f), f));
    assert(contributes(s, key_of(g), g));
}

/// No occurrences, no summaries.
pub proof fn lemma_empty_input()
    ensures
        consolidated(Seq::<Flight>::empty()) == Map::<(Seq<char>, Seq<char>, Seq<char>), InfoView>::empty(),
{
    assert(consolidated(Seq::<Flight>::empty()) =~= Map::<(Seq<char>, Seq<char>, Seq<char>), InfoView>::empty());
}

/// An occurrence without a callsign adds no callsign to any summary; every callsign of a
/// summary is one that an occurrence of its route carried.
pub proof fn lemma_missing_callsign(s: Seq<Flight>, f: Flight)
    requires
        f.identification.callsign is None,
    ensures
        forall|k: (Seq<char>, Seq<char>, Seq<char>)|
            #[trigger] summary_of(s.push(f), k).callsigns == summary_of(s, k).callsigns,
        forall|k: (Seq<char>, Seq<char>, Seq<char>), c: Seq<char>|
            #[trigger] summary_of(s, k).callsigns.contains(c) ==> exists|g: Flight|
                #[trigger] contributes(s, k, g) && (g.identification.callsign matches Some(x) && x@ == c),
{
    lemma_push_contains(s, f);
    lemma_step_all(s, s.push(f), f);
    assert forall|k: (Seq<char>, Seq<char>, Seq<char>)|
        #[trigger] summary_of(s.push(f), k).callsigns == summary_of(s, k).callsigns by {
        assert(summary_of(s.push(f), k).callsigns =~= summary_of(s, k).callsigns);
    }
}

} // verus!
