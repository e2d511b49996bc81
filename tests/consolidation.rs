use flight_schedule::consolidate::{consolidate_flight_info, FlightNoMap};
use flight_schedule::record::{
    Aircraft, Airport, Airports, Code, Flight, FlightApiResponse, FlightApiResult,
    FlightNumberData, Fr24FlightApiResponse, Identification, Model, PageData, TimeData, Times,
    User,
};
use flight_schedule::summary::FlightInfo;
use flight_schedule::time::{time_of_day, weekday_of, TimeOfDay, Weekday};

// 2024-01-01T10:00:00Z, a Monday
const JAN1_10H: i64 = 1704103200;
// 2024-01-08T10:00:00Z, a Monday
const JAN8_10H: i64 = 1704708000;
// 2024-01-01T22:00:00Z
const JAN1_22H: i64 = 1704146400;

fn airport(icao: &str) -> Airport {
    Airport {
        name: String::new(),
        code: Code { iata: String::new(), icao: icao.to_string() },
    }
}

fn no_times() -> Times {
    Times { departure: None, arrival: None }
}

fn flight(
    number: &str,
    origin: &str,
    dest: &str,
    dep: Option<i64>,
    arr: Option<i64>,
    model: &str,
    callsign: Option<&str>,
) -> Flight {
    Flight {
        aircraft: Aircraft {
            model: Model { code: model.to_string(), text: None },
            registration: None,
            hex: None,
            serial_no: None,
        },
        airline: None,
        airport: Airports { origin: airport(origin), destination: airport(dest) },
        identification: Identification {
            number: FlightNumberData { default: number.to_string(), alternative: None },
            callsign: callsign.map(|c| c.to_string()),
        },
        time: TimeData {
            scheduled: Times { departure: dep, arrival: arr },
            real: no_times(),
            estimated: no_times(),
        },
    }
}

fn find<'a>(m: &'a FlightNoMap, number: &str, origin: &str, dest: &str) -> Option<&'a FlightInfo> {
    m.get(&number.to_string(), &origin.to_string(), &dest.to_string())
}

fn sorted_secs(v: &[TimeOfDay]) -> Vec<u32> {
    let mut r: Vec<u32> = v.iter().map(|t| t.secs).collect();
    r.sort();
    r
}

fn sorted_strs(v: &[String]) -> Vec<String> {
    let mut r = v.to_vec();
    r.sort();
    r
}

fn sorted_days(v: &[Weekday]) -> Vec<u32> {
    let mut r: Vec<u32> = v.iter().map(|w| w.num_days_from_monday()).collect();
    r.sort();
    r
}

#[test]
fn directional_example() {
    let input = vec![
        flight("BA123", "EGLL", "KJFK", Some(JAN1_10H), None, "B77W", None),
        flight("BA123", "EGLL", "KJFK", Some(JAN8_10H), None, "B77W", None),
        flight("BA123", "KJFK", "EGLL", Some(JAN1_22H), None, "B77W", None),
    ];
    let m = consolidate_flight_info(input);
    assert_eq!(m.entries.len(), 2);
    let out = find(&m, "BA123", "EGLL", "KJFK").unwrap();
    assert_eq!(out.scheduled_departure, vec![TimeOfDay::from_hms(10, 0, 0)]);
    assert_eq!(out.weekday, vec![Weekday::Mon]);
    assert_eq!(out.model, vec!["B77W".to_string()]);
    assert!(out.scheduled_arrival.is_empty());
    assert!(out.callsign.is_empty());
    let back = find(&m, "BA123", "KJFK", "EGLL").unwrap();
    assert_eq!(back.scheduled_departure, vec![TimeOfDay::from_hms(22, 0, 0)]);
    assert_eq!(back.weekday, vec![Weekday::Mon]);
    assert_eq!(back.model, vec!["B77W".to_string()]);
}

#[test]
fn empty_input_gives_empty_map() {
    let m = consolidate_flight_info(vec![]);
    assert!(m.entries.is_empty());
    assert!(find(&m, "BA123", "EGLL", "KJFK").is_none());
}

#[test]
fn lookup_of_absent_route() {
    let m = consolidate_flight_info(vec![flight("BA1", "EGLL", "KJFK", None, None, "B77W", None)]);
    assert!(find(&m, "BA1", "EGLL", "KJFK").is_some());
    assert!(find(&m, "BA1", "KJFK", "EGLL").is_none());
    assert!(find(&m, "BA2", "EGLL", "KJFK").is_none());
}

#[test]
fn identical_occurrences_are_absorbed() {
    let f = flight("LH400", "EDDF", "KJFK", Some(JAN1_10H), Some(JAN1_22H), "B748", Some("DLH400"));
    let g = f.clone();
    let m = consolidate_flight_info(vec![f, g]);
    assert_eq!(m.entries.len(), 1);
    let info = &m.entries[0].info;
    assert_eq!(info.scheduled_departure.len(), 1);
    assert_eq!(info.scheduled_arrival.len(), 1);
    assert_eq!(info.weekday.len(), 1);
    assert_eq!(info.model.len(), 1);
    assert_eq!(info.callsign.len(), 1);
}

#[test]
fn missing_departure_still_adds_model() {
    let m = consolidate_flight_info(vec![
        flight("AF1", "LFPG", "EGLL", Some(JAN1_10H), None, "A320", None),
        flight("AF1", "LFPG", "EGLL", None, Some(JAN1_22H), "A321", None),
    ]);
    let info = find(&m, "AF1", "LFPG", "EGLL").unwrap();
    assert_eq!(sorted_secs(&info.scheduled_departure), vec![36000]);
    assert_eq!(info.weekday, vec![Weekday::Mon]);
    assert_eq!(sorted_secs(&info.scheduled_arrival), vec![79200]);
    assert_eq!(sorted_strs(&info.model), vec!["A320".to_string(), "A321".to_string()]);
}

#[test]
fn only_missing_departure() {
    let m = consolidate_flight_info(vec![flight("AF2", "LFPG", "EGLL", None, None, "A320", None)]);
    let info = find(&m, "AF2", "LFPG", "EGLL").unwrap();
    assert!(info.scheduled_departure.is_empty());
    assert!(info.weekday.is_empty());
    assert_eq!(info.model, vec!["A320".to_string()]);
}

#[test]
fn swapped_routes_stay_apart() {
    let m = consolidate_flight_info(vec![
        flight("KL1", "EHAM", "EGLL", Some(JAN1_10H), None, "E190", None),
        flight("KL1", "EGLL", "EHAM", Some(JAN1_22H), None, "E175", None),
    ]);
    assert_eq!(m.entries.len(), 2);
    let a = find(&m, "KL1", "EHAM", "EGLL").unwrap();
    let b = find(&m, "KL1", "EGLL", "EHAM").unwrap();
    assert_eq!(a.model, vec!["E190".to_string()]);
    assert_eq!(b.model, vec!["E175".to_string()]);
}

#[test]
fn flight_numbers_group_apart() {
    let m = consolidate_flight_info(vec![
        flight("KL1", "EHAM", "EGLL", None, None, "E190", None),
        flight("KL2", "EHAM", "EGLL", None, None, "E175", None),
    ]);
    assert_eq!(m.entries.len(), 2);
    assert_eq!(find(&m, "KL2", "EHAM", "EGLL").unwrap().model, vec!["E175".to_string()]);
}

#[test]
fn missing_callsign_adds_nothing() {
    let m = consolidate_flight_info(vec![
        flight("UA1", "KSFO", "RJTT", None, None, "B789", Some("UAL1")),
        flight("UA1", "KSFO", "RJTT", None, None, "B789", None),
    ]);
    let info = find(&m, "UA1", "KSFO", "RJTT").unwrap();
    assert_eq!(info.callsign, vec!["UAL1".to_string()]);

    let m = consolidate_flight_info(vec![flight("UA2", "KSFO", "RJTT", None, None, "B789", None)]);
    assert!(find(&m, "UA2", "KSFO", "RJTT").unwrap().callsign.is_empty());
}

#[test]
fn order_does_not_matter() {
    let a = || {
        vec![
            flight("BA1", "EGLL", "KJFK", Some(JAN1_10H), None, "B77W", Some("BAW1")),
            flight("BA1", "EGLL", "KJFK", Some(JAN8_10H + 3600), Some(JAN1_22H), "A35K", None),
            flight("BA1", "KJFK", "EGLL", Some(JAN1_22H), None, "B77W", Some("BAW1A")),
        ]
    };
    let m1 = consolidate_flight_info(a());
    let mut rev = a();
    rev.reverse();
    let m2 = consolidate_flight_info(rev);
    assert_eq!(m1.entries.len(), m2.entries.len());
    for e in &m1.entries {
        let o = find(&m2, &e.flight_number, &e.info.origin, &e.info.dest).unwrap();
        assert_eq!(sorted_secs(&e.info.scheduled_departure), sorted_secs(&o.scheduled_departure));
        assert_eq!(sorted_secs(&e.info.scheduled_arrival), sorted_secs(&o.scheduled_arrival));
        assert_eq!(sorted_days(&e.info.weekday), sorted_days(&o.weekday));
        assert_eq!(sorted_strs(&e.info.model), sorted_strs(&o.model));
        assert_eq!(sorted_strs(&e.info.callsign), sorted_strs(&o.callsign));
    }
    let info = find(&m1, "BA1", "EGLL", "KJFK").unwrap();
    assert_eq!(sorted_secs(&info.scheduled_departure), vec![36000, 39600]);
}

#[test]
fn malformed_occurrences_are_skipped() {
    let m = consolidate_flight_info(vec![
        flight("", "EGLL", "KJFK", None, None, "B77W", None),
        flight("BA9", "", "KJFK", None, None, "B77W", None),
        flight("BA9", "EGLL", "", None, None, "B77W", None),
        flight("BA9", "EGLL", "KJFK", None, None, "", None),
        flight("BA9", "EGLL", "KJFK", Some(i64::MAX), None, "B77W", None),
        flight("BA9", "EGLL", "KJFK", None, Some(i64::MIN), "B77W", None),
        flight("BA9", "EGLL", "KJFK", None, None, "A388", None),
    ]);
    assert_eq!(m.entries.len(), 1);
    assert_eq!(m.entries[0].info.model, vec!["A388".to_string()]);
}

#[test]
fn well_formed_check() {
    assert!(flight("BA1", "EGLL", "KJFK", Some(0), Some(-5), "B77W", None).is_well_formed());
    assert!(!flight("BA1", "EGLL", "KJFK", Some(i64::MAX), None, "B77W", None).is_well_formed());
    assert!(!flight("", "EGLL", "KJFK", None, None, "B77W", None).is_well_formed());
}

#[test]
fn summary_from_one_occurrence() {
    let info = FlightInfo::from(flight(
        "BA1",
        "EGLL",
        "KJFK",
        Some(JAN1_10H),
        Some(JAN1_22H + 59),
        "B77W",
        Some("BAW1"),
    ));
    assert_eq!(info.origin, "EGLL");
    assert_eq!(info.dest, "KJFK");
    assert_eq!(info.scheduled_departure, vec![TimeOfDay::from_hms(10, 0, 0)]);
    assert_eq!(info.scheduled_arrival, vec![TimeOfDay::from_hms(22, 0, 59)]);
    assert_eq!(info.weekday, vec![Weekday::Mon]);
    assert_eq!(info.model, vec!["B77W".to_string()]);
    assert_eq!(info.callsign, vec!["BAW1".to_string()]);
}

#[test]
fn merge_keeps_route_and_adds_values() {
    let mut info = FlightInfo::from(flight("BA1", "EGLL", "KJFK", Some(JAN1_10H), None, "B77W", None));
    info.merge(flight("BA1", "EGLL", "KJFK", Some(JAN1_10H + 86400), None, "B77W", Some("BAW1")));
    assert_eq!(info.origin, "EGLL");
    assert_eq!(info.dest, "KJFK");
    assert_eq!(info.scheduled_departure, vec![TimeOfDay::from_hms(10, 0, 0)]);
    assert_eq!(info.weekday, vec![Weekday::Mon, Weekday::Tue]);
    assert_eq!(info.model, vec!["B77W".to_string()]);
    assert_eq!(info.callsign, vec!["BAW1".to_string()]);
}

#[test]
fn weekday_and_time_of_day_in_utc() {
    assert_eq!(weekday_of(0), Weekday::Thu);
    assert_eq!(weekday_of(JAN1_10H), Weekday::Mon);
    assert_eq!(weekday_of(-1), Weekday::Wed);
    assert_eq!(time_of_day(3661), TimeOfDay::from_hms(1, 1, 1));
    assert_eq!(time_of_day(-1), TimeOfDay::from_hms(23, 59, 59));
    assert_eq!(time_of_day(JAN1_22H).hms(), (22, 0, 0));
}

#[test]
fn weekday_indices() {
    assert_eq!(Weekday::from_monday_index(6), Weekday::Sun);
    assert_eq!(Weekday::Wed.num_days_from_monday(), 2);
}

#[test]
fn response_without_data_has_no_flights() {
    let empty = Fr24FlightApiResponse {
        result: FlightApiResult {
            response: FlightApiResponse { data: None, page: PageData { current: 1 } },
        },
    };
    assert!(empty.into_flights().is_empty());
    let one = Fr24FlightApiResponse {
        result: FlightApiResult {
            response: FlightApiResponse {
                data: Some(vec![flight("BA1", "EGLL", "KJFK", None, None, "B77W", None)]),
                page: PageData { current: 1 },
            },
        },
    };
    let flights = one.into_flights();
    assert_eq!(flights.len(), 1);
    assert_eq!(flights[0].identification.number.default, "BA1");
}

#[test]
fn user_holds_credentials() {
    let u = User::new("a@b.c".to_string(), "pw".to_string());
    assert_eq!(u.mail, "a@b.c");
    assert_eq!(u.password, "pw");
}
