use plato_config::room::{
    check_chain, check_fleet, check_room, check_sensor, merge_keys, occurs_before,
    prefer_set, ChainSummary, FleetSummary, RoomSummary, SensorSummary,
};

fn s(x: &str) -> String {
    x.to_string()
}

fn sensor(id: &str, ty: &str) -> SensorSummary {
    SensorSummary { id: s(id), sensor_type: s(ty), rate_positive: true, rate_text: s("1") }
}

fn chain(id: &str, input: &str, steps: &[&str]) -> ChainSummary {
    ChainSummary { id: s(id), input_sensor: s(input), steps: steps.iter().map(|x| s(x)).collect() }
}

fn room(id: &str, name: &str) -> RoomSummary {
    RoomSummary { id: s(id), name: s(name), sensors: vec![], signal_chains: vec![] }
}

#[test]
fn sensor_rules() {
    assert_eq!(check_sensor(&sensor("s1", "thermal")), Ok(()));
    assert_eq!(check_sensor(&sensor("", "thermal")), Err(s("sensor id must not be empty")));
    assert_eq!(check_sensor(&sensor("s1", "")), Err(s("sensor type must not be empty")));
    let mut bad = sensor("s1", "thermal");
    bad.rate_positive = false;
    bad.rate_text = s("-1");
    assert_eq!(check_sensor(&bad), Err(s("sample rate must be positive, got -1")));
}

#[test]
fn chain_rules() {
    assert_eq!(check_chain(&chain("chain-1", "s1", &["filter"])), Ok(()));
    assert_eq!(check_chain(&chain("chain-1", "s1", &[])), Err(s("signal chain must have at least one step")));
    assert_eq!(check_chain(&chain("", "s1", &["x"])), Err(s("signal chain id must not be empty")));
    assert_eq!(check_chain(&chain("c", "", &["x"])), Err(s("input sensor must not be empty")));
}

#[test]
fn room_valid_and_empty_id() {
    assert_eq!(check_room(&room("room-1", "Lab")), Ok(()));
    assert_eq!(check_room(&room("", "Lab")), Err(vec![s("room id must not be empty")]));
    assert_eq!(
        check_room(&room("", "")),
        Err(vec![s("room id must not be empty"), s("room name must not be empty")])
    );
}

#[test]
fn room_duplicate_sensors() {
    let mut r = room("room-1", "Lab");
    r.sensors.push(sensor("s1", "thermal"));
    r.sensors.push(sensor("s1", "pressure"));
    let errors = check_room(&r).unwrap_err();
    assert!(errors.iter().any(|e| e.contains("duplicate sensor id")));
    assert_eq!(errors, vec![s("duplicate sensor id: 's1'")]);
}

#[test]
fn room_error_order() {
    let mut r = room("r", "");
    r.sensors.push(sensor("a", ""));
    r.sensors.push(sensor("a", "t"));
    r.sensors.push(sensor("a", "t"));
    r.signal_chains.push(chain("c1", "a", &[]));
    assert_eq!(
        check_room(&r),
        Err(vec![
            s("room name must not be empty"),
            s("sensor 'a': sensor type must not be empty"),
            s("duplicate sensor id: 'a'"),
            s("duplicate sensor id: 'a'"),
            s("signal chain 'c1': signal chain must have at least one step"),
        ])
    );
}

#[test]
fn fleet_rules() {
    let empty = FleetSummary { name: s("fleet-1"), rooms: vec![] };
    assert_eq!(check_fleet(&empty), Err(vec![s("fleet must have at least one room")]));
    let ok = FleetSummary { name: s("fleet-1"), rooms: vec![room("r1", "Room 1")] };
    assert_eq!(check_fleet(&ok), Ok(()));
    let dup = FleetSummary { name: s("fleet-1"), rooms: vec![room("r1", "Room 1"), room("r1", "Room 2")] };
    let errors = check_fleet(&dup).unwrap_err();
    assert!(errors.iter().any(|e| e.contains("duplicate room id")));
}

#[test]
fn fleet_error_order() {
    let f = FleetSummary { name: s(""), rooms: vec![room("r1", ""), room("r1", "x")] };
    assert_eq!(
        check_fleet(&f),
        Err(vec![
            s("fleet name must not be empty"),
            s("room name must not be empty"),
            s("duplicate room id: 'r1'"),
        ])
    );
}

#[test]
fn earlier_occurrence() {
    let ids = vec![s("a"), s("b"), s("a")];
    assert!(!occurs_before(&ids, 0));
    assert!(!occurs_before(&ids, 1));
    assert!(occurs_before(&ids, 2));
}

#[test]
fn merge_plan_combines_sensors() {
    assert_eq!(merge_keys(&vec![s("s1")], &vec![s("s2")]), vec![(false, 0), (true, 0)]);
}

#[test]
fn merge_plan_override_wins() {
    let d = vec![s("env"), s("region")];
    let o = vec![s("region")];
    assert_eq!(merge_keys(&d, &o), vec![(false, 0), (true, 0)]);
}

#[test]
fn merge_plan_last_on_each_side() {
    let d = vec![s("a"), s("b"), s("a")];
    let o = vec![s("b"), s("c"), s("b")];
    assert_eq!(merge_keys(&d, &o), vec![(false, 2), (true, 1), (true, 2)]);
    assert_eq!(merge_keys(&vec![], &vec![]), Vec::<(bool, usize)>::new());
    assert_eq!(merge_keys(&vec![s("k"), s("k")], &vec![]), vec![(false, 1)]);
}

#[test]
fn override_text_preference() {
    assert_eq!(prefer_set(&s("r1"), &s("")), "r1");
    assert_eq!(prefer_set(&s("Default"), &s("")), "Default");
    assert_eq!(prefer_set(&s("Default Name"), &s("Override Name")), "Override Name");
}
