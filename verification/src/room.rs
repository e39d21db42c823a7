//! The rules behind room and fleet configurations: what makes a sensor, a
//! signal chain, a room and a fleet valid, and how two room configurations
//! combine.
//!
//! Sensors carry a floating-point sample rate, which this library does not
//! hold: a [`SensorSummary`] carries what the rules read of it, whether it
//! is positive and how it is written.

use vstd::prelude::*;

verus! {

/// What the sensor rules read of a sensor configuration.
pub struct SensorSummary {
    pub id: String,
    pub sensor_type: String,
    /// Whether the sample rate is above zero.
    pub rate_positive: bool,
    /// The sample rate as it is written in messages.
    pub rate_text: String,
}

/// What the signal-chain rules read of a signal-chain configuration.
pub struct ChainSummary {
    pub id: String,
    pub input_sensor: String,
    pub steps: Vec<String>,
}

/// What the room rules read of a room configuration.
pub struct RoomSummary {
    pub id: String,
    pub name: String,
    pub sensors: Vec<SensorSummary>,
    pub signal_chains: Vec<ChainSummary>,
}

/// What the fleet rules read of a fleet configuration.
pub struct FleetSummary {
    pub name: String,
    pub rooms: Vec<RoomSummary>,
}

/// The first rule a sensor breaks: an id is required, a type is required,
/// the sample rate must be positive.
pub open spec fn sensor_problem(s: SensorSummary) -> Option<Seq<char>> {
    if s.id@.len() == 0 {
        Some("sensor id must not be empty"@)
    } else if s.sensor_type@.len() == 0 {
        Some("sensor type must not be empty"@)
    } else if !s.rate_positive {
        Some("sample rate must be positive, got "@ + s.rate_text@)
    } else {
        None
    }
}

/// The first rule a signal chain breaks: an id is required, an input
/// sensor is required, there must be at least one step.
pub open spec fn chain_problem(c: ChainSummary) -> Option<Seq<char>> {
    if c.id@.len() == 0 {
        Some("signal chain id must not be empty"@)
    } else if c.input_sensor@.len() == 0 {
        Some("input sensor must not be empty"@)
    } else if c.steps@.len() == 0 {
        Some("signal chain must have at least one step"@)
    } else {
        None
    }
}

/// A result that is `Ok` exactly when there is no problem.
pub open spec fn as_result(p: Option<Seq<char>>, r: Result<(), String>) -> bool {
    match p {
        None => r is Ok,
        Some(m) => r matches Err(e) && e@ == m,
    }
}

/// Checks a sensor: `Ok` or the first rule it breaks.
pub fn check_sensor(s: &SensorSummary) -> (r: Result<(), String>)
    ensures
        as_result(sensor_problem(*s), r),
        r is Ok <==> s.id@.len() > 0 && s.sensor_type@.len() > 0 && s.rate_positive,
        s.id@.len() == 0 ==> (r matches Err(e) && e@ == "sensor id must not be empty"@),
        s.id@.len() > 0 && s.sensor_type@.len() == 0 ==> (r matches Err(e) && e@
            == "sensor type must not be empty"@),
{
    if s.id.as_str().is_empty() {
        Err(String::from_str("sensor id must not be empty"))
    } else if s.sensor_type.as_str().is_empty() {
        Err(String::from_str("sensor type must not be empty"))
    } else if !s.rate_positive {
        Err(String::from_str("sample rate must be positive, got ").concat(s.rate_text.as_str()))
    } else {
        Ok(())
    }
}

/// Checks a signal chain: `Ok` or the first rule it breaks.
pub fn check_chain(c: &ChainSummary) -> (r: Result<(), String>)
    ensures
        as_result(chain_problem(*c), r),
        r is Ok <==> c.id@.len() > 0 && c.input_sensor@.len() > 0 && c.steps.len() > 0,
        c.id@.len() == 0 ==> (r matches Err(e) && e@ == "signal chain id must not be empty"@),
{
    if c.id.as_str().is_empty() {
        Err(String::from_str("signal chain id must not be empty"))
    } else if c.input_sensor.as_str().is_empty() {
        Err(String::from_str("input sensor must not be empty"))
    } else if c.steps.len() == 0 {
        Err(String::from_str("signal chain must have at least one step"))
    } else {
        Ok(())
    }
}

} // verus!

verus! {

/// A message naming the item a problem belongs to, when there is one.
pub open spec fn labelled(label: Seq<char>, id: Seq<char>, problem: Option<Seq<char>>) -> Seq<Seq<char>> {
    match problem {
        Some(m) => seq![label + id + "': "@ + m],
        None => Seq::empty(),
    }
}

/// The messages for the sensors that break a rule, in order.
pub open spec fn sensor_errors(ss: Seq<SensorSummary>) -> Seq<Seq<char>>
    decreases ss.len(),
{
    if ss.len() == 0 {
        Seq::empty()
    } else {
        sensor_errors(ss.drop_last()) + labelled("sensor '"@, ss.last().id@, sensor_problem(ss.last()))
    }
}

/// The messages for the signal chains that break a rule, in order.
pub open spec fn chain_errors(cs: Seq<ChainSummary>) -> Seq<Seq<char>>
    decreases cs.len(),
{
    if cs.len() == 0 {
        Seq::empty()
    } else {
        chain_errors(cs.drop_last()) + labelled(
            "signal chain '"@,
            cs.last().id@,
            chain_problem(cs.last()),
        )
    }
}

/// One message for each id that already occurred earlier in `ids`, in order.
pub open spec fn duplicate_errors(ids: Seq<Seq<char>>, label: Seq<char>) -> Seq<Seq<char>>
    decreases ids.len(),
{
    if ids.len() == 0 {
        Seq::empty()
    } else {
        duplicate_errors(ids.drop_last(), label) + if ids.drop_last().contains(ids.last()) {
            seq![label + ids.last() + "'"@]
        } else {
            Seq::empty()
        }
    }
}

/// The ids of a sequence of sensors.
pub open spec fn sensor_ids(ss: Seq<SensorSummary>) -> Seq<Seq<char>> {
    ss.map_values(|s: SensorSummary| s.id@)
}

/// A one-message list when `broken` holds, else nothing.
pub open spec fn message_if(broken: bool, message: Seq<char>) -> Seq<Seq<char>> {
    if broken {
        seq![message]
    } else {
        Seq::empty()
    }
}

/// Every rule a room breaks, in this order: an id and a name are required,
/// then each sensor's problem, then each repeated sensor id, then each
/// signal chain's problem.
pub open spec fn room_errors(r: RoomSummary) -> Seq<Seq<char>> {
    message_if(r.id@.len() == 0, "room id must not be empty"@)
        + message_if(r.name@.len() == 0, "room name must not be empty"@)
        + sensor_errors(r.sensors@)
        + duplicate_errors(sensor_ids(r.sensors@), "duplicate sensor id: '"@)
        + chain_errors(r.signal_chains@)
}

fn push_text(v: &mut Vec<String>, s: String)
    ensures
        final(v).deep_view() == old(v).deep_view().push(s@),
{
    let ghost sv = s@;
    v.push(s);
    assert(v.deep_view() =~= old(v).deep_view().push(sv));
}

/// Whether the id at position `i` already occurs before it.
pub fn occurs_before(ids: &Vec<String>, i: usize) -> (r: bool)
    requires
        i < ids.len(),
    ensures
        r == ids.deep_view().take(i as int).contains(ids.deep_view()[i as int]),
{
    let mut j: usize = 0;
    while j < i
        invariant
            i < ids.len(),
            j <= i,
            forall|k: int| 0 <= k < j ==> ids.deep_view()[k] != ids.deep_view()[i as int],
        decreases i - j,
    {
        if ids[j] == ids[i] {
            assert(ids.deep_view().take(i as int)[j as int] == ids.deep_view()[i as int]);
            return true;
        }
        j = j + 1;
    }
    false
}

fn sensor_id_list(ss: &Vec<SensorSummary>) -> (ids: Vec<String>)
    ensures
        ids.deep_view() == sensor_ids(ss@),
{
    let mut ids: Vec<String> = Vec::new();
    let mut i: usize = 0;
    while i < ss.len()
        invariant
            i <= ss.len(),
            ids.deep_view() == sensor_ids(ss@.take(i as int)),
        decreases ss.len() - i,
    {
        push_text(&mut ids, ss[i].id.clone());
        assert(sensor_ids(ss@.take(i + 1)) =~= sensor_ids(ss@.take(i as int)).push(ss@[i as int].id@));
        i = i + 1;
    }
    assert(ss@.take(ss.len() as int) =~= ss@);
    ids
}

fn add_duplicate_errors(errors: &mut Vec<String>, ids: &Vec<String>, label: &str)
    ensures
        final(errors).deep_view() == old(errors).deep_view() + duplicate_errors(
            ids.deep_view(),
            label@,
        ),
{
    let mut i: usize = 0;
    assert(ids.deep_view().take(0) =~= Seq::<Seq<char>>::empty());
    assert(errors.deep_view() =~= old(errors).deep_view() + duplicate_errors(
        ids.deep_view().take(0),
        label@,
    ));
    while i < ids.len()
        invariant
            i <= ids.len(),
            errors.deep_view() == old(errors).deep_view() + duplicate_errors(
                ids.deep_view().take(i as int),
                label@,
            ),
        decreases ids.len() - i,
    {
        let ghost pre = ids.deep_view().take(i + 1);
        assert(pre.drop_last() =~= ids.deep_view().take(i as int));
        assert(pre.last() == ids.deep_view()[i as int]);
        if occurs_before(ids, i) {
            let m = label.to_owned().concat(ids[i].as_str()).concat("'");
            push_text(errors, m);
        }
        assert(errors.deep_view() =~= old(errors).deep_view() + duplicate_errors(pre, label@));
        i = i + 1;
    }
    assert(ids.deep_view().take(ids.len() as int) =~= ids.deep_view());
}

fn add_sensor_errors(errors: &mut Vec<String>, ss: &Vec<SensorSummary>)
    ensures
        final(errors).deep_view() == old(errors).deep_view() + sensor_errors(ss@),
{
    let mut i: usize = 0;
    assert(errors.deep_view() =~= old(errors).deep_view() + sensor_errors(ss@.take(0)));
    while i < ss.len()
        invariant
            i <= ss.len(),
            errors.deep_view() == old(errors).deep_view() + sensor_errors(ss@.take(i as int)),
        decreases ss.len() - i,
    {
        let ghost pre = ss@.take(i + 1);
        assert(pre.drop_last() =~= ss@.take(i as int));
        match check_sensor(&ss[i]) {
            Err(e) => {
                let m = String::from_str("sensor '").concat(ss[i].id.as_str()).concat("': ").concat(
                    e.as_str(),
                );
                push_text(errors, m);
            },
            Ok(()) => {},
        }
        assert(errors.deep_view() =~= old(errors).deep_view() + sensor_errors(pre));
        i = i + 1;
    }
    assert(ss@.take(ss.len() as int) =~= ss@);
}

fn add_chain_errors(errors: &mut Vec<String>, cs: &Vec<ChainSummary>)
    ensures
        final(errors).deep_view() == old(errors).deep_view() + chain_errors(cs@),
{
    let mut i: usize = 0;
    assert(errors.deep_view() =~= old(errors).deep_view() + chain_errors(cs@.take(0)));
    while i < cs.len()
        invariant
            i <= cs.len(),
            errors.deep_view() == old(errors).deep_view() + chain_errors(cs@.take(i as int)),
        decreases cs.len() - i,
    {
        let ghost pre = cs@.take(i + 1);
        assert(pre.drop_last() =~= cs@.take(i as int));
        match check_chain(&cs[i]) {
            Err(e) => {
                let m = String::from_str("signal chain '").concat(cs[i].id.as_str()).concat(
                    "': ",
                ).concat(e.as_str());
                push_text(errors, m);
            },
            Ok(()) => {},
        }
        assert(errors.deep_view() =~= old(errors).deep_view() + chain_errors(pre));
        i = i + 1;
    }
    assert(cs@.take(cs.len() as int) =~= cs@);
}

fn add_room_errors(errors: &mut Vec<String>, room: &RoomSummary)
    ensures
        final(errors).deep_view() == old(errors).deep_view() + room_errors(*room),
{
    let ghost start = errors.deep_view();
    if room.id.as_str().is_empty() {
        push_text(errors, String::from_str("room id must not be empty"));
    }
    if room.name.as_str().is_empty() {
        push_text(errors, String::from_str("room name must not be empty"));
    }
    let ghost after_names = errors.deep_view();
    assert(after_names =~= start + message_if(room.id@.len() == 0, "room id must not be empty"@)
        + message_if(room.name@.len() == 0, "room name must not be empty"@));
    add_sensor_errors(errors, &room.sensors);
    let ids = sensor_id_list(&room.sensors);
    add_duplicate_errors(errors, &ids, "duplicate sensor id: '");
    add_chain_errors(errors, &room.signal_chains);
    assert(errors.deep_view() =~= start + room_errors(*room));
}

/// Checks a room: `Ok` when it breaks no rule, else every broken rule's
/// message in the order of [`room_errors`].
pub fn check_room(room: &RoomSummary) -> (r: Result<(), Vec<String>>)
    ensures
        r is Ok <==> room_errors(*room).len() == 0,
        r is Ok <==> room_is_valid(*room),
        r matches Err(es) ==> es.deep_view() == room_errors(*room),
{
    proof {
        lemma_room_errors_empty(*room);
    }
    let mut errors: Vec<String> = Vec::new();
    assert(errors.deep_view() =~= Seq::<Seq<char>>::empty());
    add_room_errors(&mut errors, room);
    assert(errors.deep_view() =~= room_errors(*room));
    if errors.len() == 0 {
        Ok(())
    } else {
        Err(errors)
    }
}

} // verus!

verus! {

/// The ids of a sequence of rooms.
pub open spec fn room_ids(rs: Seq<RoomSummary>) -> Seq<Seq<char>> {
    rs.map_values(|r: RoomSummary| r.id@)
}

/// For each room in order: a message when its id occurred earlier, then the
/// room's own messages.
pub open spec fn fleet_room_errors(rs: Seq<RoomSummary>) -> Seq<Seq<char>>
    decreases rs.len(),
{
    if rs.len() == 0 {
        Seq::empty()
    } else {
        let prev = rs.drop_last();
        let r = rs.last();
        fleet_room_errors(prev) + message_if(
            room_ids(prev).contains(r.id@),
            "duplicate room id: '"@ + r.id@ + "'"@,
        ) + room_errors(r)
    }
}

/// Every rule a fleet breaks: a name is required, at least one room is
/// required, then each room as [`fleet_room_errors`] lists it.
pub open spec fn fleet_errors(f: FleetSummary) -> Seq<Seq<char>> {
    message_if(f.name@.len() == 0, "fleet name must not be empty"@) + message_if(
        f.rooms@.len() == 0,
        "fleet must have at least one room"@,
    ) + fleet_room_errors(f.rooms@)
}

fn room_id_list(rs: &Vec<RoomSummary>) -> (ids: Vec<String>)
    ensures
        ids.deep_view() == room_ids(rs@),
{
    let mut ids: Vec<String> = Vec::new();
    let mut i: usize = 0;
    while i < rs.len()
        invariant
            i <= rs.len(),
            ids.deep_view() == room_ids(rs@.take(i as int)),
        decreases rs.len() - i,
    {
        push_text(&mut ids, rs[i].id.clone());
        assert(room_ids(rs@.take(i + 1)) =~= room_ids(rs@.take(i as int)).push(rs@[i as int].id@));
        i = i + 1;
    }
    assert(rs@.take(rs.len() as int) =~= rs@);
    ids
}

/// Checks a fleet: `Ok` when it breaks no rule, else every broken rule's
/// message in the order of [`fleet_errors`].
pub fn check_fleet(fleet: &FleetSummary) -> (r: Result<(), Vec<String>>)
    ensures
        r is Ok <==> fleet_errors(*fleet).len() == 0,
        r is Ok <==> fleet_is_valid(*fleet),
        r matches Err(es) ==> es.deep_view() == fleet_errors(*fleet),
{
    proof {
        lemma_fleet_errors_empty(*fleet);
    }
    let mut errors: Vec<String> = Vec::new();
    if fleet.name.as_str().is_empty() {
        push_text(&mut errors, String::from_str("fleet name must not be empty"));
    }
    if fleet.rooms.len() == 0 {
        push_text(&mut errors, String::from_str("fleet must have at least one room"));
    }
    let ghost start = errors.deep_view();
    assert(start =~= message_if(fleet.name@.len() == 0, "fleet name must not be empty"@)
        + message_if(fleet.rooms@.len() == 0, "fleet must have at least one room"@));
    let rs = &fleet.rooms;
    let ids = room_id_list(rs);
    assert(ids.deep_view().len() == rs@.len());
    let mut i: usize = 0;
    assert(errors.deep_view() =~= start + fleet_room_errors(rs@.take(0)));
    while i < rs.len()
        invariant
            i <= rs.len(),
            ids.deep_view() == room_ids(rs@),
            ids.len() == rs.len(),
            errors.deep_view() == start + fleet_room_errors(rs@.take(i as int)),
        decreases rs.len() - i,
    {
        let ghost pre = rs@.take(i + 1);
        assert(pre.drop_last() =~= rs@.take(i as int));
        assert(room_ids(pre.drop_last()) =~= ids.deep_view().take(i as int));
        if occurs_before(&ids, i) {
            let m = String::from_str("duplicate room id: '").concat(rs[i].id.as_str()).concat("'");
            push_text(&mut errors, m);
        }
        add_room_errors(&mut errors, &rs[i]);
        assert(errors.deep_view() =~= start + fleet_room_errors(pre));
        i = i + 1;
    }
    assert(rs@.take(rs.len() as int) =~= rs@);
    assert(errors.deep_view() =~= fleet_errors(*fleet));
    if errors.len() == 0 {
        Ok(())
    } else {
        Err(errors)
    }
}

} // verus!

verus! {

/// Whether position `k` holds the last occurrence of its key in `keys`.
pub open spec fn is_last_occurrence(keys: Seq<Seq<char>>, k: int) -> bool {
    &&& 0 <= k < keys.len()
    &&& forall|j: int| k < j < keys.len() ==> keys[j] != keys[k]
}

/// The key an entry of a merge plan stands for: a position in the overrides
/// when its flag is set, else a position in the defaults.
pub open spec fn planned_key(d: Seq<Seq<char>>, o: Seq<Seq<char>>, p: (bool, usize)) -> Seq<char> {
    if p.0 {
        o[p.1 as int]
    } else {
        d[p.1 as int]
    }
}

/// The keys a merge plan stands for, in its order.
pub open spec fn planned_keys(d: Seq<Seq<char>>, o: Seq<Seq<char>>, picks: Seq<(bool, usize)>) -> Seq<Seq<char>> {
    picks.map_values(|p: (bool, usize)| planned_key(d, o, p))
}

/// `picks` is the plan for combining keyed items of the defaults (keys `d`)
/// with those of the overrides (keys `o`), where an override replaces a
/// default with the same key and a later item replaces an earlier one on
/// the same side. It takes, in increasing position, each default whose key
/// the overrides lack and that is the last with its key among the defaults;
/// then, in increasing position, each override that is the last with its
/// key among the overrides.
pub open spec fn is_merge_plan(d: Seq<Seq<char>>, o: Seq<Seq<char>>, picks: Seq<(bool, usize)>) -> bool {
    &&& forall|i: int, j: int| 0 <= i < j < picks.len() && (#[trigger] picks[i]).0 ==> (#[trigger] picks[j]).0
    &&& forall|i: int, j: int|
        0 <= i < j < picks.len() && (#[trigger] picks[i]).0 == (#[trigger] picks[j]).0 ==> picks[i].1 < picks[j].1
    &&& forall|i: int| 0 <= i < picks.len() && (#[trigger] picks[i]).0 ==> is_last_occurrence(o, picks[i].1 as int)
    &&& forall|i: int|
        0 <= i < picks.len() && !(#[trigger] picks[i]).0 ==> is_last_occurrence(d, picks[i].1 as int)
            && !o.contains(d[picks[i].1 as int])
    &&& forall|k: int| #[trigger] is_last_occurrence(o, k) ==> picks.contains((true, k as usize))
    &&& forall|k: int|
        #[trigger] is_last_occurrence(d, k) && !o.contains(d[k]) ==> picks.contains((false, k as usize))
}

/// Whether position `k` holds the last occurrence of its key.
fn is_last_at(keys: &Vec<String>, k: usize) -> (r: bool)
    requires
        k < keys.len(),
    ensures
        r == is_last_occurrence(keys.deep_view(), k as int),
{
    let n = keys.len();
    let ghost ks = keys.deep_view();
    let mut j: usize = k + 1;
    while j < n
        invariant
            n == keys.len(),
            ks == keys.deep_view(),
            k < n,
            k + 1 <= j <= n,
            forall|m: int| k < m < j ==> ks[m] != ks[k as int],
        decreases n - j,
    {
        if keys[j] == keys[k] {
            assert(ks[j as int] == ks[k as int]);
            return false;
        }
        j = j + 1;
    }
    true
}

/// Whether `s` is one of the texts in `v`.
fn contains_text(v: &Vec<String>, s: &String) -> (r: bool)
    ensures
        r == v.deep_view().contains(s@),
{
    let mut i: usize = 0;
    while i < v.len()
        invariant
            i <= v.len(),
            forall|m: int| 0 <= m < i ==> v.deep_view()[m] != s@,
        decreases v.len() - i,
    {
        if v[i] == *s {
            assert(v.deep_view()[i as int] == s@);
            return true;
        }
        i = i + 1;
    }
    false
}

/// The plan for combining keyed items (sensors or signal chains by id,
/// metadata by key) of a default configuration with those of an overriding
/// one: each key is taken once, from its last position in the overrides
/// when the overrides have it, else from its last position in the defaults.
/// An entry `(true, i)` stands for the override at `i`, `(false, i)` for the
/// default at `i`.
pub fn merge_keys(defaults: &Vec<String>, overrides: &Vec<String>) -> (picks: Vec<(bool, usize)>)
    ensures
        is_merge_plan(defaults.deep_view(), overrides.deep_view(), picks@),
        planned_keys(defaults.deep_view(), overrides.deep_view(), picks@).no_duplicates(),
        forall|k: int|
            0 <= k < overrides.len() ==> #[trigger] planned_keys(
                defaults.deep_view(),
                overrides.deep_view(),
                picks@,
            ).contains(overrides.deep_view()[k]),
        forall|k: int|
            0 <= k < defaults.len() ==> #[trigger] planned_keys(
                defaults.deep_view(),
                overrides.deep_view(),
                picks@,
            ).contains(defaults.deep_view()[k]),
        forall|i: int, k: int|
            0 <= i < picks.len() && 0 <= k < overrides.len() && planned_key(
                defaults.deep_view(),
                overrides.deep_view(),
                #[trigger] picks@[i],
            ) == #[trigger] overrides.deep_view()[k] ==> picks@[i].0 && k <= picks@[i].1,
        forall|i: int, k: int|
            0 <= i < picks.len() && 0 <= k < defaults.len() && !picks@[i].0 && planned_key(
                defaults.deep_view(),
                overrides.deep_view(),
                #[trigger] picks@[i],
            ) == #[trigger] defaults.deep_view()[k] ==> k <= picks@[i].1,
{
    let ghost d = defaults.deep_view();
    let ghost o = overrides.deep_view();
    let mut picks: Vec<(bool, usize)> = Vec::new();
    let mut k: usize = 0;
    while k < defaults.len()
        invariant
            d == defaults.deep_view(),
            o == overrides.deep_view(),
            k <= defaults.len(),
            forall|i: int| 0 <= i < picks.len() ==> !(#[trigger] picks@[i]).0 && picks@[i].1 < k,
            forall|i: int, j: int|
                0 <= i < j < picks.len() ==> (#[trigger] picks@[i]).1 < (#[trigger] picks@[j]).1,
            forall|i: int|
                0 <= i < picks.len() ==> is_last_occurrence(d, (#[trigger] picks@[i]).1 as int)
                    && !o.contains(d[picks@[i].1 as int]),
            forall|m: int|
                0 <= m < k && #[trigger] is_last_occurrence(d, m) && !o.contains(d[m])
                    ==> picks@.contains((false, m as usize)),
        decreases defaults.len() - k,
    {
        let ghost before = picks@;
        if is_last_at(defaults, k) && !contains_text(overrides, &defaults[k]) {
            picks.push((false, k));
        }
        assert forall|m: int|
            0 <= m < k + 1 && #[trigger] is_last_occurrence(d, m) && !o.contains(d[m])
                implies picks@.contains((false, m as usize)) by {
            if m < k {
                let w = choose|w: int| 0 <= w < before.len() && before[w] == (false, m as usize);
                assert(picks@[w] == (false, m as usize));
            } else {
                assert(picks@[picks@.len() - 1] == (false, k));
            }
        }
        k = k + 1;
    }
    let ghost first = picks@;
    let split = picks.len();
    let mut k: usize = 0;
    while k < overrides.len()
        invariant
            d == defaults.deep_view(),
            o == overrides.deep_view(),
            k <= overrides.len(),
            split == first.len(),
            split <= picks.len(),
            picks@.take(split as int) == first,
            forall|i: int| 0 <= i < first.len() ==> !(#[trigger] first[i]).0,
            forall|i: int, j: int|
                0 <= i < j < first.len() ==> (#[trigger] first[i]).1 < (#[trigger] first[j]).1,
            forall|i: int|
                0 <= i < first.len() ==> is_last_occurrence(d, (#[trigger] first[i]).1 as int)
                    && !o.contains(d[first[i].1 as int]),
            forall|m: int|
                #[trigger] is_last_occurrence(d, m) && !o.contains(d[m]) ==> first.contains(
                    (false, m as usize),
                ),
            forall|i: int| split <= i < picks.len() ==> (#[trigger] picks@[i]).0 && picks@[i].1 < k,
            forall|i: int, j: int|
                split <= i < j < picks.len() ==> (#[trigger] picks@[i]).1 < (#[trigger] picks@[j]).1,
            forall|i: int|
                split <= i < picks.len() ==> is_last_occurrence(o, (#[trigger] picks@[i]).1 as int),
            forall|m: int|
                0 <= m < k && #[trigger] is_last_occurrence(o, m) ==> picks@.contains(
                    (true, m as usize),
                ),
        decreases overrides.len() - k,
    {
        let ghost before = picks@;
        if is_last_at(overrides, k) {
            picks.push((true, k));
            assert(picks@.take(split as int) =~= before.take(split as int));
        }
        assert forall|m: int| 0 <= m < k + 1 && #[trigger] is_last_occurrence(o, m) implies picks@.contains(
            (true, m as usize),
        ) by {
            if m < k {
                let w = choose|w: int| 0 <= w < before.len() && before[w] == (true, m as usize);
                assert(picks@[w] == (true, m as usize));
            } else {
                assert(picks@[picks@.len() - 1] == (true, k));
            }
        }
        k = k + 1;
    }
    assert forall|i: int| 0 <= i < split implies #[trigger] picks@[i] == first[i] by {
        assert(picks@.take(split as int)[i] == picks@[i]);
    }
    assert forall|m: int| #[trigger] is_last_occurrence(d, m) && !o.contains(d[m]) implies picks@.contains(
        (false, m as usize),
    ) by {
        let w = choose|w: int| 0 <= w < first.len() && first[w] == (false, m as usize);
        assert(picks@[w] == (false, m as usize));
    }
    proof {
        lemma_merge_plan_keys(d, o, picks@);
    }
    picks
}

/// The override's text where it is non-empty, else the default's.
pub fn prefer_set(default: &String, over: &String) -> (r: String)
    ensures
        r@ == (if over@.len() == 0 { default@ } else { over@ }),
{
    if over.as_str().is_empty() {
        default.clone()
    } else {
        over.clone()
    }
}

} // verus!

verus! {

proof fn lemma_last_occurrence_exists(keys: Seq<Seq<char>>, k: int)
    requires
        0 <= k < keys.len(),
    ensures
        exists|m: int| k <= m && is_last_occurrence(keys, m) && keys[m] == keys[k],
    decreases keys.len() - k,
{
    if !is_last_occurrence(keys, k) {
        let j = choose|j: int| k < j < keys.len() && keys[j] == keys[k];
        lemma_last_occurrence_exists(keys, j);
    } else {
        assert(is_last_occurrence(keys, k) && keys[k] == keys[k]);
    }
}

/// Combining by a merge plan keeps every key of either side exactly once;
/// a key the overrides have is taken from the overrides, at its last
/// position there; a key only the defaults have is taken from its last
/// position among the defaults.
pub proof fn lemma_merge_plan_keys(d: Seq<Seq<char>>, o: Seq<Seq<char>>, picks: Seq<(bool, usize)>)
    requires
        d.len() <= usize::MAX,
        o.len() <= usize::MAX,
        is_merge_plan(d, o, picks),
    ensures
        planned_keys(d, o, picks).no_duplicates(),
        forall|k: int| 0 <= k < o.len() ==> #[trigger] planned_keys(d, o, picks).contains(o[k]),
        forall|k: int| 0 <= k < d.len() ==> #[trigger] planned_keys(d, o, picks).contains(d[k]),
        forall|i: int, k: int|
            0 <= i < picks.len() && 0 <= k < o.len() && planned_key(d, o, #[trigger] picks[i])
                == #[trigger] o[k] ==> picks[i].0 && k <= picks[i].1,
        forall|i: int, k: int|
            0 <= i < picks.len() && 0 <= k < d.len() && !picks[i].0 && planned_key(
                d,
                o,
                #[trigger] picks[i],
            ) == #[trigger] d[k] ==> k <= picks[i].1,
{
    let pk = planned_keys(d, o, picks);
    assert forall|i: int, j: int| 0 <= i < pk.len() && 0 <= j < pk.len() && i != j implies pk[i]
        != pk[j] by {
        let (a, b) = if i < j { (i, j) } else { (j, i) };
        assert(picks[a].0 ==> picks[b].0);
        if picks[a].0 == picks[b].0 {
            assert(picks[a].1 < picks[b].1);
        } else {
            assert(o.contains(o[picks[b].1 as int]));
        }
    }
    assert forall|k: int| 0 <= k < o.len() implies #[trigger] pk.contains(o[k]) by {
        lemma_last_occurrence_exists(o, k);
        let m = choose|m: int| k <= m && is_last_occurrence(o, m) && o[m] == o[k];
        assert(picks.contains((true, m as usize)));
        let w = choose|w: int| 0 <= w < picks.len() && picks[w] == (true, m as usize);
        assert(picks[w].1 as int == m);
        assert(pk[w] == o[k]);
    }
    assert forall|k: int| 0 <= k < d.len() implies #[trigger] pk.contains(d[k]) by {
        if o.contains(d[k]) {
            let j = choose|j: int| 0 <= j < o.len() && o[j] == d[k];
            assert(pk.contains(o[j]));
        } else {
            lemma_last_occurrence_exists(d, k);
            let m = choose|m: int| k <= m && is_last_occurrence(d, m) && d[m] == d[k];
            assert(picks.contains((false, m as usize)));
            let w = choose|w: int| 0 <= w < picks.len() && picks[w] == (false, m as usize);
            assert(picks[w].1 as int == m);
            assert(pk[w] == d[k]);
        }
    }
    assert forall|i: int, k: int|
        0 <= i < picks.len() && 0 <= k < o.len() && planned_key(d, o, #[trigger] picks[i])
            == #[trigger] o[k] implies picks[i].0 && k <= picks[i].1 by {
        if !picks[i].0 {
            assert(o.contains(o[k]));
        } else {
            assert(is_last_occurrence(o, picks[i].1 as int));
        }
    }
    assert forall|i: int, k: int|
        0 <= i < picks.len() && 0 <= k < d.len() && !picks[i].0 && planned_key(
            d,
            o,
            #[trigger] picks[i],
        ) == #[trigger] d[k] implies k <= picks[i].1 by {
        assert(is_last_occurrence(d, picks[i].1 as int));
    }
}

/// Ids that are all distinct give no duplicate-id messages.
pub proof fn lemma_distinct_ids_no_duplicate_errors(ids: Seq<Seq<char>>, label: Seq<char>)
    requires
        ids.no_duplicates(),
    ensures
        duplicate_errors(ids, label).len() == 0,
    decreases ids.len(),
{
    if ids.len() > 0 {
        let prev = ids.drop_last();
        assert(prev.no_duplicates());
        lemma_distinct_ids_no_duplicate_errors(prev, label);
        if prev.contains(ids.last()) {
            let w = choose|w: int| 0 <= w < prev.len() && prev[w] == ids.last();
            assert(ids[w] == ids[ids.len() - 1]);
        }
    }
}

/// The sensors of a merged room never break the distinct-id rule.
pub proof fn lemma_merged_sensors_distinct(d: Seq<Seq<char>>, o: Seq<Seq<char>>, picks: Seq<(bool, usize)>)
    requires
        d.len() <= usize::MAX,
        o.len() <= usize::MAX,
        is_merge_plan(d, o, picks),
    ensures
        duplicate_errors(planned_keys(d, o, picks), "duplicate sensor id: '"@).len() == 0,
{
    lemma_merge_plan_keys(d, o, picks);
    lemma_distinct_ids_no_duplicate_errors(planned_keys(d, o, picks), "duplicate sensor id: '"@);
}

} // verus!

verus! {

/// No two positions of `ids` hold the same id.
pub open spec fn ids_distinct(ids: Seq<Seq<char>>) -> bool {
    forall|i: int, j: int| 0 <= i < j < ids.len() ==> ids[i] != ids[j]
}

/// Some position before `k` holds the same id as position `k`.
pub open spec fn repeated_at(ids: Seq<Seq<char>>, k: int) -> bool {
    exists|j: int| 0 <= j < k && ids[j] == ids[k]
}

/// A room is valid exactly when it has an id and a name, every sensor and
/// every signal chain passes its own rules, and no two sensors share an id.
pub open spec fn room_is_valid(r: RoomSummary) -> bool {
    &&& r.id@.len() > 0
    &&& r.name@.len() > 0
    &&& forall|i: int| 0 <= i < r.sensors@.len() ==> sensor_problem(#[trigger] r.sensors@[i]) is None
    &&& forall|i: int, j: int|
        0 <= i < j < r.sensors@.len() ==> (#[trigger] r.sensors@[i]).id@ != (#[trigger] r.sensors@[j]).id@
    &&& forall|i: int| 0 <= i < r.signal_chains@.len() ==> chain_problem(#[trigger] r.signal_chains@[i]) is None
}

/// A fleet is valid exactly when it has a name and at least one room, no
/// two rooms share an id, and every room is valid.
pub open spec fn fleet_is_valid(f: FleetSummary) -> bool {
    &&& f.name@.len() > 0
    &&& f.rooms@.len() > 0
    &&& forall|i: int, j: int|
        0 <= i < j < f.rooms@.len() ==> (#[trigger] f.rooms@[i]).id@ != (#[trigger] f.rooms@[j]).id@
    &&& forall|i: int| 0 <= i < f.rooms@.len() ==> room_is_valid(#[trigger] f.rooms@[i])
}

/// The repeated-id messages grow, position by position, by one message
/// naming the id exactly at the positions whose id occurred anywhere before.
pub proof fn lemma_duplicate_errors_per_position(ids: Seq<Seq<char>>, label: Seq<char>, k: int)
    requires
        0 <= k < ids.len(),
    ensures
        duplicate_errors(ids.take(k + 1), label) == duplicate_errors(ids.take(k), label) + if repeated_at(
            ids,
            k,
        ) {
            seq![label + ids[k] + "'"@]
        } else {
            Seq::<Seq<char>>::empty()
        },
{
    let pre = ids.take(k + 1);
    assert(pre.drop_last() =~= ids.take(k));
    assert(pre.last() == ids[k]);
    if repeated_at(ids, k) {
        let j = choose|j: int| 0 <= j < k && ids[j] == ids[k];
        assert(ids.take(k)[j] == ids[k]);
    }
    if ids.take(k).contains(ids[k]) {
        let j = choose|j: int| 0 <= j < k && ids.take(k)[j] == ids[k];
        assert(ids[j] == ids[k]);
    }
}

/// There are no repeated-id messages exactly when all ids are distinct.
pub proof fn lemma_duplicate_errors_empty(ids: Seq<Seq<char>>, label: Seq<char>)
    ensures
        duplicate_errors(ids, label).len() == 0 <==> ids_distinct(ids),
    decreases ids.len(),
{
    if ids.len() > 0 {
        let p = ids.drop_last();
        let n = ids.len() - 1;
        lemma_duplicate_errors_empty(p, label);
        if ids_distinct(ids) {
            assert(ids_distinct(p)) by {
                assert forall|i: int, j: int| 0 <= i < j < p.len() implies p[i] != p[j] by {
                    assert(p[i] == ids[i] && p[j] == ids[j]);
                }
            }
            if p.contains(ids.last()) {
                let w = choose|w: int| 0 <= w < p.len() && p[w] == ids.last();
                assert(ids[w] == ids[n]);
            }
        }
        if duplicate_errors(ids, label).len() == 0 {
            assert forall|i: int, j: int| 0 <= i < j < ids.len() implies ids[i] != ids[j] by {
                if j == n {
                    if ids[i] == ids[j] {
                        assert(p[i] == ids.last());
                        assert(p.contains(ids.last()));
                    }
                } else {
                    assert(p[i] == ids[i] && p[j] == ids[j]);
                }
            }
        }
    }
}

proof fn lemma_sensor_errors_empty(ss: Seq<SensorSummary>)
    ensures
        sensor_errors(ss).len() == 0 <==> forall|i: int| 0 <= i < ss.len() ==> sensor_problem(#[trigger] ss[i]) is None,
    decreases ss.len(),
{
    if ss.len() > 0 {
        let p = ss.drop_last();
        lemma_sensor_errors_empty(p);
        if sensor_errors(ss).len() == 0 {
            assert forall|i: int| 0 <= i < ss.len() implies sensor_problem(#[trigger] ss[i]) is None by {
                if i < p.len() {
                    assert(p[i] == ss[i]);
                }
            }
        }
        if forall|i: int| 0 <= i < ss.len() ==> sensor_problem(#[trigger] ss[i]) is None {
            assert(sensor_problem(ss[ss.len() - 1]) is None);
            assert forall|i: int| 0 <= i < p.len() implies sensor_problem(#[trigger] p[i]) is None by {
                assert(p[i] == ss[i]);
            }
        }
    }
}

proof fn lemma_chain_errors_empty(cs: Seq<ChainSummary>)
    ensures
        chain_errors(cs).len() == 0 <==> forall|i: int| 0 <= i < cs.len() ==> chain_problem(#[trigger] cs[i]) is None,
    decreases cs.len(),
{
    if cs.len() > 0 {
        let p = cs.drop_last();
        lemma_chain_errors_empty(p);
        if chain_errors(cs).len() == 0 {
            assert forall|i: int| 0 <= i < cs.len() implies chain_problem(#[trigger] cs[i]) is None by {
                if i < p.len() {
                    assert(p[i] == cs[i]);
                }
            }
        }
        if forall|i: int| 0 <= i < cs.len() ==> chain_problem(#[trigger] cs[i]) is None {
            assert(chain_problem(cs[cs.len() - 1]) is None);
            assert forall|i: int| 0 <= i < p.len() implies chain_problem(#[trigger] p[i]) is None by {
                assert(p[i] == cs[i]);
            }
        }
    }
}

/// A room breaks no rule exactly when it is valid: in particular a room
/// whose sensors repeat an id anywhere, adjacent or not, is refused.
pub proof fn lemma_room_errors_empty(r: RoomSummary)
    ensures
        room_errors(r).len() == 0 <==> room_is_valid(r),
{
    lemma_sensor_errors_empty(r.sensors@);
    lemma_chain_errors_empty(r.signal_chains@);
    let ids = sensor_ids(r.sensors@);
    lemma_duplicate_errors_empty(ids, "duplicate sensor id: '"@);
    if ids_distinct(ids) {
        assert forall|i: int, j: int| 0 <= i < j < r.sensors@.len() implies (#[trigger] r.sensors@[i]).id@
            != (#[trigger] r.sensors@[j]).id@ by {
            assert(ids[i] == r.sensors@[i].id@ && ids[j] == r.sensors@[j].id@);
        }
    }
    if room_is_valid(r) {
        assert forall|i: int, j: int| 0 <= i < j < ids.len() implies ids[i] != ids[j] by {
            assert(ids[i] == r.sensors@[i].id@ && ids[j] == r.sensors@[j].id@);
        }
    }
}

/// The fleet's per-room messages grow, room by room, by a repeated-id
/// message exactly when the room's id occurred at any earlier room, then by
/// that room's own messages.
pub proof fn lemma_fleet_errors_per_room(rs: Seq<RoomSummary>, k: int)
    requires
        0 <= k < rs.len(),
    ensures
        fleet_room_errors(rs.take(k + 1)) == fleet_room_errors(rs.take(k)) + message_if(
            repeated_at(room_ids(rs), k),
            "duplicate room id: '"@ + rs[k].id@ + "'"@,
        ) + room_errors(rs[k]),
{
    let pre = rs.take(k + 1);
    assert(pre.drop_last() =~= rs.take(k));
    assert(pre.last() == rs[k]);
    let ids = room_ids(rs);
    if repeated_at(ids, k) {
        let j = choose|j: int| 0 <= j < k && ids[j] == ids[k];
        assert(room_ids(rs.take(k))[j] == rs[k].id@);
    }
    if room_ids(rs.take(k)).contains(rs[k].id@) {
        let j = choose|j: int| 0 <= j < k && room_ids(rs.take(k))[j] == rs[k].id@;
        assert(ids[j] == ids[k]);
    }
}

proof fn lemma_fleet_room_errors_empty(rs: Seq<RoomSummary>)
    ensures
        fleet_room_errors(rs).len() == 0 <==> (ids_distinct(room_ids(rs)) && forall|i: int|
            0 <= i < rs.len() ==> room_errors(#[trigger] rs[i]).len() == 0),
    decreases rs.len(),
{
    if rs.len() > 0 {
        let p = rs.drop_last();
        let n = rs.len() - 1;
        let ids = room_ids(rs);
        let pids = room_ids(p);
        lemma_fleet_room_errors_empty(p);
        assert(pids =~= ids.drop_last());
        if fleet_room_errors(rs).len() == 0 {
            assert forall|i: int, j: int| 0 <= i < j < ids.len() implies ids[i] != ids[j] by {
                if j == n {
                    if ids[i] == ids[j] {
                        assert(pids[i] == rs.last().id@);
                    }
                } else {
                    assert(pids[i] == ids[i] && pids[j] == ids[j]);
                }
            }
            assert forall|i: int| 0 <= i < rs.len() implies room_errors(#[trigger] rs[i]).len() == 0 by {
                if i < n {
                    assert(p[i] == rs[i]);
                }
            }
        }
        if ids_distinct(ids) && forall|i: int| 0 <= i < rs.len() ==> room_errors(#[trigger] rs[i]).len() == 0 {
            assert(room_errors(rs[n]).len() == 0);
            assert forall|i: int| 0 <= i < p.len() implies room_errors(#[trigger] p[i]).len() == 0 by {
                assert(p[i] == rs[i]);
            }
            assert forall|i: int, j: int| 0 <= i < j < pids.len() implies pids[i] != pids[j] by {
                assert(pids[i] == ids[i] && pids[j] == ids[j]);
            }
            if pids.contains(rs.last().id@) {
                let w = choose|w: int| 0 <= w < pids.len() && pids[w] == rs.last().id@;
                assert(ids[w] == ids[n]);
            }
        }
    }
}

/// A fleet breaks no rule exactly when it is valid: in particular a fleet
/// whose rooms repeat an id anywhere, adjacent or not, is refused.
pub proof fn lemma_fleet_errors_empty(f: FleetSummary)
    ensures
        fleet_errors(f).len() == 0 <==> fleet_is_valid(f),
{
    let rs = f.rooms@;
    let ids = room_ids(rs);
    lemma_fleet_room_errors_empty(rs);
    assert forall|i: int| 0 <= i < rs.len() implies (room_errors(#[trigger] rs[i]).len() == 0
        <==> room_is_valid(rs[i])) by {
        lemma_room_errors_empty(rs[i]);
    }
    if ids_distinct(ids) {
        assert forall|i: int, j: int| 0 <= i < j < rs.len() implies (#[trigger] rs[i]).id@
            != (#[trigger] rs[j]).id@ by {
            assert(ids[i] == rs[i].id@ && ids[j] == rs[j].id@);
        }
    }
    if fleet_is_valid(f) {
        assert forall|i: int, j: int| 0 <= i < j < ids.len() implies ids[i] != ids[j] by {
            assert(ids[i] == rs[i].id@ && ids[j] == rs[j].id@);
        }
    }
}

} // verus!
