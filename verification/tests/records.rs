use thermalctld::fan::{drawer_info, fan_info, plan_fan_update, DrawerReading, FanReading};
use thermalctld::record::{
    step_outcome, table_name, Device, InfoTable, Outcome, ReadFailure, Reading, Step,
};
use thermalctld::text::{bool_string, u32_text};
use thermalctld::thermal::{plan_temperature_update, thermal_info, ThermalReading};

fn s(t: &str) -> String {
    t.to_string()
}

fn err<T>(t: &str) -> Result<T, String> {
    Err(t.to_string())
}

fn fields(pairs: &[(&str, &str)]) -> Vec<(String, String)> {
    pairs.iter().map(|(k, v)| (k.to_string(), v.to_string())).collect()
}

fn failure(device: Device, reading: Reading, message: &str) -> ReadFailure {
    ReadFailure { device, reading, message: s(message) }
}

fn healthy_fan(name: &str, drawer: &str) -> FanReading {
    FanReading {
        name: Ok(s(name)),
        presence: Ok(true),
        drawer_name: Ok(s(drawer)),
        model: Ok(s("Fan Model")),
        serial: Ok(s("Fan Serial")),
        status: Ok(true),
        direction: Ok(s("intake")),
        speed: Ok(20),
        target_speed: Ok(20),
        under_speed: Ok(false),
        over_speed: Ok(false),
        replaceable: Ok(true),
    }
}

fn healthy_drawer(name: &str, fans: Vec<FanReading>) -> DrawerReading {
    DrawerReading {
        name: Ok(s(name)),
        presence: Ok(true),
        model: Ok(s("Fan Drawer Model")),
        serial: Ok(s("Fan Drawer Serial")),
        status: Ok(true),
        replaceable: Ok(true),
        fans,
    }
}

fn thermal(name: Result<String, String>, above: bool, below: bool) -> ThermalReading {
    ThermalReading {
        name,
        temperature: s("2"),
        minimum_temperature: s("1"),
        maximum_temperature: s("5"),
        high_threshold: s("3"),
        low_threshold: s("1"),
        critical_high_threshold: s("4"),
        critical_low_threshold: s("0"),
        above_high_threshold: above,
        below_low_threshold: below,
        replaceable: err("Not implemented"),
    }
}

fn is_clock_text(t: &str) -> bool {
    let b = t.as_bytes();
    let n = b.len();
    if n < 17 {
        return false;
    }
    let digit = |i: usize| b[i].is_ascii_digit();
    let y = n - 13;
    let year_ok = if b[0] == b'+' || b[0] == b'-' {
        y >= 5 && (1..y).all(digit)
    } else {
        y == 4 && (0..y).all(digit)
    };
    year_ok
        && (y..y + 4).all(digit)
        && b[y + 4] == b' '
        && digit(y + 5)
        && digit(y + 6)
        && b[y + 7] == b':'
        && digit(y + 8)
        && digit(y + 9)
        && b[y + 10] == b':'
        && digit(y + 11)
        && digit(y + 12)
}

#[test]
fn decimal_text_of_integers() {
    assert_eq!(u32_text(0), "0");
    assert_eq!(u32_text(7), "7");
    assert_eq!(u32_text(10), "10");
    assert_eq!(u32_text(120), "120");
    assert_eq!(u32_text(u32::MAX), "4294967295");
    for n in [1u32, 9, 99, 100, 1001, 65535, 1_000_000] {
        assert_eq!(u32_text(n), n.to_string());
    }
}

#[test]
fn bool_text_matches_to_string() {
    assert_eq!(bool_string(true), "true");
    assert_eq!(bool_string(false), "false");
}

#[test]
fn present_fan_record_has_twelve_fields() {
    let fan = healthy_fan("Fan 1", "FanDrawer 0");
    let (key, f) = fan_info(&fan, &s("20240102 03:04:05")).unwrap();
    assert_eq!(key, "Fan 1");
    assert_eq!(
        f,
        fields(&[
            ("presence", "true"),
            ("drawer_name", "FanDrawer 0"),
            ("model", "Fan Model"),
            ("serial", "Fan Serial"),
            ("status", "true"),
            ("direction", "intake"),
            ("speed", "20"),
            ("speed_target", "20"),
            ("is_under_speed", "false"),
            ("is_over_speed", "false"),
            ("is_replaceable", "true"),
            ("timestamp", "20240102 03:04:05"),
        ])
    );
}

#[test]
fn under_speed_fan_record() {
    let mut fan = healthy_fan("Fan 2", "D");
    fan.speed = Ok(1);
    fan.target_speed = Ok(2);
    fan.under_speed = Ok(true);
    let (_, f) = fan_info(&fan, &s("T")).unwrap();
    assert_eq!(f[6], (s("speed"), s("1")));
    assert_eq!(f[7], (s("speed_target"), s("2")));
    assert_eq!(f[8], (s("is_under_speed"), s("true")));
    assert_eq!(f[9], (s("is_over_speed"), s("false")));
}

#[test]
fn absent_fan_record_has_three_fields() {
    let mut fan = healthy_fan("Fan 3", "D");
    fan.presence = Ok(false);
    fan.speed = err("Failed to get speed");
    fan.drawer_name = err("no drawer");
    let (key, f) = fan_info(&fan, &s("T")).unwrap();
    assert_eq!(key, "Fan 3");
    assert_eq!(f, fields(&[("presence", "false"), ("status", "false"), ("timestamp", "T")]));
}

#[test]
fn unreadable_presence_counts_as_absent() {
    let mut fan = healthy_fan("Fan 4", "D");
    fan.presence = err("no presence");
    let (_, f) = fan_info(&fan, &s("T")).unwrap();
    assert_eq!(f, fields(&[("presence", "false"), ("status", "false"), ("timestamp", "T")]));
}

#[test]
fn model_and_serial_fall_back_to_not_available() {
    let mut fan = healthy_fan("Fan 5", "D");
    fan.model = err("no model");
    fan.serial = err("no serial");
    let (_, f) = fan_info(&fan, &s("T")).unwrap();
    assert_eq!(f[2], (s("model"), s("N/A")));
    assert_eq!(f[3], (s("serial"), s("N/A")));
}

#[test]
fn fan_record_failures_keep_the_error_text() {
    let mut fan = healthy_fan("Fan 6", "D");
    fan.name = err("Failed to get name");
    assert_eq!(
        fan_info(&fan, &s("T")),
        Err(failure(Device::Fan, Reading::Name, "Failed to get name"))
    );
    let mut fan = healthy_fan("", "D");
    fan.speed = err("Failed to get speed");
    assert_eq!(
        fan_info(&fan, &s("T")),
        Err(failure(Device::Fan, Reading::Speed, "Failed to get speed"))
    );
    let mut fan = healthy_fan("Fan 6", "D");
    fan.direction = err("no direction");
    fan.replaceable = err("no replaceable");
    assert_eq!(
        fan_info(&fan, &s("T")),
        Err(failure(Device::Fan, Reading::Direction, "no direction"))
    );
    for reading in [
        Reading::Status,
        Reading::TargetSpeed,
        Reading::UnderSpeed,
        Reading::OverSpeed,
        Reading::Replaceable,
    ] {
        let mut fan = healthy_fan("F", "D");
        match reading {
            Reading::Status => fan.status = err("e"),
            Reading::TargetSpeed => fan.target_speed = err("e"),
            Reading::UnderSpeed => fan.under_speed = err("e"),
            Reading::OverSpeed => fan.over_speed = err("e"),
            _ => fan.replaceable = err("e"),
        }
        assert_eq!(fan_info(&fan, &s("T")), Err(failure(Device::Fan, reading, "e")));
    }
}

#[test]
fn present_fan_fails_when_drawer_name_reread_fails() {
    let mut fan = healthy_fan("Fan 7", "D");
    fan.drawer_name = err("Failed to get drawer name");
    fan.status = err("no status");
    assert_eq!(
        fan_info(&fan, &s("T")),
        Err(failure(Device::FanDrawer, Reading::Name, "Failed to get drawer name"))
    );
}

#[test]
fn drawer_record_fields() {
    let d = healthy_drawer("FanDrawer 0", vec![]);
    let (key, f) = drawer_info(&d).unwrap();
    assert_eq!(key, "FanDrawer 0");
    assert_eq!(
        f,
        fields(&[
            ("presence", "true"),
            ("model", "Fan Drawer Model"),
            ("serial", "Fan Drawer Serial"),
            ("status", "true"),
            ("is_replaceable", "true"),
        ])
    );
    let mut d = healthy_drawer("FanDrawer 0", vec![]);
    d.model = err("no model");
    d.presence = Ok(false);
    let (_, f) = drawer_info(&d).unwrap();
    assert_eq!(f[0], (s("presence"), s("false")));
    assert_eq!(f[1], (s("model"), s("N/A")));
}

#[test]
fn drawer_record_failures() {
    let mut d = healthy_drawer("X", vec![]);
    d.name = err("n");
    assert_eq!(drawer_info(&d), Err(failure(Device::FanDrawer, Reading::Name, "n")));
    let mut d = healthy_drawer("X", vec![]);
    d.presence = err("p");
    d.status = err("s");
    assert_eq!(drawer_info(&d), Err(failure(Device::FanDrawer, Reading::Presence, "p")));
    let mut d = healthy_drawer("X", vec![]);
    d.status = err("s");
    assert_eq!(drawer_info(&d), Err(failure(Device::FanDrawer, Reading::Status, "s")));
    let mut d = healthy_drawer("X", vec![]);
    d.replaceable = err("r");
    assert_eq!(drawer_info(&d), Err(failure(Device::FanDrawer, Reading::Replaceable, "r")));
}

#[test]
fn fan_pass_writes_each_drawer_then_its_fans() {
    let mut bad_fan = healthy_fan("Fan B", "FanDrawer 0");
    bad_fan.speed = err("Failed to get speed");
    let drawers = vec![
        healthy_drawer("FanDrawer 0", vec![healthy_fan("Fan A", "FanDrawer 0"), bad_fan]),
        healthy_drawer("FanDrawer 1", vec![healthy_fan("Fan C", "FanDrawer 1")]),
    ];
    let pass = plan_fan_update(&drawers);
    let steps = &pass.steps;
    assert_eq!(steps.len(), 5);
    assert_eq!(pass.timestamps.len(), 2);
    assert_eq!(pass.timestamps[0].len(), 2);
    assert_eq!(pass.timestamps[1].len(), 1);
    match &steps[0] {
        Step::Write { table, key, fatal, .. } => {
            assert_eq!(*table, InfoTable::FanDrawerInfo);
            assert_eq!(key, "FanDrawer 0");
            assert!(*fatal);
        }
        _ => panic!("expected a drawer write"),
    }
    match &steps[1] {
        Step::Write { table, key, fields, fatal } => {
            assert_eq!(*table, InfoTable::FanInfo);
            assert_eq!(key, "Fan A");
            assert_eq!(fields[1], (s("drawer_name"), s("FanDrawer 0")));
            assert_eq!(fields[11], (s("timestamp"), pass.timestamps[0][0].clone()));
            assert!(!*fatal);
        }
        _ => panic!("expected a fan write"),
    }
    assert_eq!(
        steps[2],
        Step::Fail {
            failure: failure(Device::Fan, Reading::Speed, "Failed to get speed"),
            fatal: false
        }
    );
    match &steps[3] {
        Step::Write { key, .. } => assert_eq!(key, "FanDrawer 1"),
        _ => panic!("expected a drawer write"),
    }
    match &steps[4] {
        Step::Write { key, fields, .. } => {
            assert_eq!(key, "Fan C");
            assert_eq!(fields[1], (s("drawer_name"), s("FanDrawer 1")));
            assert_eq!(fields[11], (s("timestamp"), pass.timestamps[1][0].clone()));
        }
        _ => panic!("expected a fan write"),
    }
}

#[test]
fn fan_pass_stops_at_unreadable_drawer() {
    let mut bad = healthy_drawer("FanDrawer 1", vec![healthy_fan("Fan B", "FanDrawer 1")]);
    bad.status = err("Failed to get status");
    let drawers = vec![
        healthy_drawer("FanDrawer 0", vec![healthy_fan("Fan A", "FanDrawer 0")]),
        bad,
        healthy_drawer("FanDrawer 2", vec![healthy_fan("Fan C", "FanDrawer 2")]),
    ];
    let pass = plan_fan_update(&drawers);
    assert_eq!(pass.steps.len(), 3);
    assert_eq!(pass.timestamps.len(), 1);
    assert_eq!(
        pass.steps[2],
        Step::Fail {
            failure: failure(Device::FanDrawer, Reading::Status, "Failed to get status"),
            fatal: true
        }
    );
}

#[test]
fn empty_fan_pass() {
    let pass = plan_fan_update(&vec![]);
    assert!(pass.steps.is_empty());
    assert!(pass.timestamps.is_empty());
}

#[test]
fn fan_pass_is_stamped_with_the_clock() {
    let mut absent = healthy_fan("Fan A", "FanDrawer 0");
    absent.presence = Ok(false);
    let fans = vec![absent, healthy_fan("Fan B", "FanDrawer 0")];
    let drawers = vec![healthy_drawer("FanDrawer 0", fans)];
    let pass = plan_fan_update(&drawers);
    for row in &pass.timestamps {
        for t in row {
            assert!(is_clock_text(t), "{t}");
        }
    }
    match &pass.steps[1] {
        Step::Write { fields, .. } => {
            assert_eq!(fields[2], (s("timestamp"), pass.timestamps[0][0].clone()))
        }
        _ => panic!("expected a fan write"),
    }
}

#[test]
fn outcome_after_each_kind_of_step() {
    let fatal_write =
        Step::Write { table: InfoTable::FanDrawerInfo, key: s("k"), fields: vec![], fatal: true };
    let write =
        Step::Write { table: InfoTable::FanInfo, key: s("k"), fields: vec![], fatal: false };
    let f = failure(Device::Fan, Reading::Name, "e");
    assert_eq!(step_outcome(&fatal_write, true), Outcome::Done);
    assert_eq!(step_outcome(&fatal_write, false), Outcome::Abort);
    assert_eq!(step_outcome(&write, true), Outcome::Done);
    assert_eq!(step_outcome(&write, false), Outcome::Warn);
    assert_eq!(step_outcome(&Step::Fail { failure: f.clone(), fatal: false }, true), Outcome::Warn);
    assert_eq!(step_outcome(&Step::Fail { failure: f, fatal: true }, true), Outcome::Abort);
}

#[test]
fn thermal_record_fields() {
    let t = thermal(Ok(s("Thermal 1")), false, false);
    let (key, f) = thermal_info(&t, &s("T")).unwrap();
    assert_eq!(key, "Thermal 1");
    assert_eq!(
        f,
        fields(&[
            ("temperature", "2"),
            ("minimum_temperature", "1"),
            ("maximum_temperature", "5"),
            ("high_threshold", "3"),
            ("low_threshold", "1"),
            ("warning_status", "False"),
            ("critical_high_threshold", "4"),
            ("critical_low_threshold", "0"),
            ("is_replaceable", "false"),
            ("timestamp", "T"),
        ])
    );
}

#[test]
fn thermal_warning_status() {
    let over = thermal_info(&thermal(Ok(s("t")), true, false), &s("T")).unwrap().1;
    assert_eq!(over[5], (s("warning_status"), s("True")));
    let under = thermal_info(&thermal(Ok(s("t")), false, true), &s("T")).unwrap().1;
    assert_eq!(under[5], (s("warning_status"), s("True")));
    let mut replaceable = thermal(Ok(s("t")), false, false);
    replaceable.replaceable = Ok(true);
    let f = thermal_info(&replaceable, &s("T")).unwrap().1;
    assert_eq!(f[5], (s("warning_status"), s("False")));
    assert_eq!(f[8], (s("is_replaceable"), s("true")));
}

#[test]
fn thermal_record_failure() {
    assert_eq!(
        thermal_info(&thermal(err("Failed to get name"), false, false), &s("T")),
        Err(failure(Device::Thermal, Reading::Name, "Failed to get name"))
    );
}

#[test]
fn temperature_pass_skips_unreadable_sensors() {
    let thermals = vec![
        thermal(Ok(s("a")), true, false),
        thermal(err("Failed to get name"), false, false),
        thermal(Ok(s("c")), false, false),
    ];
    let pass = plan_temperature_update(&thermals);
    let steps = &pass.steps;
    assert_eq!(steps.len(), 3);
    assert_eq!(pass.timestamps.len(), 3);
    match &steps[0] {
        Step::Write { table, key, fatal, fields } => {
            assert_eq!(*table, InfoTable::TemperatureInfo);
            assert_eq!(key, "a");
            assert!(!*fatal);
            assert_eq!(fields[9], (s("timestamp"), pass.timestamps[0].clone()));
        }
        _ => panic!("expected a write"),
    }
    assert_eq!(
        steps[1],
        Step::Fail {
            failure: failure(Device::Thermal, Reading::Name, "Failed to get name"),
            fatal: false
        }
    );
    match &steps[2] {
        Step::Write { key, fields, .. } => {
            assert_eq!(key, "c");
            assert_eq!(fields[9], (s("timestamp"), pass.timestamps[2].clone()));
        }
        _ => panic!("expected a write"),
    }
}

#[test]
fn temperature_pass_is_stamped_with_the_clock() {
    let pass = plan_temperature_update(&vec![thermal(Ok(s("a")), false, false)]);
    assert_eq!(pass.timestamps.len(), 1);
    assert!(is_clock_text(&pass.timestamps[0]), "{}", pass.timestamps[0]);
}

#[test]
fn state_db_table_names() {
    assert_eq!(table_name(InfoTable::FanInfo), "FAN_INFO");
    assert_eq!(table_name(InfoTable::FanDrawerInfo), "FAN_DRAWER_INFO");
    assert_eq!(table_name(InfoTable::TemperatureInfo), "TEMPERATURE_INFO");
    assert_eq!(table_name(InfoTable::PhysicalEntityInfo), "PHYSICAL_ENTITY_INFO");
}
