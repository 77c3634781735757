use vstd::prelude::*;

use crate::clock::{is_clock_text, local_timestamp};
use crate::record::{
    distinct_names, error_text, failure_view, fields_view, has_field, into_step, is_abort, pair, record_view, step_of,
    steps_view, string_or_na, text_or_na, Device, FailureView, Fields, FieldsView, InfoTable,
    ReadFailure, Reading, Step, StepView,
};
use crate::text::{bool_string, bool_text, decimal, u32_text};

verus! {

/// What one fan reported, each reading with the error text it failed with.
/// `drawer_name` is the name of the drawer that holds the fan, as read again
/// for this fan.
#[derive(Debug, PartialEq, Eq)]
pub struct FanReading {
    pub name: Result<String, String>,
    pub presence: Result<bool, String>,
    pub drawer_name: Result<String, String>,
    pub model: Result<String, String>,
    pub serial: Result<String, String>,
    pub status: Result<bool, String>,
    pub direction: Result<String, String>,
    pub speed: Result<u32, String>,
    pub target_speed: Result<u32, String>,
    pub under_speed: Result<bool, String>,
    pub over_speed: Result<bool, String>,
    pub replaceable: Result<bool, String>,
}

/// What one fan drawer reported, with the fans it holds, in order.
#[derive(Debug, PartialEq, Eq)]
pub struct DrawerReading {
    pub name: Result<String, String>,
    pub presence: Result<bool, String>,
    pub model: Result<String, String>,
    pub serial: Result<String, String>,
    pub status: Result<bool, String>,
    pub replaceable: Result<bool, String>,
    pub fans: Vec<FanReading>,
}

/// A fan counts as present only when its presence reading succeeded and
/// said so.
pub open spec fn fan_present(f: FanReading) -> bool {
    f.presence == Ok::<bool, String>(true)
}

/// The first reading, in the order they are taken, that a present fan's
/// record needs and that failed, with its error text.
pub open spec fn present_fan_failure(f: FanReading) -> Option<FailureView> {
    if f.drawer_name is Err {
        Some(failure_view(Device::FanDrawer, Reading::Name, error_text(f.drawer_name)))
    } else if f.status is Err {
        Some(failure_view(Device::Fan, Reading::Status, error_text(f.status)))
    } else if f.direction is Err {
        Some(failure_view(Device::Fan, Reading::Direction, error_text(f.direction)))
    } else if f.speed is Err {
        Some(failure_view(Device::Fan, Reading::Speed, error_text(f.speed)))
    } else if f.target_speed is Err {
        Some(failure_view(Device::Fan, Reading::TargetSpeed, error_text(f.target_speed)))
    } else if f.under_speed is Err {
        Some(failure_view(Device::Fan, Reading::UnderSpeed, error_text(f.under_speed)))
    } else if f.over_speed is Err {
        Some(failure_view(Device::Fan, Reading::OverSpeed, error_text(f.over_speed)))
    } else if f.replaceable is Err {
        Some(failure_view(Device::Fan, Reading::Replaceable, error_text(f.replaceable)))
    } else {
        None
    }
}

/// The FAN_INFO entry of a fan, written at time `ts`: keyed by the fan's
/// name; twelve fields for a present fan, three for one that is absent or
/// whose presence could not be read. Model and serial fall back to `N/A`;
/// any other reading that a present fan needs, the holding drawer's name
/// included, makes the record fail with that reading's error.
pub open spec fn fan_record(f: FanReading, ts: Seq<char>) -> Result<
    (Seq<char>, FieldsView),
    FailureView,
> {
    match f.name {
        Err(m) => Err(failure_view(Device::Fan, Reading::Name, m@)),
        Ok(name) => if fan_present(f) {
            match present_fan_failure(f) {
                Some(e) => Err(e),
                None => Ok(
                    (
                        name@,
                        seq![
                            ("presence"@, "true"@),
                            ("drawer_name"@, f.drawer_name->Ok_0@),
                            ("model"@, text_or_na(f.model)),
                            ("serial"@, text_or_na(f.serial)),
                            ("status"@, bool_text(f.status->Ok_0)),
                            ("direction"@, f.direction->Ok_0@),
                            ("speed"@, decimal(f.speed->Ok_0 as nat)),
                            ("speed_target"@, decimal(f.target_speed->Ok_0 as nat)),
                            ("is_under_speed"@, bool_text(f.under_speed->Ok_0)),
                            ("is_over_speed"@, bool_text(f.over_speed->Ok_0)),
                            ("is_replaceable"@, bool_text(f.replaceable->Ok_0)),
                            ("timestamp"@, ts),
                        ],
                    ),
                ),
            }
        } else {
            Ok((name@, seq![("presence"@, "false"@), ("status"@, "false"@), ("timestamp"@, ts)]))
        },
    }
}

/// The FAN_DRAWER_INFO entry of a drawer, keyed by its name. Model and
/// serial fall back to `N/A`; a failed name, presence, status or
/// replaceability reading makes the record fail with that reading's error.
pub open spec fn drawer_record(d: DrawerReading) -> Result<(Seq<char>, FieldsView), FailureView> {
    match d.name {
        Err(m) => Err(failure_view(Device::FanDrawer, Reading::Name, m@)),
        Ok(name) => if d.presence is Err {
            Err(failure_view(Device::FanDrawer, Reading::Presence, error_text(d.presence)))
        } else if d.status is Err {
            Err(failure_view(Device::FanDrawer, Reading::Status, error_text(d.status)))
        } else if d.replaceable is Err {
            Err(failure_view(Device::FanDrawer, Reading::Replaceable, error_text(d.replaceable)))
        } else {
            Ok(
                (
                    name@,
                    seq![
                        ("presence"@, bool_text(d.presence->Ok_0)),
                        ("model"@, text_or_na(d.model)),
                        ("serial"@, text_or_na(d.serial)),
                        ("status"@, bool_text(d.status->Ok_0)),
                        ("is_replaceable"@, bool_text(d.replaceable->Ok_0)),
                    ],
                ),
            )
        },
    }
}

/// Builds the FAN_INFO entry of a fan; see `fan_record`.
pub fn fan_info(f: &FanReading, ts: &String) -> (r: Result<(String, Fields), ReadFailure>)
    ensures
        record_view(r) == fan_record(*f, ts@),
{
    let name = match &f.name {
        Err(m) => {
            return Err(ReadFailure::new(Device::Fan, Reading::Name, m));
        },
        Ok(n) => n.clone(),
    };
    let present = match &f.presence {
        Ok(p) => *p,
        Err(_) => false,
    };
    if !present {
        let fields = vec![
            pair("presence", bool_string(false)),
            pair("status", bool_string(false)),
            pair("timestamp", ts.clone()),
        ];
        proof {
            assert(fields_view(fields@) =~= seq![
                ("presence"@, "false"@),
                ("status"@, "false"@),
                ("timestamp"@, ts@),
            ]);
        }
        return Ok((name, fields));
    }
    let drawer_name = match &f.drawer_name {
        Err(m) => {
            return Err(ReadFailure::new(Device::FanDrawer, Reading::Name, m));
        },
        Ok(d) => d.clone(),
    };
    let status = match &f.status {
        Err(m) => {
            return Err(ReadFailure::new(Device::Fan, Reading::Status, m));
        },
        Ok(b) => *b,
    };
    let direction = match &f.direction {
        Err(m) => {
            return Err(ReadFailure::new(Device::Fan, Reading::Direction, m));
        },
        Ok(d) => d.clone(),
    };
    let speed = match &f.speed {
        Err(m) => {
            return Err(ReadFailure::new(Device::Fan, Reading::Speed, m));
        },
        Ok(v) => *v,
    };
    let target_speed = match &f.target_speed {
        Err(m) => {
            return Err(ReadFailure::new(Device::Fan, Reading::TargetSpeed, m));
        },
        Ok(v) => *v,
    };
    let under_speed = match &f.under_speed {
        Err(m) => {
            return Err(ReadFailure::new(Device::Fan, Reading::UnderSpeed, m));
        },
        Ok(b) => *b,
    };
    let over_speed = match &f.over_speed {
        Err(m) => {
            return Err(ReadFailure::new(Device::Fan, Reading::OverSpeed, m));
        },
        Ok(b) => *b,
    };
    let replaceable = match &f.replaceable {
        Err(m) => {
            return Err(ReadFailure::new(Device::Fan, Reading::Replaceable, m));
        },
        Ok(b) => *b,
    };
    let fields = vec![
        pair("presence", bool_string(true)),
        pair("drawer_name", drawer_name),
        pair("model", string_or_na(&f.model)),
        pair("serial", string_or_na(&f.serial)),
        pair("status", bool_string(status)),
        pair("direction", direction),
        pair("speed", u32_text(speed)),
        pair("speed_target", u32_text(target_speed)),
        pair("is_under_speed", bool_string(under_speed)),
        pair("is_over_speed", bool_string(over_speed)),
        pair("is_replaceable", bool_string(replaceable)),
        pair("timestamp", ts.clone()),
    ];
    proof {
        let expected = fan_record(*f, ts@);
        assert(expected matches Ok((k, v)) && v =~= fields_view(fields@));
    }
    Ok((name, fields))
}

/// Builds the FAN_DRAWER_INFO entry of a drawer; see `drawer_record`.
pub fn drawer_info(d: &DrawerReading) -> (r: Result<(String, Fields), ReadFailure>)
    ensures
        record_view(r) == drawer_record(*d),
{
    let name = match &d.name {
        Err(m) => {
            return Err(ReadFailure::new(Device::FanDrawer, Reading::Name, m));
        },
        Ok(n) => n.clone(),
    };
    let presence = match &d.presence {
        Err(m) => {
            return Err(ReadFailure::new(Device::FanDrawer, Reading::Presence, m));
        },
        Ok(b) => *b,
    };
    let status = match &d.status {
        Err(m) => {
            return Err(ReadFailure::new(Device::FanDrawer, Reading::Status, m));
        },
        Ok(b) => *b,
    };
    let replaceable = match &d.replaceable {
        Err(m) => {
            return Err(ReadFailure::new(Device::FanDrawer, Reading::Replaceable, m));
        },
        Ok(b) => *b,
    };
    let fields = vec![
        pair("presence", bool_string(presence)),
        pair("model", string_or_na(&d.model)),
        pair("serial", string_or_na(&d.serial)),
        pair("status", bool_string(status)),
        pair("is_replaceable", bool_string(replaceable)),
    ];
    proof {
        let expected = drawer_record(*d);
        assert(expected matches Ok((k, v)) && v =~= fields_view(fields@));
    }
    Ok((name, fields))
}

/// A present fan whose readings all succeed is described under its own
/// name by twelve fields with distinct names: presence `true`, the holding
/// drawer's name, model and serial (`N/A` when unreadable), and the status,
/// direction, speed, target speed, under- and over-speed flags and
/// replaceability as read, written in decimal or as `true`/`false`, and the
/// time stamp.
pub proof fn lemma_present_fan_record(f: FanReading, ts: Seq<char>)
    requires
        f.name is Ok,
        f.presence == Ok::<bool, String>(true),
        f.drawer_name is Ok,
        f.status is Ok,
        f.direction is Ok,
        f.speed is Ok,
        f.target_speed is Ok,
        f.under_speed is Ok,
        f.over_speed is Ok,
        f.replaceable is Ok,
    ensures
        fan_record(f, ts) is Ok,
        fan_record(f, ts)->Ok_0.0 == f.name->Ok_0@,
        fan_record(f, ts)->Ok_0.1.len() == 12,
        distinct_names(fan_record(f, ts)->Ok_0.1),
        has_field(fan_record(f, ts)->Ok_0.1, "presence"@, "true"@),
        has_field(fan_record(f, ts)->Ok_0.1, "drawer_name"@, f.drawer_name->Ok_0@),
        has_field(
            fan_record(f, ts)->Ok_0.1,
            "model"@,
            if f.model is Ok {
                f.model->Ok_0@
            } else {
                "N/A"@
            },
        ),
        has_field(
            fan_record(f, ts)->Ok_0.1,
            "serial"@,
            if f.serial is Ok {
                f.serial->Ok_0@
            } else {
                "N/A"@
            },
        ),
        has_field(
            fan_record(f, ts)->Ok_0.1,
            "status"@,
            if f.status->Ok_0 {
                "true"@
            } else {
                "false"@
            },
        ),
        has_field(fan_record(f, ts)->Ok_0.1, "direction"@, f.direction->Ok_0@),
        has_field(fan_record(f, ts)->Ok_0.1, "speed"@, decimal(f.speed->Ok_0 as nat)),
        has_field(
            fan_record(f, ts)->Ok_0.1,
            "speed_target"@,
            decimal(f.target_speed->Ok_0 as nat),
        ),
        has_field(
            fan_record(f, ts)->Ok_0.1,
            "is_under_speed"@,
            if f.under_speed->Ok_0 {
                "true"@
            } else {
                "false"@
            },
        ),
        has_field(
            fan_record(f, ts)->Ok_0.1,
            "is_over_speed"@,
            if f.over_speed->Ok_0 {
                "true"@
            } else {
                "false"@
            },
        ),
        has_field(
            fan_record(f, ts)->Ok_0.1,
            "is_replaceable"@,
            if f.replaceable->Ok_0 {
                "true"@
            } else {
                "false"@
            },
        ),
        has_field(fan_record(f, ts)->Ok_0.1, "timestamp"@, ts),
{
    reveal_strlit("presence");
    reveal_strlit("drawer_name");
    reveal_strlit("model");
    reveal_strlit("serial");
    reveal_strlit("status");
    reveal_strlit("direction");
    reveal_strlit("speed");
    reveal_strlit("speed_target");
    reveal_strlit("is_under_speed");
    reveal_strlit("is_over_speed");
    reveal_strlit("is_replaceable");
    reveal_strlit("timestamp");
    let v = fan_record(f, ts)->Ok_0.1;
    assert(v[0] == ("presence"@, "true"@));
    assert(v[1] == ("drawer_name"@, f.drawer_name->Ok_0@));
    assert(v[2].0 == "model"@);
    assert(v[3].0 == "serial"@);
    assert(v[4].0 == "status"@);
    assert(v[5] == ("direction"@, f.direction->Ok_0@));
    assert(v[6] == ("speed"@, decimal(f.speed->Ok_0 as nat)));
    assert(v[7] == ("speed_target"@, decimal(f.target_speed->Ok_0 as nat)));
    assert(v[8].0 == "is_under_speed"@);
    assert(v[9].0 == "is_over_speed"@);
    assert(v[10].0 == "is_replaceable"@);
    assert(v[11] == ("timestamp"@, ts));
    assert(distinct_names(v)) by {
        assert forall|i: int, j: int| 0 <= i < j < v.len() implies v[i].0 != v[j].0 by {
            if v[i].0 == v[j].0 {
                assert(v[i].0[0] == v[j].0[0]);
                assert(v[i].0.len() == v[j].0.len());
                assert(v[i].0[1] == v[j].0[1]);
                assert(v[i].0[3] == v[j].0[3]);
            }
        }
    }
}

/// A fan that is absent, or whose presence cannot be read, is described
/// under its own name by presence `false`, status `false` and the time
/// stamp alone, whatever its other readings.
pub proof fn lemma_absent_fan_record(f: FanReading, ts: Seq<char>)
    requires
        f.name is Ok,
        f.presence != Ok::<bool, String>(true),
    ensures
        fan_record(f, ts) == Ok::<(Seq<char>, FieldsView), FailureView>(
            (f.name->Ok_0@, seq![("presence"@, "false"@), ("status"@, "false"@), ("timestamp"@, ts)]),
        ),
{
}

/// A readable drawer is described under its own name by five fields with
/// distinct names: its presence, model and serial (`N/A` when unreadable),
/// status and replaceability, each as read.
pub proof fn lemma_drawer_record(d: DrawerReading)
    requires
        d.name is Ok,
        d.presence is Ok,
        d.status is Ok,
        d.replaceable is Ok,
    ensures
        drawer_record(d) is Ok,
        drawer_record(d)->Ok_0.0 == d.name->Ok_0@,
        drawer_record(d)->Ok_0.1.len() == 5,
        distinct_names(drawer_record(d)->Ok_0.1),
        has_field(
            drawer_record(d)->Ok_0.1,
            "presence"@,
            if d.presence->Ok_0 {
                "true"@
            } else {
                "false"@
            },
        ),
        has_field(
            drawer_record(d)->Ok_0.1,
            "model"@,
            if d.model is Ok {
                d.model->Ok_0@
            } else {
                "N/A"@
            },
        ),
        has_field(
            drawer_record(d)->Ok_0.1,
            "serial"@,
            if d.serial is Ok {
                d.serial->Ok_0@
            } else {
                "N/A"@
            },
        ),
        has_field(
            drawer_record(d)->Ok_0.1,
            "status"@,
            if d.status->Ok_0 {
                "true"@
            } else {
                "false"@
            },
        ),
        has_field(
            drawer_record(d)->Ok_0.1,
            "is_replaceable"@,
            if d.replaceable->Ok_0 {
                "true"@
            } else {
                "false"@
            },
        ),
{
    reveal_strlit("presence");
    reveal_strlit("model");
    reveal_strlit("serial");
    reveal_strlit("status");
    reveal_strlit("is_replaceable");
    let v = drawer_record(d)->Ok_0.1;
    assert(v[0].0 == "presence"@);
    assert(v[1].0 == "model"@);
    assert(v[2].0 == "serial"@);
    assert(v[3].0 == "status"@);
    assert(v[4].0 == "is_replaceable"@);
    assert(distinct_names(v)) by {
        assert forall|i: int, j: int| 0 <= i < j < v.len() implies v[i].0 != v[j].0 by {
            if v[i].0 == v[j].0 {
                assert(v[i].0[0] == v[j].0[0]);
                assert(v[i].0.len() == v[j].0.len());
                assert(v[i].0[1] == v[j].0[1]);
            }
        }
    }
}

/// The error text of the reading `reading` of `device` taken for fan `f`,
/// when that reading failed.
pub open spec fn fan_reading_error(f: FanReading, device: Device, reading: Reading) -> Option<
    Seq<char>,
> {
    match (device, reading) {
        (Device::Fan, Reading::Name) => read_error(f.name),
        (Device::FanDrawer, Reading::Name) => read_error(f.drawer_name),
        (Device::Fan, Reading::Status) => read_error(f.status),
        (Device::Fan, Reading::Direction) => read_error(f.direction),
        (Device::Fan, Reading::Speed) => read_error(f.speed),
        (Device::Fan, Reading::TargetSpeed) => read_error(f.target_speed),
        (Device::Fan, Reading::UnderSpeed) => read_error(f.under_speed),
        (Device::Fan, Reading::OverSpeed) => read_error(f.over_speed),
        (Device::Fan, Reading::Replaceable) => read_error(f.replaceable),
        _ => None,
    }
}

/// The error text of a reading that failed, or `None`.
pub open spec fn read_error<T>(r: Result<T, String>) -> Option<Seq<char>> {
    match r {
        Ok(_) => None,
        Err(m) => Some(m@),
    }
}

/// A fan's record fails only when its name cannot be read, or when it is
/// present and a reading its record needs cannot be read (model and serial
/// never make it fail); the failure names a reading that did fail and
/// carries that reading's own error text.
pub proof fn lemma_fan_record_failure(f: FanReading, ts: Seq<char>)
    ensures
        fan_record(f, ts) is Err <==> (f.name is Err || (f.presence == Ok::<bool, String>(true)
            && (f.drawer_name is Err || f.status is Err || f.direction is Err || f.speed is Err
            || f.target_speed is Err || f.under_speed is Err || f.over_speed is Err
            || f.replaceable is Err))),
        fan_record(f, ts) is Err ==> fan_reading_error(
            f,
            fan_record(f, ts)->Err_0.device,
            fan_record(f, ts)->Err_0.reading,
        ) == Some(fan_record(f, ts)->Err_0.message),
{
}

/// A drawer's record fails exactly when its name, presence, status or
/// replaceability cannot be read, and the failure carries the error text of
/// the reading it names.
pub proof fn lemma_drawer_record_failure(d: DrawerReading)
    ensures
        drawer_record(d) is Err <==> (d.name is Err || d.presence is Err || d.status is Err
            || d.replaceable is Err),
        drawer_record(d) is Err ==> drawer_record(d)->Err_0.device == Device::FanDrawer,
        drawer_record(d) is Err ==> drawer_record(d)->Err_0.message == match drawer_record(
            d,
        )->Err_0.reading {
            Reading::Name => error_text(d.name),
            Reading::Presence => error_text(d.presence),
            Reading::Status => error_text(d.status),
            Reading::Replaceable => error_text(d.replaceable),
            _ => Seq::empty(),
        },
        drawer_record(d) is Err ==> match drawer_record(d)->Err_0.reading {
            Reading::Name => d.name is Err,
            Reading::Presence => d.presence is Err,
            Reading::Status => d.status is Err,
            Reading::Replaceable => d.replaceable is Err,
            _ => false,
        },
{
}

/// The timestamps of a pass, one row per drawer and one entry per fan.
pub open spec fn stamp_grid(rows: Seq<Vec<String>>) -> Seq<Seq<Seq<char>>> {
    rows.map_values(|row: Vec<String>| stamp_row(row@))
}

pub open spec fn stamp_row(row: Seq<String>) -> Seq<Seq<char>> {
    row.map_values(|t: String| t@)
}

/// The steps for the fans of one drawer, the `j`-th fan stamped with
/// `stamps[j]`: one per fan, in order; a fan whose record fails is reported
/// and the pass goes on.
pub open spec fn fan_steps(fans: Seq<FanReading>, stamps: Seq<Seq<char>>) -> Seq<StepView> {
    Seq::new(
        fans.len(),
        |j: int| step_of(fan_record(fans[j], stamps[j]), InfoTable::FanInfo, false),
    )
}

/// The write of a drawer's entry, whose failure ends the pass.
pub open spec fn drawer_write(key: Seq<char>, fields: FieldsView) -> StepView {
    StepView::Write { table: InfoTable::FanDrawerInfo, key, fields, fatal: true }
}

/// The steps for one drawer: its FAN_DRAWER_INFO entry, then the FAN_INFO
/// entries of its fans; or, when the drawer cannot be described, the
/// failure that ends the pass.
pub open spec fn drawer_steps(d: DrawerReading, stamps: Seq<Seq<char>>) -> Seq<StepView> {
    match drawer_record(d) {
        Err(e) => seq![StepView::Fail { failure: e, fatal: true }],
        Ok((key, fields)) => seq![drawer_write(key, fields)] + fan_steps(d.fans@, stamps),
    }
}

/// Every drawer record can be built.
pub open spec fn drawers_readable(drawers: Seq<DrawerReading>) -> bool {
    forall|i: int| 0 <= i < drawers.len() ==> (#[trigger] drawer_record(drawers[i])) is Ok
}

/// The steps of one fan update pass: the steps of each drawer in order,
/// the fans of the `i`-th drawer stamped with `stamps[i]`, up to and
/// including the first drawer that cannot be described.
pub open spec fn fan_plan(drawers: Seq<DrawerReading>, stamps: Seq<Seq<Seq<char>>>) -> Seq<
    StepView,
>
    decreases drawers.len(),
{
    if drawers.len() == 0 {
        seq![]
    } else if drawers_readable(drawers.drop_last()) {
        fan_plan(drawers.drop_last(), stamps) + drawer_steps(
            drawers.last(),
            stamps[drawers.len() - 1],
        )
    } else {
        fan_plan(drawers.drop_last(), stamps)
    }
}

/// One step per drawer and one per fan.
pub open spec fn pass_length(drawers: Seq<DrawerReading>) -> nat
    decreases drawers.len(),
{
    if drawers.len() == 0 {
        0
    } else {
        pass_length(drawers.drop_last()) + 1 + drawers.last().fans@.len()
    }
}

/// The plan reads only the stamps of the drawers it covers.
proof fn lemma_fan_plan_stamps(
    drawers: Seq<DrawerReading>,
    a: Seq<Seq<Seq<char>>>,
    b: Seq<Seq<Seq<char>>>,
)
    requires
        forall|k: int| 0 <= k < drawers.len() ==> a[k] == b[k],
    ensures
        fan_plan(drawers, a) == fan_plan(drawers, b),
    decreases drawers.len(),
{
    if drawers.len() > 0 {
        lemma_fan_plan_stamps(drawers.drop_last(), a, b);
    }
}

/// Nothing after the first drawer that cannot be described is planned.
proof fn lemma_fan_plan_stops(drawers: Seq<DrawerReading>, stamps: Seq<Seq<Seq<char>>>, i: int)
    requires
        0 <= i < drawers.len(),
        drawers_readable(drawers.take(i)),
        drawer_record(drawers[i]) is Err,
    ensures
        fan_plan(drawers, stamps) == fan_plan(drawers.take(i + 1), stamps),
    decreases drawers.len(),
{
    if drawers.len() == i + 1 {
        assert(drawers.take(i + 1) =~= drawers);
    } else {
        let before = drawers.drop_last();
        assert(before[i] == drawers[i]);
        assert(!drawers_readable(before));
        assert(before.take(i) =~= drawers.take(i));
        lemma_fan_plan_stops(before, stamps, i);
        assert(before.take(i + 1) =~= drawers.take(i + 1));
    }
}

/// Drawers that can all be described form a plan with one step per drawer
/// and per fan, none of which ends the pass.
pub proof fn lemma_fan_pass_complete(drawers: Seq<DrawerReading>, stamps: Seq<Seq<Seq<char>>>)
    requires
        drawers_readable(drawers),
    ensures
        fan_plan(drawers, stamps).len() == pass_length(drawers),
        forall|i: int|
            0 <= i < fan_plan(drawers, stamps).len() ==> !is_abort(
                #[trigger] fan_plan(drawers, stamps)[i],
            ),
    decreases drawers.len(),
{
    if drawers.len() > 0 {
        let before = drawers.drop_last();
        assert forall|i: int| 0 <= i < before.len() implies (#[trigger] drawer_record(
            before[i],
        )) is Ok by {
            assert(before[i] == drawers[i]);
        }
        lemma_fan_pass_complete(before, stamps);
        assert(drawer_record(drawers[drawers.len() - 1]) is Ok);
        let head = fan_plan(before, stamps);
        let tail = drawer_steps(drawers.last(), stamps[drawers.len() - 1]);
        let plan = fan_plan(drawers, stamps);
        assert(plan == head + tail);
        assert forall|i: int| 0 <= i < plan.len() implies !is_abort(#[trigger] plan[i]) by {
            if i >= head.len() {
                assert(plan[i] == tail[i - head.len()]);
            } else {
                assert(plan[i] == head[i]);
            }
        }
    }
}

/// The steps of the drawers before the `k`-th fit before the end of the pass
/// together with the `k`-th drawer's own steps.
proof fn lemma_pass_length_prefix(drawers: Seq<DrawerReading>, k: int)
    requires
        0 <= k < drawers.len(),
    ensures
        pass_length(drawers.take(k)) + 1 + drawers[k].fans@.len() <= pass_length(drawers),
    decreases drawers.len(),
{
    let before = drawers.drop_last();
    if k == drawers.len() - 1 {
        assert(drawers.take(k) =~= before);
    } else {
        lemma_pass_length_prefix(before, k);
        assert(before.take(k) =~= drawers.take(k));
        assert(before[k] == drawers[k]);
    }
}

/// The FAN_DRAWER_INFO write of a readable drawer: keyed by the drawer's
/// name, holding its record, and ending the pass if it fails.
pub open spec fn drawer_entry(d: DrawerReading) -> StepView {
    StepView::Write {
        table: InfoTable::FanDrawerInfo,
        key: d.name->Ok_0@,
        fields: drawer_record(d)->Ok_0.1,
        fatal: true,
    }
}

/// The step for a fan stamped `ts`: a FAN_INFO write of its record, or the
/// report of its failure; neither ends the pass.
pub open spec fn fan_entry(f: FanReading, ts: Seq<char>) -> StepView {
    match fan_record(f, ts) {
        Ok((key, fields)) => StepView::Write { table: InfoTable::FanInfo, key, fields, fatal: false },
        Err(e) => StepView::Fail { failure: e, fatal: false },
    }
}

/// The place in a pass where the `k`-th drawer's steps begin.
pub open spec fn drawer_offset(drawers: Seq<DrawerReading>, k: int) -> int {
    pass_length(drawers.take(k)) as int
}

/// In a pass over readable drawers, the `k`-th drawer's FAN_DRAWER_INFO
/// entry comes right after the steps of the drawers before it.
#[verifier::rlimit(80)]
proof fn lemma_fan_pass_drawer_entries(drawers: Seq<DrawerReading>, stamps: Seq<Seq<Seq<char>>>)
    requires
        drawers_readable(drawers),
    ensures
        forall|k: int|
            #![trigger drawers[k]]
            0 <= k < drawers.len() ==> fan_plan(drawers, stamps)[drawer_offset(drawers, k)]
                == drawer_entry(drawers[k]),
    decreases drawers.len(),
{
    if drawers.len() > 0 {
        let n = drawers.len() - 1;
        let before = drawers.drop_last();
        assert forall|i: int| 0 <= i < before.len() implies (#[trigger] drawer_record(
            before[i],
        )) is Ok by {
            assert(before[i] == drawers[i]);
        }
        lemma_fan_pass_drawer_entries(before, stamps);
        lemma_fan_pass_complete(before, stamps);
        assert(drawer_record(drawers[n]) is Ok);
        let head = fan_plan(before, stamps);
        let tail = drawer_steps(drawers.last(), stamps[n]);
        let plan = fan_plan(drawers, stamps);
        assert(plan == head + tail);
        assert(drawers.take(n) =~= before);
        assert forall|k: int| #![trigger drawers[k]] 0 <= k < drawers.len() implies plan[drawer_offset(
            drawers,
            k,
        )] == drawer_entry(drawers[k]) by {
            if k < n {
                assert(before.take(k) =~= drawers.take(k));
                assert(before[k] == drawers[k]);
                lemma_pass_length_prefix(before, k);
                assert(plan[pass_length(drawers.take(k)) as int] == head[pass_length(
                    before.take(k),
                ) as int]);
            } else {
                assert(plan[head.len() as int] == tail[0]);
            }
        }
    }
}

/// In a pass over readable drawers, the step of the `j`-th fan of the
/// `k`-th drawer comes `1 + j` places after that drawer's entry.
#[verifier::rlimit(80)]
proof fn lemma_fan_pass_fan_entries(drawers: Seq<DrawerReading>, stamps: Seq<Seq<Seq<char>>>)
    requires
        drawers_readable(drawers),
    ensures
        forall|k: int, j: int|
            #![trigger drawers[k].fans@[j]]
            0 <= k < drawers.len() && 0 <= j < drawers[k].fans@.len() ==> fan_plan(
                drawers,
                stamps,
            )[drawer_offset(drawers, k) + 1 + j] == fan_entry(drawers[k].fans@[j], stamps[k][j]),
    decreases drawers.len(),
{
    if drawers.len() > 0 {
        let n = drawers.len() - 1;
        let before = drawers.drop_last();
        assert forall|i: int| 0 <= i < before.len() implies (#[trigger] drawer_record(
            before[i],
        )) is Ok by {
            assert(before[i] == drawers[i]);
        }
        lemma_fan_pass_fan_entries(before, stamps);
        lemma_fan_pass_complete(before, stamps);
        assert(drawer_record(drawers[n]) is Ok);
        let head = fan_plan(before, stamps);
        let tail = drawer_steps(drawers.last(), stamps[n]);
        let plan = fan_plan(drawers, stamps);
        assert(plan == head + tail);
        assert(drawers.take(n) =~= before);
        assert forall|k: int, j: int|
            #![trigger drawers[k].fans@[j]]
            0 <= k < drawers.len() && 0 <= j < drawers[k].fans@.len() implies plan[drawer_offset(
                drawers,
                k,
            ) + 1 + j] == fan_entry(drawers[k].fans@[j], stamps[k][j]) by {
            if k < n {
                assert(before.take(k) =~= drawers.take(k));
                assert(before[k] == drawers[k]);
                assert(before[k].fans@[j] == drawers[k].fans@[j]);
                lemma_pass_length_prefix(before, k);
                assert(plan[pass_length(drawers.take(k)) + 1 + j] == head[pass_length(
                    before.take(k),
                ) + 1 + j]);
            } else {
                assert(plan[head.len() + 1 + j] == tail[1 + j]);
            }
        }
    }
}

/// In a pass over readable drawers, FAN_DRAWER_INFO is written only at the
/// places where a drawer's steps begin.
#[verifier::rlimit(80)]
proof fn lemma_fan_pass_drawer_table_only(drawers: Seq<DrawerReading>, stamps: Seq<Seq<Seq<char>>>)
    requires
        drawers_readable(drawers),
    ensures
        forall|i: int|
            0 <= i < fan_plan(drawers, stamps).len() && (#[trigger] fan_plan(drawers, stamps)[i])
                is Write && fan_plan(drawers, stamps)[i]->Write_table == InfoTable::FanDrawerInfo
                ==> (exists|k: int| 0 <= k < drawers.len() && i == drawer_offset(drawers, k)),
    decreases drawers.len(),
{
    if drawers.len() > 0 {
        let n = drawers.len() - 1;
        let before = drawers.drop_last();
        assert forall|i: int| 0 <= i < before.len() implies (#[trigger] drawer_record(
            before[i],
        )) is Ok by {
            assert(before[i] == drawers[i]);
        }
        lemma_fan_pass_drawer_table_only(before, stamps);
        lemma_fan_pass_complete(before, stamps);
        assert(drawer_record(drawers[n]) is Ok);
        let head = fan_plan(before, stamps);
        let tail = drawer_steps(drawers.last(), stamps[n]);
        let plan = fan_plan(drawers, stamps);
        assert(plan == head + tail);
        assert(drawers.take(n) =~= before);
        assert forall|i: int|
            0 <= i < plan.len() && (#[trigger] plan[i]) is Write && plan[i]->Write_table
                == InfoTable::FanDrawerInfo implies (exists|k: int|
            0 <= k < drawers.len() && i == drawer_offset(drawers, k)) by {
            if i < head.len() {
                assert(plan[i] == head[i]);
                let k = choose|k: int| 0 <= k < before.len() && i == drawer_offset(before, k);
                assert(before.take(k) =~= drawers.take(k));
                assert(i == drawer_offset(drawers, k));
            } else if i == head.len() {
                assert(i == drawer_offset(drawers, n));
            } else {
                assert(plan[i] == tail[i - head.len()]);
            }
        }
    }
}

/// Where each entry of a pass over readable drawers stands: the `k`-th
/// drawer's FAN_DRAWER_INFO entry comes right after the steps of the drawers
/// before it, keyed by the drawer's name and holding the drawer's record;
/// the step of its `j`-th fan comes `1 + j` places later and is a FAN_INFO
/// write of that fan's record, or the report of its failure, neither ending
/// the pass whatever the fan's place in its drawer; and FAN_DRAWER_INFO is
/// written nowhere else.
pub proof fn lemma_fan_pass_layout(drawers: Seq<DrawerReading>, stamps: Seq<Seq<Seq<char>>>)
    requires
        drawers_readable(drawers),
    ensures
        forall|k: int|
            #![trigger drawers[k]]
            0 <= k < drawers.len() ==> fan_plan(drawers, stamps)[drawer_offset(drawers, k)]
                == drawer_entry(drawers[k]),
        forall|k: int, j: int|
            #![trigger drawers[k].fans@[j]]
            0 <= k < drawers.len() && 0 <= j < drawers[k].fans@.len() ==> fan_plan(
                drawers,
                stamps,
            )[drawer_offset(drawers, k) + 1 + j] == fan_entry(drawers[k].fans@[j], stamps[k][j]),
        forall|i: int|
            0 <= i < fan_plan(drawers, stamps).len() && (#[trigger] fan_plan(drawers, stamps)[i])
                is Write && fan_plan(drawers, stamps)[i]->Write_table == InfoTable::FanDrawerInfo
                ==> (exists|k: int| 0 <= k < drawers.len() && i == drawer_offset(drawers, k)),
{
    lemma_fan_pass_drawer_entries(drawers, stamps);
    lemma_fan_pass_fan_entries(drawers, stamps);
    lemma_fan_pass_drawer_table_only(drawers, stamps);
}

/// A fan pass ends with an error only at its last step, and only for a fan
/// drawer that could not be described: a failing fan never stops the pass.
pub proof fn lemma_fan_pass_aborts_only_on_drawer_at_end(
    drawers: Seq<DrawerReading>,
    stamps: Seq<Seq<Seq<char>>>,
)
    ensures
        forall|i: int|
            0 <= i < fan_plan(drawers, stamps).len() - 1 ==> !is_abort(
                #[trigger] fan_plan(drawers, stamps)[i],
            ),
        forall|i: int|
            0 <= i < fan_plan(drawers, stamps).len() && is_abort(
                #[trigger] fan_plan(drawers, stamps)[i],
            ) ==> fan_plan(drawers, stamps)[i]->Fail_failure.device == Device::FanDrawer,
    decreases drawers.len(),
{
    if drawers.len() > 0 {
        let before = drawers.drop_last();
        if drawers_readable(before) {
            lemma_fan_pass_complete(before, stamps);
            let head = fan_plan(before, stamps);
            let tail = drawer_steps(drawers.last(), stamps[drawers.len() - 1]);
            let plan = fan_plan(drawers, stamps);
            assert(plan == head + tail);
            assert forall|i: int| 0 <= i < plan.len() && is_abort(#[trigger] plan[i]) implies i
                == plan.len() - 1 && plan[i]->Fail_failure.device == Device::FanDrawer by {
                if i < head.len() {
                    assert(plan[i] == head[i]);
                } else {
                    assert(plan[i] == tail[i - head.len()]);
                }
            }
        } else {
            lemma_fan_pass_aborts_only_on_drawer_at_end(before, stamps);
        }
    }
}

/// Every entry that a fan pass writes goes to FAN_DRAWER_INFO, where a
/// failed write ends the pass, or to FAN_INFO, where it does not.
pub proof fn lemma_fan_pass_tables(drawers: Seq<DrawerReading>, stamps: Seq<Seq<Seq<char>>>)
    ensures
        forall|i: int|
            0 <= i < fan_plan(drawers, stamps).len() && (#[trigger] fan_plan(
                drawers,
                stamps,
            )[i]) is Write ==> {
                let s = fan_plan(drawers, stamps)[i];
                ||| s->Write_table == InfoTable::FanDrawerInfo && s->Write_fatal
                ||| s->Write_table == InfoTable::FanInfo && !s->Write_fatal
            },
    decreases drawers.len(),
{
    if drawers.len() > 0 {
        let before = drawers.drop_last();
        lemma_fan_pass_tables(before, stamps);
        if drawers_readable(before) {
            let head = fan_plan(before, stamps);
            let tail = drawer_steps(drawers.last(), stamps[drawers.len() - 1]);
            let plan = fan_plan(drawers, stamps);
            assert(plan == head + tail);
            assert forall|i: int| 0 <= i < plan.len() && (#[trigger] plan[i]) is Write implies {
                ||| plan[i]->Write_table == InfoTable::FanDrawerInfo && plan[i]->Write_fatal
                ||| plan[i]->Write_table == InfoTable::FanInfo && !plan[i]->Write_fatal
            } by {
                if i < head.len() {
                    assert(plan[i] == head[i]);
                } else {
                    assert(plan[i] == tail[i - head.len()]);
                }
            }
        }
    }
}

/// One fan update pass, with the local time each fan was stamped with: one
/// row per drawer it covered, one entry per fan of that drawer.
#[derive(Clone, Debug, PartialEq, Eq)]
pub struct FanPass {
    pub timestamps: Vec<Vec<String>>,
    pub steps: Vec<Step>,
}

/// Plans one fan update pass, reading the local clock once for each fan;
/// see `fan_plan`.
pub fn plan_fan_update(drawers: &Vec<DrawerReading>) -> (pass: FanPass)
    ensures
        steps_view(pass.steps@) == fan_plan(drawers@, stamp_grid(pass.timestamps@)),
        pass.timestamps@.len() <= drawers@.len(),
        forall|i: int|
            0 <= i < pass.timestamps@.len() ==> (#[trigger] pass.timestamps@[i])@.len()
                == drawers@[i].fans@.len(),
        forall|i: int, j: int|
            0 <= i < pass.timestamps@.len() && 0 <= j < pass.timestamps@[i]@.len()
                ==> is_clock_text(#[trigger] pass.timestamps@[i]@[j]@),
{
    let mut steps: Vec<Step> = Vec::new();
    let mut stamps: Vec<Vec<String>> = Vec::new();
    let mut i: usize = 0;
    assert(drawers@.take(0) =~= Seq::<DrawerReading>::empty());
    while i < drawers.len()
        invariant
            i <= drawers@.len(),
            stamps@.len() == i,
            drawers_readable(drawers@.take(i as int)),
            steps_view(steps@) == fan_plan(drawers@.take(i as int), stamp_grid(stamps@)),
            forall|k: int| 0 <= k < i ==> (#[trigger] stamps@[k])@.len() == drawers@[k].fans@.len(),
            forall|k: int, j: int|
                0 <= k < stamps@.len() && 0 <= j < stamps@[k]@.len() ==> is_clock_text(
                    #[trigger] stamps@[k]@[j]@,
                ),
        decreases drawers@.len() - i,
    {
        let d = &drawers[i];
        let ghost grid = stamp_grid(stamps@);
        assert(drawers@.take(i + 1).drop_last() =~= drawers@.take(i as int));
        assert(drawers@.take(i + 1).last() == *d);
        match drawer_info(d) {
            Err(e) => {
                let ghost before = steps@;
                steps.push(Step::Fail { failure: e, fatal: true });
                proof {
                    assert(steps_view(steps@) =~= steps_view(before) + seq![
                        StepView::Fail { failure: e@, fatal: true },
                    ]);
                    assert(fan_plan(drawers@.take(i + 1), grid) == fan_plan(
                        drawers@.take(i as int),
                        grid,
                    ) + drawer_steps(*d, grid[i as int]));
                    lemma_fan_plan_stops(drawers@, grid, i as int);
                }
                return FanPass { timestamps: stamps, steps };
            },
            Ok((key, fields)) => {
                let ghost before = steps@;
                let ghost fields_model = fields_view(fields@);
                steps.push(
                    Step::Write { table: InfoTable::FanDrawerInfo, key, fields, fatal: true },
                );
                let ghost base = steps@;
                let ghost key_model = steps@.last()->Write_key@;
                assert(steps_view(base) =~= steps_view(before) + seq![
                    drawer_write(key_model, fields_model),
                ]);
                let mut row: Vec<String> = Vec::new();
                let mut j: usize = 0;
                while j < d.fans.len()
                    invariant
                        j <= d.fans@.len(),
                        row@.len() == j,
                        forall|k: int| 0 <= k < j ==> is_clock_text(#[trigger] row@[k]@),
                        steps_view(steps@) =~= steps_view(base) + fan_steps(
                            d.fans@.take(j as int),
                            stamp_row(row@),
                        ),
                    decreases d.fans@.len() - j,
                {
                    let ghost prev = steps@;
                    let ghost prev_row = row@;
                    let ts = local_timestamp();
                    let step = into_step(fan_info(&d.fans[j], &ts), InfoTable::FanInfo, false);
                    row.push(ts);
                    steps.push(step);
                    assert(steps_view(steps@) =~= steps_view(prev).push(step@));
                    assert(fan_steps(d.fans@.take(j + 1), stamp_row(row@)) =~= fan_steps(
                        d.fans@.take(j as int),
                        stamp_row(prev_row),
                    ).push(step@));
                    j += 1;
                }
                assert(d.fans@.take(d.fans@.len() as int) =~= d.fans@);
                let ghost old_stamps = stamps@;
                stamps.push(row);
                proof {
                    let new_grid = stamp_grid(stamps@);
                    assert forall|k: int| 0 <= k < i implies grid[k] == new_grid[k] by {
                        assert(stamps@[k] == old_stamps[k]);
                    }
                    lemma_fan_plan_stamps(drawers@.take(i as int), grid, new_grid);
                    assert(new_grid[i as int] == stamp_row(row@));
                    assert(drawer_record(*d) == Ok::<(Seq<char>, FieldsView), FailureView>(
                        (key_model, fields_model),
                    ));
                    assert(fan_plan(drawers@.take(i + 1), new_grid) == fan_plan(
                        drawers@.take(i as int),
                        new_grid,
                    ) + drawer_steps(*d, new_grid[i as int]));
                    assert(steps_view(steps@) =~= fan_plan(drawers@.take(i + 1), new_grid));
                    assert forall|k: int| 0 <= k < i + 1 implies (#[trigger] drawer_record(
                        drawers@.take(i + 1)[k],
                    )) is Ok by {
                        if k < i {
                            assert(drawers@.take(i + 1)[k] == drawers@.take(i as int)[k]);
                        }
                    }
                    assert forall|k: int, l: int|
                        0 <= k < stamps@.len() && 0 <= l < stamps@[k]@.len() implies is_clock_text(
                        #[trigger] stamps@[k]@[l]@,
                    ) by {
                        if k < i {
                            assert(stamps@[k] == old_stamps[k]);
                        }
                    }
                }
            },
        }
        i += 1;
    }
    assert(drawers@.take(i as int) =~= drawers@);
    FanPass { timestamps: stamps, steps }
}

} // verus!
