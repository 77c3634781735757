use vstd::prelude::*;

use crate::clock::{is_clock_text, local_timestamp};
use crate::record::{
    distinct_names, failure_view, fields_view, has_field, into_step, is_abort, pair, record_view, step_of, steps_view,
    Device, FailureView, Fields, FieldsView, InfoTable, ReadFailure, Reading, Step, StepView,
};
use crate::text::{bool_string, bool_text};

verus! {

/// What one thermal sensor reported. The temperatures are given as the text
/// they are stored with, a failed reading already replaced by the
/// not-available value; `above_high_threshold` and `below_low_threshold`
/// compare the temperature with the thresholds after that replacement.
/// The name and replaceability readings carry the error text they failed
/// with.
#[derive(Debug, PartialEq, Eq)]
pub struct ThermalReading {
    pub name: Result<String, String>,
    pub temperature: String,
    pub minimum_temperature: String,
    pub maximum_temperature: String,
    pub high_threshold: String,
    pub low_threshold: String,
    pub critical_high_threshold: String,
    pub critical_low_threshold: String,
    pub above_high_threshold: bool,
    pub below_low_threshold: bool,
    pub replaceable: Result<bool, String>,
}

/// `True` when the temperature lies outside its thresholds, else `False`.
pub open spec fn warning_text(t: ThermalReading) -> Seq<char> {
    if t.above_high_threshold || t.below_low_threshold {
        "True"@
    } else {
        "False"@
    }
}

/// The TEMPERATURE_INFO entry of a sensor at time `ts`, keyed by its name;
/// only a failed name reading makes it fail, with that reading's error, and
/// a failed replaceability reading counts as `false`.
pub open spec fn thermal_record(t: ThermalReading, ts: Seq<char>) -> Result<
    (Seq<char>, FieldsView),
    FailureView,
> {
    match t.name {
        Err(m) => Err(failure_view(Device::Thermal, Reading::Name, m@)),
        Ok(name) => Ok(
            (
                name@,
                seq![
                    ("temperature"@, t.temperature@),
                    ("minimum_temperature"@, t.minimum_temperature@),
                    ("maximum_temperature"@, t.maximum_temperature@),
                    ("high_threshold"@, t.high_threshold@),
                    ("low_threshold"@, t.low_threshold@),
                    ("warning_status"@, warning_text(t)),
                    ("critical_high_threshold"@, t.critical_high_threshold@),
                    ("critical_low_threshold"@, t.critical_low_threshold@),
                    ("is_replaceable"@, bool_text(t.replaceable == Ok::<bool, String>(true))),
                    ("timestamp"@, ts),
                ],
            ),
        ),
    }
}

/// The steps of one temperature update pass, the `i`-th sensor stamped
/// with `stamps[i]`: one per sensor, in order; a sensor whose record fails
/// is reported and the pass goes on.
pub open spec fn thermal_plan(thermals: Seq<ThermalReading>, stamps: Seq<Seq<char>>) -> Seq<
    StepView,
> {
    Seq::new(
        thermals.len(),
        |i: int|
            step_of(thermal_record(thermals[i], stamps[i]), InfoTable::TemperatureInfo, false),
    )
}

/// Builds the TEMPERATURE_INFO entry of a sensor; see `thermal_record`.
pub fn thermal_info(t: &ThermalReading, ts: &String) -> (r: Result<(String, Fields), ReadFailure>)
    ensures
        record_view(r) == thermal_record(*t, ts@),
{
    let name = match &t.name {
        Err(m) => {
            return Err(ReadFailure::new(Device::Thermal, Reading::Name, m));
        },
        Ok(n) => n.clone(),
    };
    let warning = if t.above_high_threshold || t.below_low_threshold {
        "True".to_owned()
    } else {
        "False".to_owned()
    };
    let replaceable = match &t.replaceable {
        Ok(b) => *b,
        Err(_) => false,
    };
    let fields = vec![
        pair("temperature", t.temperature.clone()),
        pair("minimum_temperature", t.minimum_temperature.clone()),
        pair("maximum_temperature", t.maximum_temperature.clone()),
        pair("high_threshold", t.high_threshold.clone()),
        pair("low_threshold", t.low_threshold.clone()),
        pair("warning_status", warning),
        pair("critical_high_threshold", t.critical_high_threshold.clone()),
        pair("critical_low_threshold", t.critical_low_threshold.clone()),
        pair("is_replaceable", bool_string(replaceable)),
        pair("timestamp", ts.clone()),
    ];
    proof {
        let expected = thermal_record(*t, ts@);
        assert(expected matches Ok((k, v)) && v =~= fields_view(fields@));
    }
    Ok((name, fields))
}

/// A sensor whose name can be read is described under that name by ten
/// fields with distinct names: its temperatures and thresholds as given, a
/// warning status that is `True` exactly when the temperature lies above
/// the high or below the low threshold, replaceability that is `true`
/// exactly when the reading succeeded and said so, and the time stamp.
pub proof fn lemma_thermal_record(t: ThermalReading, ts: Seq<char>)
    requires
        t.name is Ok,
    ensures
        thermal_record(t, ts) is Ok,
        thermal_record(t, ts)->Ok_0.0 == t.name->Ok_0@,
        thermal_record(t, ts)->Ok_0.1.len() == 10,
        distinct_names(thermal_record(t, ts)->Ok_0.1),
        has_field(thermal_record(t, ts)->Ok_0.1, "temperature"@, t.temperature@),
        has_field(thermal_record(t, ts)->Ok_0.1, "minimum_temperature"@, t.minimum_temperature@),
        has_field(thermal_record(t, ts)->Ok_0.1, "maximum_temperature"@, t.maximum_temperature@),
        has_field(thermal_record(t, ts)->Ok_0.1, "high_threshold"@, t.high_threshold@),
        has_field(thermal_record(t, ts)->Ok_0.1, "low_threshold"@, t.low_threshold@),
        has_field(
            thermal_record(t, ts)->Ok_0.1,
            "warning_status"@,
            if t.above_high_threshold || t.below_low_threshold {
                "True"@
            } else {
                "False"@
            },
        ),
        has_field(
            thermal_record(t, ts)->Ok_0.1,
            "critical_high_threshold"@,
            t.critical_high_threshold@,
        ),
        has_field(
            thermal_record(t, ts)->Ok_0.1,
            "critical_low_threshold"@,
            t.critical_low_threshold@,
        ),
        has_field(
            thermal_record(t, ts)->Ok_0.1,
            "is_replaceable"@,
            if t.replaceable == Ok::<bool, String>(true) {
                "true"@
            } else {
                "false"@
            },
        ),
        has_field(thermal_record(t, ts)->Ok_0.1, "timestamp"@, ts),
{
    reveal_strlit("temperature");
    reveal_strlit("minimum_temperature");
    reveal_strlit("maximum_temperature");
    reveal_strlit("high_threshold");
    reveal_strlit("low_threshold");
    reveal_strlit("warning_status");
    reveal_strlit("critical_high_threshold");
    reveal_strlit("critical_low_threshold");
    reveal_strlit("is_replaceable");
    reveal_strlit("timestamp");
    let v = thermal_record(t, ts)->Ok_0.1;
    assert(v[0] == ("temperature"@, t.temperature@));
    assert(v[1] == ("minimum_temperature"@, t.minimum_temperature@));
    assert(v[2] == ("maximum_temperature"@, t.maximum_temperature@));
    assert(v[3] == ("high_threshold"@, t.high_threshold@));
    assert(v[4] == ("low_threshold"@, t.low_threshold@));
    assert(v[5].0 == "warning_status"@);
    assert(v[6] == ("critical_high_threshold"@, t.critical_high_threshold@));
    assert(v[7] == ("critical_low_threshold"@, t.critical_low_threshold@));
    assert(v[8].0 == "is_replaceable"@);
    assert(v[9] == ("timestamp"@, ts));
    assert(distinct_names(v)) by {
        assert forall|i: int, j: int| 0 <= i < j < v.len() implies v[i].0 != v[j].0 by {
            if v[i].0 == v[j].0 {
                assert(v[i].0[0] == v[j].0[0]);
                assert(v[i].0.len() == v[j].0.len());
                assert(v[i].0[1] == v[j].0[1]);
                assert(v[i].0[9] == v[j].0[9]);
            }
        }
    }
}

/// A temperature pass has one step per sensor, in order, and never ends
/// with an error of its own: a sensor that cannot be described is reported
/// and the others are still written, every entry to TEMPERATURE_INFO.
pub proof fn lemma_temperature_pass_never_aborts(
    thermals: Seq<ThermalReading>,
    stamps: Seq<Seq<char>>,
)
    ensures
        thermal_plan(thermals, stamps).len() == thermals.len(),
        forall|i: int|
            0 <= i < thermals.len() ==> !is_abort(#[trigger] thermal_plan(thermals, stamps)[i]),
        forall|i: int|
            0 <= i < thermals.len() && (#[trigger] thermal_plan(thermals, stamps)[i]) is Write
                ==> thermal_plan(thermals, stamps)[i]->Write_table == InfoTable::TemperatureInfo,
{
}

/// One temperature update pass, with the local time each sensor was
/// stamped with.
#[derive(Clone, Debug, PartialEq, Eq)]
pub struct TemperaturePass {
    pub timestamps: Vec<String>,
    pub steps: Vec<Step>,
}

pub open spec fn stamps_view(v: Seq<String>) -> Seq<Seq<char>> {
    v.map_values(|t: String| t@)
}

/// Plans one temperature update pass, reading the local clock once for
/// each sensor; see `thermal_plan`.
pub fn plan_temperature_update(thermals: &Vec<ThermalReading>) -> (pass: TemperaturePass)
    ensures
        steps_view(pass.steps@) == thermal_plan(thermals@, stamps_view(pass.timestamps@)),
        pass.timestamps@.len() == thermals@.len(),
        forall|i: int|
            0 <= i < pass.timestamps@.len() ==> is_clock_text(#[trigger] pass.timestamps@[i]@),
{
    let mut steps: Vec<Step> = Vec::new();
    let mut stamps: Vec<String> = Vec::new();
    let mut i: usize = 0;
    while i < thermals.len()
        invariant
            i <= thermals@.len(),
            stamps@.len() == i,
            forall|k: int| 0 <= k < i ==> is_clock_text(#[trigger] stamps@[k]@),
            steps_view(steps@) =~= thermal_plan(thermals@.take(i as int), stamps_view(stamps@)),
        decreases thermals@.len() - i,
    {
        let ghost prev = steps@;
        let ghost prev_stamps = stamps@;
        let ts = local_timestamp();
        let step = into_step(thermal_info(&thermals[i], &ts), InfoTable::TemperatureInfo, false);
        stamps.push(ts);
        steps.push(step);
        assert(steps_view(steps@) =~= steps_view(prev).push(step@));
        assert(thermal_plan(thermals@.take(i + 1), stamps_view(stamps@)) =~= thermal_plan(
            thermals@.take(i as int),
            stamps_view(prev_stamps),
        ).push(step@));
        i += 1;
    }
    assert(thermals@.take(thermals@.len() as int) =~= thermals@);
    TemperaturePass { timestamps: stamps, steps }
}

} // verus!
