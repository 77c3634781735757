use vstd::prelude::*;

verus! {

/// The device whose reading failed.
#[derive(Clone, Copy, Debug, PartialEq, Eq, Structural)]
pub enum Device {
    FanDrawer,
    Fan,
    Thermal,
}

/// A reading that a device could not deliver.
#[derive(Clone, Copy, Debug, PartialEq, Eq, Structural)]
pub enum Reading {
    Name,
    Presence,
    Status,
    Direction,
    Speed,
    TargetSpeed,
    UnderSpeed,
    OverSpeed,
    Replaceable,
}

/// Why a record could not be built: which reading of which device failed,
/// and the error text the device gave.
#[derive(Clone, Debug, PartialEq, Eq)]
pub struct ReadFailure {
    pub device: Device,
    pub reading: Reading,
    pub message: String,
}

/// The mathematical model of a `ReadFailure`.
pub struct FailureView {
    pub device: Device,
    pub reading: Reading,
    pub message: Seq<char>,
}

impl View for ReadFailure {
    type V = FailureView;

    open spec fn view(&self) -> FailureView {
        FailureView { device: self.device, reading: self.reading, message: self.message@ }
    }
}

pub open spec fn failure_view(device: Device, reading: Reading, message: Seq<char>) -> FailureView {
    FailureView { device, reading, message }
}

impl ReadFailure {
    /// The failure of `reading` on `device`, with the device's error text.
    pub fn new(device: Device, reading: Reading, message: &String) -> (e: Self)
        ensures
            e@ == failure_view(device, reading, message@),
    {
        ReadFailure { device, reading, message: message.clone() }
    }
}

/// The text of a failed reading's error.
pub open spec fn error_text<T>(r: Result<T, String>) -> Seq<char> {
    match r {
        Ok(_) => Seq::empty(),
        Err(m) => m@,
    }
}

/// The field/value pairs of one table entry, as text.
pub type Fields = Vec<(String, String)>;

/// Field/value pairs in the order in which they are written.
pub type FieldsView = Seq<(Seq<char>, Seq<char>)>;

pub open spec fn fields_view(v: Seq<(String, String)>) -> FieldsView {
    v.map_values(|p: (String, String)| (p.0@, p.1@))
}

/// `fields` holds the entry `(name, value)`.
pub open spec fn has_field(fields: FieldsView, name: Seq<char>, value: Seq<char>) -> bool {
    exists|i: int| 0 <= i < fields.len() && fields[i] == (name, value)
}

/// No two entries of `fields` share a name.
pub open spec fn distinct_names(fields: FieldsView) -> bool {
    forall|i: int, j: int| 0 <= i < j < fields.len() ==> fields[i].0 != fields[j].0
}

/// The STATE_DB tables that the daemon writes.
#[derive(Clone, Copy, Debug, PartialEq, Eq, Structural)]
pub enum InfoTable {
    FanInfo,
    FanDrawerInfo,
    TemperatureInfo,
    PhysicalEntityInfo,
}

pub open spec fn table_text(t: InfoTable) -> Seq<char> {
    match t {
        InfoTable::FanInfo => "FAN_INFO"@,
        InfoTable::FanDrawerInfo => "FAN_DRAWER_INFO"@,
        InfoTable::TemperatureInfo => "TEMPERATURE_INFO"@,
        InfoTable::PhysicalEntityInfo => "PHYSICAL_ENTITY_INFO"@,
    }
}

/// The name of a table in STATE_DB.
pub fn table_name(t: InfoTable) -> (name: &'static str)
    ensures
        name@ == table_text(t),
{
    match t {
        InfoTable::FanInfo => "FAN_INFO",
        InfoTable::FanDrawerInfo => "FAN_DRAWER_INFO",
        InfoTable::TemperatureInfo => "TEMPERATURE_INFO",
        InfoTable::PhysicalEntityInfo => "PHYSICAL_ENTITY_INFO",
    }
}

/// One step of an update pass. A `Write` stores `fields` under `key` in `table`; a
/// `Fail` reports a device that could not be described. A step marked
/// `fatal` ends the pass with an error when it fails (for a `Fail`: always).
#[derive(Clone, Debug, PartialEq, Eq)]
pub enum Step {
    Write { table: InfoTable, key: String, fields: Fields, fatal: bool },
    Fail { failure: ReadFailure, fatal: bool },
}

/// The mathematical model of a `Step`.
pub enum StepView {
    Write { table: InfoTable, key: Seq<char>, fields: FieldsView, fatal: bool },
    Fail { failure: FailureView, fatal: bool },
}

impl View for Step {
    type V = StepView;

    open spec fn view(&self) -> StepView {
        match self {
            Step::Write { table, key, fields, fatal } => StepView::Write {
                table: *table,
                key: key@,
                fields: fields_view(fields@),
                fatal: *fatal,
            },
            Step::Fail { failure, fatal } => StepView::Fail { failure: failure@, fatal: *fatal },
        }
    }
}

pub open spec fn steps_view(v: Seq<Step>) -> Seq<StepView> {
    v.map_values(|s: Step| s@)
}

/// A step that ends the pass with an error whatever happens.
pub open spec fn is_abort(s: StepView) -> bool {
    s matches StepView::Fail { fatal: true, .. }
}

/// The step for a record: its write to `table`, or the failure that
/// prevented it.
pub open spec fn step_of(
    r: Result<(Seq<char>, FieldsView), FailureView>,
    table: InfoTable,
    fatal: bool,
) -> StepView {
    match r {
        Ok((key, fields)) => StepView::Write { table, key, fields, fatal },
        Err(failure) => StepView::Fail { failure, fatal },
    }
}

/// What a pass does after one of its steps.
#[derive(Clone, Copy, Debug, PartialEq, Eq, Structural)]
pub enum Outcome {
    /// The step succeeded; go on.
    Done,
    /// The step failed; report it and go on.
    Warn,
    /// The step failed; the pass ends with an error.
    Abort,
}

pub open spec fn outcome_of(s: StepView, write_succeeded: bool) -> Outcome {
    match s {
        StepView::Write { fatal, .. } => if write_succeeded {
            Outcome::Done
        } else if fatal {
            Outcome::Abort
        } else {
            Outcome::Warn
        },
        StepView::Fail { fatal, .. } => if fatal {
            Outcome::Abort
        } else {
            Outcome::Warn
        },
    }
}

/// Whether a step is marked fatal.
pub open spec fn is_fatal(s: StepView) -> bool {
    match s {
        StepView::Write { fatal, .. } => fatal,
        StepView::Fail { fatal, .. } => fatal,
    }
}

/// A pass ends with an error only at a step marked fatal: a write that
/// succeeds is done, a failure of a step not marked fatal is reported and
/// the pass goes on, and a failure of a fatal step ends the pass, whatever
/// device or reading failed.
pub proof fn lemma_outcome(s: StepView, write_succeeded: bool)
    ensures
        outcome_of(s, write_succeeded) == Outcome::Done <==> (s is Write && write_succeeded),
        outcome_of(s, write_succeeded) == Outcome::Abort <==> (is_fatal(s) && !(s is Write
            && write_succeeded)),
        outcome_of(s, write_succeeded) == Outcome::Warn <==> (!is_fatal(s) && !(s is Write
            && write_succeeded)),
{
}

/// Decides how a pass goes on after `step`, given whether its table write
/// succeeded (ignored for a `Fail`).
pub fn step_outcome(step: &Step, write_succeeded: bool) -> (o: Outcome)
    ensures
        o == outcome_of(step@, write_succeeded),
{
    match step {
        Step::Write { fatal, .. } => if write_succeeded {
            Outcome::Done
        } else if *fatal {
            Outcome::Abort
        } else {
            Outcome::Warn
        },
        Step::Fail { fatal, .. } => if *fatal {
            Outcome::Abort
        } else {
            Outcome::Warn
        },
    }
}

/// The text of a reading that falls back to `N/A` when it fails.
pub open spec fn text_or_na(o: Result<String, String>) -> Seq<char> {
    match o {
        Ok(s) => s@,
        Err(_) => "N/A"@,
    }
}

pub fn pair(key: &str, value: String) -> (p: (String, String))
    ensures
        p.0@ == key@,
        p.1@ == value@,
{
    (key.to_owned(), value)
}

pub fn string_or_na(o: &Result<String, String>) -> (s: String)
    ensures
        s@ == text_or_na(*o),
{
    match o {
        Ok(s) => s.clone(),
        Err(_) => "N/A".to_owned(),
    }
}

/// The mathematical model of a record: its key and fields, or the failure.
pub open spec fn record_view(r: Result<(String, Fields), ReadFailure>) -> Result<
    (Seq<char>, FieldsView),
    FailureView,
> {
    match r {
        Ok((k, f)) => Ok((k@, fields_view(f@))),
        Err(e) => Err(e@),
    }
}

/// Builds the step for a record, moving its key and fields.
pub fn into_step(
    r: Result<(String, Fields), ReadFailure>,
    table: InfoTable,
    fatal: bool,
) -> (s: Step)
    ensures
        s@ == step_of(record_view(r), table, fatal),
{
    match r {
        Ok((key, fields)) => Step::Write { table, key, fields, fatal },
        Err(failure) => Step::Fail { failure, fatal },
    }
}

} // verus!
