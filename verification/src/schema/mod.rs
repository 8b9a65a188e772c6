//! Schema versions, their detection, and the migrations between them.
pub mod columns;
pub mod contents;
pub mod ddl;
pub mod integrity;
pub mod integrity_laws;
pub mod schema_laws;
pub mod statement_laws;

use crate::error::{Error, is_internal};
use crate::text::{i64_to_text, same_text, signed_decimal};
use std::cmp::Ordering;
use vstd::prelude::*;

verus! {

/// The schema version that databases are brought to.
pub const CURRENT: SchemaVersion = SchemaVersion::V0_5;

/// Text of the current version.
pub const AGENTFS_SCHEMA_VERSION: &'static str = "0.5";

pub const CONFIG_SCHEMA_VERSION_KEY: &'static str = "schema_version";

pub const CONFIG_CHUNK_SIZE_KEY: &'static str = "chunk_size";

pub const CONFIG_INLINE_THRESHOLD_KEY: &'static str = "inline_threshold";

/// A version of the schema; the versions ascend in the order given here.
#[derive(Debug, Clone, Copy, PartialEq, Eq, Ord, Structural)]
pub enum SchemaVersion {
    /// The first tables.
    V0_0,
    /// With link counts.
    V0_2,
    /// With nanoseconds and device numbers.
    V0_4,
    /// With inline contents and the tables of the overlay.
    V0_5,
}

impl SchemaVersion {
    pub open spec fn text(self) -> Seq<char> {
        match self {
            SchemaVersion::V0_0 => "0.0"@,
            SchemaVersion::V0_2 => "0.2"@,
            SchemaVersion::V0_4 => "0.4"@,
            SchemaVersion::V0_5 => "0.5"@,
        }
    }

    pub open spec fn number(self) -> i64 {
        match self {
            SchemaVersion::V0_0 => 0,
            SchemaVersion::V0_2 => 2,
            SchemaVersion::V0_4 => 4,
            SchemaVersion::V0_5 => 5,
        }
    }

    /// The text of the version.
    pub fn as_str(self) -> (text: &'static str)
        ensures
            text@ == self.text(),
    {
        match self {
            SchemaVersion::V0_0 => "0.0",
            SchemaVersion::V0_2 => "0.2",
            SchemaVersion::V0_4 => "0.4",
            SchemaVersion::V0_5 => "0.5",
        }
    }

    /// The number that a database of this version is stamped with.
    pub fn user_version(self) -> (number: i64)
        ensures
            number == self.number(),
    {
        match self {
            SchemaVersion::V0_0 => 0,
            SchemaVersion::V0_2 => 2,
            SchemaVersion::V0_4 => 4,
            SchemaVersion::V0_5 => 5,
        }
    }

    /// Whether this is the current version.
    pub fn is_current(self) -> (yes: bool)
        ensures
            yes == (self == CURRENT),
    {
        match self {
            SchemaVersion::V0_5 => true,
            _ => false,
        }
    }

    /// How many versions come before this one.
    fn place(self) -> (place: u8)
        ensures
            place == 3 - steps_behind(self),
    {
        match self {
            SchemaVersion::V0_0 => 0,
            SchemaVersion::V0_2 => 1,
            SchemaVersion::V0_4 => 2,
            SchemaVersion::V0_5 => 3,
        }
    }

    /// The version that a stamp stands for.
    pub fn from_user_version(number: i64) -> (version: Option<SchemaVersion>)
        ensures
            version == stamped(number),
            match version {
                Some(v) => v.number() == number,
                None => forall|v: SchemaVersion| #![trigger v.number()] v.number() != number,
            },
    {
        match number {
            0 => Some(SchemaVersion::V0_0),
            2 => Some(SchemaVersion::V0_2),
            4 => Some(SchemaVersion::V0_4),
            5 => Some(SchemaVersion::V0_5),
            _ => None,
        }
    }
}

/// How a version stands to another: the one with more steps before it is the later one.
pub open spec fn ranked_against(one: SchemaVersion, other: SchemaVersion) -> Ordering {
    if steps_behind(one) > steps_behind(other) {
        Ordering::Less
    } else if steps_behind(one) < steps_behind(other) {
        Ordering::Greater
    } else {
        Ordering::Equal
    }
}

impl PartialOrd for SchemaVersion {
    fn partial_cmp(&self, other: &Self) -> (order: Option<Ordering>) {
        let mine: u8 = self.place();
        let theirs: u8 = other.place();
        if mine < theirs {
            Some(Ordering::Less)
        } else if mine > theirs {
            Some(Ordering::Greater)
        } else {
            Some(Ordering::Equal)
        }
    }
}

impl vstd::std_specs::cmp::PartialOrdSpecImpl for SchemaVersion {
    open spec fn obeys_partial_cmp_spec() -> bool {
        true
    }

    open spec fn partial_cmp_spec(&self, other: &Self) -> Option<Ordering> {
        Some(ranked_against(*self, *other))
    }
}

/// A version is below another exactly where its stamp is the smaller one, and two versions are
/// of one rank only where they are the same.
pub proof fn versions_are_ordered_as_their_stamps(one: SchemaVersion, other: SchemaVersion)
    ensures
        ranked_against(one, other) == Ordering::Less <==> one.number() < other.number(),
        ranked_against(one, other) == Ordering::Greater <==> one.number()
            > other.number(),
        ranked_against(one, other) == Ordering::Equal <==> one == other,
{
}

/// Every version has a stamp of its own, the stamps are 0, 2, 4 and 5, and no version is past
/// the current one.
pub proof fn every_version_has_its_own_stamp(version: SchemaVersion)
    ensures
        stamped(version.number()) == Some(version),
        version.number() <= CURRENT.number(),
        forall|number: i64|
            #[trigger] stamped(number) is Some <==> number == 0 || number == 2 || number == 4
                || number == 5,
        forall|number: i64| #[trigger]
            stamped(number) matches Some(found) ==> found.number() == number,
{
}

/// A step from one version to the next.
#[derive(Debug, Clone, Copy, PartialEq, Eq)]
pub struct Migration {
    pub from: SchemaVersion,
    pub to: SchemaVersion,
    pub description: &'static str,
}

impl View for Migration {
    type V = (SchemaVersion, SchemaVersion, Seq<char>);

    open spec fn view(&self) -> (SchemaVersion, SchemaVersion, Seq<char>) {
        (self.from, self.to, self.description@)
    }
}

/// The version that a stamp stands for.
pub open spec fn stamped(number: i64) -> Option<SchemaVersion> {
    if number == 0 {
        Some(SchemaVersion::V0_0)
    } else if number == 2 {
        Some(SchemaVersion::V0_2)
    } else if number == 4 {
        Some(SchemaVersion::V0_4)
    } else if number == 5 {
        Some(SchemaVersion::V0_5)
    } else {
        None
    }
}

/// The version after `from`, if there is one.
pub open spec fn next_version(from: SchemaVersion) -> Option<SchemaVersion> {
    match from {
        SchemaVersion::V0_0 => Some(SchemaVersion::V0_2),
        SchemaVersion::V0_2 => Some(SchemaVersion::V0_4),
        SchemaVersion::V0_4 => Some(SchemaVersion::V0_5),
        SchemaVersion::V0_5 => None,
    }
}

/// How many steps a version is behind the current one.
pub open spec fn steps_behind(from: SchemaVersion) -> nat {
    match from {
        SchemaVersion::V0_0 => 3,
        SchemaVersion::V0_2 => 2,
        SchemaVersion::V0_4 => 1,
        SchemaVersion::V0_5 => 0,
    }
}

/// The versions that lie between `from` and the current one, as steps.
pub open spec fn way_to_current(from: SchemaVersion) -> Seq<(SchemaVersion, SchemaVersion)>
    decreases steps_behind(from),
{
    match next_version(from) {
        Some(next) => seq![(from, next)] + way_to_current(next),
        None => Seq::empty(),
    }
}

/// All steps with their descriptions, in order.
pub open spec fn history() -> Seq<(SchemaVersion, SchemaVersion, Seq<char>)> {
    seq![
        (SchemaVersion::V0_0, SchemaVersion::V0_2, "add fs_inode.nlink"@),
        (SchemaVersion::V0_2, SchemaVersion::V0_4, "add nanosecond timestamps and rdev"@),
        (
            SchemaVersion::V0_4,
            SchemaVersion::V0_5,
            "add inline storage and overlay schema sections"@,
        ),
    ]
}

/// The steps of [`history`] that a database of version `from` has not taken yet.
pub open spec fn history_from(from: SchemaVersion) -> Seq<
    (SchemaVersion, SchemaVersion, Seq<char>),
> {
    history().skip(3 - steps_behind(from))
}

/// Migrations with their descriptions.
pub open spec fn described(steps: Seq<Migration>) -> Seq<
    (SchemaVersion, SchemaVersion, Seq<char>),
> {
    steps.map_values(|step: Migration| step@)
}

/// The versions that migrations lead from and to.
pub open spec fn versions(steps: Seq<Migration>) -> Seq<(SchemaVersion, SchemaVersion)> {
    steps.map_values(|step: Migration| (step.from, step.to))
}

/// The way from a version starts there, has no gap and ends at the current version.
pub proof fn the_way_to_current_has_no_gap(from: SchemaVersion)
    ensures
        ({
            let way = way_to_current(from);
            &&& way.len() == steps_behind(from)
            &&& from != CURRENT ==> way[0].0 == from && way.last().1 == CURRENT
            &&& from == SchemaVersion::V0_0 ==> way[0].1 == way[1].0 && way[1].1 == way[2].0
            &&& from == SchemaVersion::V0_2 ==> way[0].1 == way[1].0
        }),
{
    reveal_with_fuel(way_to_current, 4);
    assert(way_to_current(CURRENT) =~= Seq::empty());
    assert(way_to_current(SchemaVersion::V0_4) =~= seq![
        (SchemaVersion::V0_4, SchemaVersion::V0_5),
    ]);
    assert(way_to_current(SchemaVersion::V0_2) =~= seq![
        (SchemaVersion::V0_2, SchemaVersion::V0_4),
        (SchemaVersion::V0_4, SchemaVersion::V0_5),
    ]);
    assert(way_to_current(SchemaVersion::V0_0) =~= seq![
        (SchemaVersion::V0_0, SchemaVersion::V0_2),
        (SchemaVersion::V0_2, SchemaVersion::V0_4),
        (SchemaVersion::V0_4, SchemaVersion::V0_5),
    ]);
}

/// All steps, in order.
pub fn migrations() -> (steps: Vec<Migration>)
    ensures
        described(steps@) == history(),
        versions(steps@) == way_to_current(SchemaVersion::V0_0),
{
    let mut steps: Vec<Migration> = Vec::new();
    steps.push(
        Migration {
            from: SchemaVersion::V0_0,
            to: SchemaVersion::V0_2,
            description: "add fs_inode.nlink",
        },
    );
    steps.push(
        Migration {
            from: SchemaVersion::V0_2,
            to: SchemaVersion::V0_4,
            description: "add nanosecond timestamps and rdev",
        },
    );
    steps.push(
        Migration {
            from: SchemaVersion::V0_4,
            to: SchemaVersion::V0_5,
            description: "add inline storage and overlay schema sections",
        },
    );
    proof {
        reveal_with_fuel(way_to_current, 4);
        assert(way_to_current(CURRENT) =~= Seq::empty());
        assert(versions(steps@) =~= way_to_current(SchemaVersion::V0_0));
        assert(described(steps@) =~= history());
    }
    steps
}

/// The step that leads from a version to the next one.
fn step_from(version: SchemaVersion) -> (step: Option<Migration>)
    ensures
        match step {
            Some(m) => version != CURRENT && m@ == history_from(version)[0],
            None => version == CURRENT,
        },
{
    let steps: Vec<Migration> = migrations();
    proof {
        assert(described(steps@).len() == 3);
        assert(described(steps@)[0] == steps@[0]@);
        assert(described(steps@)[1] == steps@[1]@);
        assert(described(steps@)[2] == steps@[2]@);
    }
    let mut i: usize = 0;
    while i < steps.len()
        invariant
            i <= steps@.len() == 3,
            steps@[0]@ == history()[0],
            steps@[1]@ == history()[1],
            steps@[2]@ == history()[2],
            forall|k: int| 0 <= k < i ==> (#[trigger] steps@[k]).from != version,
        decreases steps@.len() - i,
    {
        if steps[i].from == version {
            return Some(steps[i]);
        }
        i += 1;
    }
    assert(steps@[0].from != version && steps@[1].from != version && steps@[2].from != version);
    None
}

/// The tail of the history from a version on leads along the way to the current version.
proof fn lemma_history_is_the_way(from: SchemaVersion, steps: Seq<Migration>)
    requires
        described(steps) == history_from(from),
    ensures
        versions(steps) == way_to_current(from),
{
    the_way_to_current_has_no_gap(from);
    reveal_with_fuel(way_to_current, 4);
    assert(steps.len() == described(steps).len() == steps_behind(from));
    assert forall|k: int| 0 <= k < steps.len() implies #[trigger] versions(steps)[k]
        == way_to_current(from)[k] by {
        assert(described(steps)[k] == steps[k]@);
        assert(history_from(from)[k] == history()[k + 3 - steps_behind(from)]);
    }
    assert(versions(steps) =~= way_to_current(from));
}

/// The steps that bring a database of version `from` to the current one: the tail of
/// [`migrations`] that starts there.
pub fn pending_migrations(from: SchemaVersion) -> (steps: Vec<Migration>)
    ensures
        described(steps@) == history_from(from),
        versions(steps@) == way_to_current(from),
        steps@.len() == steps_behind(from),
{
    let mut version: SchemaVersion = from;
    let mut steps: Vec<Migration> = Vec::new();
    assert(described(steps@) + history_from(version) =~= history_from(from));
    while version != CURRENT
        invariant
            described(steps@) + history_from(version) == history_from(from),
        ensures
            version == CURRENT,
        decreases steps_behind(version),
    {
        match step_from(version) {
            Some(step) => {
                let ghost before = steps@;
                steps.push(step);
                proof {
                    assert(described(steps@) =~= described(before).push(step@));
                    assert(history_from(version) =~= seq![step@] + history_from(step.to));
                    assert(described(steps@) + history_from(step.to) =~= described(before)
                        + history_from(version));
                }
                version = step.to;
            },
            None => {
                break;
            },
        }
    }
    proof {
        assert(history_from(CURRENT) =~= Seq::empty());
        assert(described(steps@) =~= history_from(from));
        assert(described(steps@).len() == steps@.len());
        lemma_history_is_the_way(from, steps@);
    }
    steps
}

/// A column as the database describes it.
#[derive(Debug)]
pub struct ColumnInfo {
    pub name: String,
    pub kind: String,
    pub not_null: bool,
    pub default_value: Option<String>,
}

/// A column as the current schema has it.
#[derive(Debug, Clone, Copy)]
pub struct ColumnSpec {
    pub table_name: &'static str,
    pub column_name: &'static str,
    pub kind: &'static str,
    pub not_null: bool,
    pub default_value: Option<&'static str>,
}

/// Whether columns hold one of this name.
pub open spec fn has_column(columns: Seq<ColumnInfo>, name: Seq<char>) -> bool {
    exists|i: int| 0 <= i < columns.len() && (#[trigger] columns[i]).name@ == name
}

/// Whether columns hold one of this name.
pub fn column_exists(columns: &Vec<ColumnInfo>, name: &str) -> (yes: bool)
    ensures
        yes == has_column(columns@, name@),
{
    let mut i: usize = 0;
    while i < columns.len()
        invariant
            i <= columns@.len(),
            forall|k: int| 0 <= k < i ==> (#[trigger] columns@[k]).name@ != name@,
        decreases columns@.len() - i,
    {
        if same_text(columns[i].name.as_str(), name) {
            return true;
        }
        i += 1;
    }
    false
}

/// The version that the columns of the inode table show.
pub open spec fn sniffed(columns: Seq<ColumnInfo>) -> SchemaVersion {
    if has_column(columns, "data_inline"@) && has_column(columns, "storage_kind"@) {
        SchemaVersion::V0_5
    } else if has_column(columns, "atime_nsec"@) && has_column(columns, "mtime_nsec"@)
        && has_column(columns, "ctime_nsec"@) && has_column(columns, "rdev"@) {
        SchemaVersion::V0_4
    } else if has_column(columns, "nlink"@) {
        SchemaVersion::V0_2
    } else {
        SchemaVersion::V0_0
    }
}

/// Whether an error says that `found` is not the current version.
pub open spec fn is_mismatch(error: Error, found: Seq<char>) -> bool {
    error matches Error::SchemaVersionMismatch { found: text, expected } && text@ == found
        && expected@ == CURRENT.text()
}

/// The version of a database, from its stamp and the columns of its inode table. A stamp
/// above zero decides; a database without stamp and without that table is new.
pub fn detect_schema_version(user_version: i64, inode_columns: Option<&Vec<ColumnInfo>>) -> (result:
    Result<Option<SchemaVersion>, Error>)
    ensures
        if user_version > 0 {
            match result {
                Ok(found) => found is Some && found == stamped(user_version),
                Err(error) => stamped(user_version) is None && is_mismatch(
                    error,
                    "user_version "@ + signed_decimal(user_version as int),
                ),
            }
        } else {
            result matches Ok(found) && match inode_columns {
                None => found is None,
                Some(columns) => found == Some(sniffed(columns@)),
            }
        },
{
    if user_version > 0 {
        return match SchemaVersion::from_user_version(user_version) {
            Some(version) => Ok(Some(version)),
            None => {
                let mut found: String = "user_version ".to_owned();
                found.append(i64_to_text(user_version).as_str());
                Err(
                    Error::SchemaVersionMismatch { found, expected: CURRENT.as_str().to_owned() },
                )
            },
        };
    }
    match inode_columns {
        None => Ok(None),
        Some(columns) => {
            if column_exists(columns, "data_inline") && column_exists(columns, "storage_kind") {
                return Ok(Some(SchemaVersion::V0_5));
            }
            if column_exists(columns, "atime_nsec") && column_exists(columns, "mtime_nsec")
                && column_exists(columns, "ctime_nsec") && column_exists(columns, "rdev") {
                return Ok(Some(SchemaVersion::V0_4));
            }
            if column_exists(columns, "nlink") {
                return Ok(Some(SchemaVersion::V0_2));
            }
            Ok(Some(SchemaVersion::V0_0))
        },
    }
}

/// Refuses a database of another version. `true` says that its tables have to be
/// validated; a new database has none.
pub fn check_schema_version(detected: Option<SchemaVersion>) -> (result: Result<bool, Error>)
    ensures
        match detected {
            None => result matches Ok(validate) && !validate,
            Some(version) => if version == CURRENT {
                result matches Ok(validate) && validate
            } else {
                result matches Err(error) && is_mismatch(error, version.text())
            },
        },
{
    match detected {
        None => Ok(false),
        Some(version) => if version.is_current() {
            Ok(true)
        } else {
            Err(
                Error::SchemaVersionMismatch {
                    found: version.as_str().to_owned(),
                    expected: CURRENT.as_str().to_owned(),
                },
            )
        },
    }
}

/// One step on the way to the current schema. All of them run in one transaction.
#[derive(Debug, Clone, Copy)]
pub enum SchemaStep {
    /// Adds columns that old tables of the overlay lack.
    RepairOverlay,
    /// Creates tables and indexes that are missing.
    CreateTables,
    /// Makes the changes of a migration.
    Apply(Migration),
    /// Stamps the database with a version.
    Stamp(SchemaVersion),
    /// Writes the configuration that is missing.
    ConfigDefaults,
}

/// Each migration followed by its stamp.
pub open spec fn applied(steps: Seq<Migration>) -> Seq<SchemaStep>
    decreases steps.len(),
{
    if steps.len() == 0 {
        Seq::empty()
    } else {
        applied(steps.drop_last()).push(SchemaStep::Apply(steps.last())).push(
            SchemaStep::Stamp(steps.last().to),
        )
    }
}

/// The steps that bring a database of a detected version to the current schema.
pub open spec fn upgrade(pending: Seq<Migration>) -> Seq<SchemaStep> {
    seq![SchemaStep::RepairOverlay, SchemaStep::CreateTables] + applied(pending) + seq![
        SchemaStep::ConfigDefaults,
        SchemaStep::Stamp(CURRENT),
    ]
}

/// Whether steps bring a database with a stamp and a detected version to the current schema:
/// there are none for one that is stamped with it.
pub open spec fn brings_up_to_date(
    user_version: i64,
    detected: Option<SchemaVersion>,
    steps: Seq<SchemaStep>,
) -> bool {
    &&& user_version == CURRENT.number() ==> steps.len() == 0
    &&& user_version != CURRENT.number() ==> exists|pending: Seq<Migration>|
        {
            &&& steps == #[trigger] upgrade(pending)
            &&& match detected {
                Some(version) => described(pending) == history_from(version),
                None => pending.len() == 0,
            }
        }
}

/// The stamp of a database after steps.
pub open spec fn stamp_after(stamp: i64, steps: Seq<SchemaStep>) -> i64
    decreases steps.len(),
{
    if steps.len() == 0 {
        stamp
    } else {
        match steps.last() {
            SchemaStep::Stamp(version) => version.number(),
            _ => stamp_after(stamp, steps.drop_last()),
        }
    }
}

/// The steps that bring a database to the current schema; none for one that is stamped
/// with it.
pub fn ensure_current_steps(user_version: i64, detected: Option<SchemaVersion>) -> (steps: Vec<
    SchemaStep,
>)
    ensures
        brings_up_to_date(user_version, detected, steps@),
{
    let mut steps: Vec<SchemaStep> = Vec::new();
    if user_version == CURRENT.user_version() {
        return steps;
    }
    let pending: Vec<Migration> = match detected {
        Some(version) => pending_migrations(version),
        None => Vec::new(),
    };
    steps.push(SchemaStep::RepairOverlay);
    steps.push(SchemaStep::CreateTables);
    let ghost head = steps@;
    let mut i: usize = 0;
    assert(pending@.take(0) =~= Seq::<Migration>::empty());
    assert(steps@ =~= head + applied(pending@.take(0)));
    while i < pending.len()
        invariant
            i <= pending@.len(),
            steps@ == head + applied(pending@.take(i as int)),
        decreases pending@.len() - i,
    {
        proof {
            assert(pending@.take(i + 1).drop_last() =~= pending@.take(i as int));
            assert(pending@.take(i + 1).last() == pending@[i as int]);
        }
        steps.push(SchemaStep::Apply(pending[i]));
        steps.push(SchemaStep::Stamp(pending[i].to));
        i += 1;
        assert(steps@ =~= head + applied(pending@.take(i as int)));
    }
    steps.push(SchemaStep::ConfigDefaults);
    steps.push(SchemaStep::Stamp(CURRENT));
    proof {
        assert(pending@.take(i as int) =~= pending@);
        assert(steps@ =~= upgrade(pending@));
    }
    steps
}

/// What is done to a database that is opened: its steps in one transaction, and then the
/// validation of its tables.
#[derive(Debug)]
pub struct SchemaPlan {
    pub steps: Vec<SchemaStep>,
    /// Whether the tables are validated once the steps are committed.
    pub validate: bool,
}

/// How a database is brought to the current schema. Its tables are validated whatever it was
/// stamped with, also where no step is left to take.
pub fn ensure_current_plan(user_version: i64, detected: Option<SchemaVersion>) -> (plan: SchemaPlan)
    ensures
        brings_up_to_date(user_version, detected, plan.steps@),
        plan.validate,
{
    SchemaPlan { steps: ensure_current_steps(user_version, detected), validate: true }
}

/// A database that was brought to the current schema carries its stamp, is detected as of the
/// current version whatever its columns are, and needs no further step.
pub proof fn an_upgraded_database_needs_nothing_more(
    stamp: i64,
    detected: Option<SchemaVersion>,
    steps: Seq<SchemaStep>,
    detected_again: Option<SchemaVersion>,
    steps_again: Seq<SchemaStep>,
)
    requires
        brings_up_to_date(stamp, detected, steps),
        brings_up_to_date(stamp_after(stamp, steps), detected_again, steps_again),
    ensures
        stamp_after(stamp, steps) == CURRENT.number(),
        stamped(stamp_after(stamp, steps)) == Some(CURRENT),
        steps_again.len() == 0,
{
    if stamp != CURRENT.number() {
        let pending = choose|pending: Seq<Migration>| steps == #[trigger] upgrade(pending);
        assert(upgrade(pending).last() == SchemaStep::Stamp(CURRENT));
    }
}

/// An upgrade only repairs, creates, migrates along the history, stamps and fills in
/// configuration; what it migrates is each step that the detected version lacks, once and in
/// order, and each is stamped when it was made.
pub proof fn an_upgrade_takes_every_missing_step_once(pending: Seq<Migration>)
    ensures
        upgrade(pending).len() == 2 * pending.len() + 4,
        upgrade(pending)[0] == SchemaStep::RepairOverlay,
        upgrade(pending)[1] == SchemaStep::CreateTables,
        forall|i: int|
            0 <= i < pending.len() ==> upgrade(pending)[2 * i + 2] == SchemaStep::Apply(
                #[trigger] pending[i],
            ) && upgrade(pending)[2 * i + 3] == SchemaStep::Stamp(pending[i].to),
        upgrade(pending)[2 * (pending.len() as int) + 2] == SchemaStep::ConfigDefaults,
        upgrade(pending).last() == SchemaStep::Stamp(CURRENT),
{
    lemma_applied(pending);
    assert forall|i: int| 0 <= i < pending.len() implies upgrade(pending)[2 * i + 2]
        == SchemaStep::Apply(#[trigger] pending[i]) && upgrade(pending)[2 * i + 3]
        == SchemaStep::Stamp(pending[i].to) by {
        assert(upgrade(pending)[2 * i + 2] == applied(pending)[2 * i]);
        assert(upgrade(pending)[2 * i + 3] == applied(pending)[2 * i + 1]);
    }
}

proof fn lemma_applied(pending: Seq<Migration>)
    ensures
        applied(pending).len() == 2 * pending.len(),
        forall|i: int|
            0 <= i < pending.len() ==> applied(pending)[2 * i] == SchemaStep::Apply(
                #[trigger] pending[i],
            ) && applied(pending)[2 * i + 1] == SchemaStep::Stamp(pending[i].to),
    decreases pending.len(),
{
    if pending.len() > 0 {
        let rest = pending.drop_last();
        lemma_applied(rest);
        assert forall|i: int| 0 <= i < pending.len() implies applied(pending)[2 * i]
            == SchemaStep::Apply(#[trigger] pending[i]) && applied(pending)[2 * i + 1]
            == SchemaStep::Stamp(pending[i].to) by {
            if i < rest.len() {
                assert(rest[i] == pending[i]);
            }
        }
    }
}

/// A column to add and the statement that adds it.
#[derive(Debug, Clone, Copy)]
pub struct AddColumn {
    pub spec: ColumnSpec,
    pub sql: &'static str,
}

/// What a migration does: the columns it adds, then a statement that fills them.
#[derive(Debug)]
pub struct MigrationPlan {
    pub columns: Vec<AddColumn>,
    pub fill: Option<&'static str>,
}

/// Fills link counts: the root has two, a directory one per entry and at least one, other
/// inodes one per entry.
pub const FILL_NLINK_SQL: &'static str =
    "UPDATE fs_inode SET nlink = CASE WHEN ino = 1 THEN 2 WHEN (mode & 61440) = 16384 THEN MAX(1, (SELECT COUNT(*) FROM fs_dentry d WHERE d.ino = fs_inode.ino)) ELSE (SELECT COUNT(*) FROM fs_dentry d WHERE d.ino = fs_inode.ino) END";

/// Whether a column of the inode table is added as described.
pub open spec fn adds(
    column: AddColumn,
    name: Seq<char>,
    kind: Seq<char>,
    default: Option<Seq<char>>,
) -> bool {
    &&& column.spec.table_name@ == "fs_inode"@
    &&& column.spec.column_name@ == name
    &&& column.spec.kind@ == kind
    &&& column.spec.not_null == (default is Some)
    &&& match (column.spec.default_value, default) {
        (Some(found), Some(wanted)) => found@ == wanted,
        (None, None) => true,
        _ => false,
    }
    &&& column.sql@ == add_column_sql((name, kind, default))
}

/// The statement that adds a column to the inode table, from its name, type and default.
pub open spec fn add_column_sql(column: (Seq<char>, Seq<char>, Option<Seq<char>>)) -> Seq<char> {
    "ALTER TABLE fs_inode ADD COLUMN "@ + column.0 + " "@ + column.1 + match column.2 {
        Some(value) => " NOT NULL DEFAULT "@ + value,
        None => Seq::<char>::empty(),
    }
}

fn integer_column(name: &'static str, sql: &'static str) -> (column: AddColumn)
    requires
        sql@ == "ALTER TABLE fs_inode ADD COLUMN "@ + name@ + " "@ + "INTEGER"@
            + (" NOT NULL DEFAULT "@ + "0"@),
    ensures
        adds(column, name@, "INTEGER"@, Some("0"@)),
{
    AddColumn {
        spec: ColumnSpec {
            table_name: "fs_inode",
            column_name: name,
            kind: "INTEGER",
            not_null: true,
            default_value: Some("0"),
        },
        sql,
    }
}

/// The columns that a step adds, with their types and defaults.
pub open spec fn added_columns(from: SchemaVersion) -> Seq<(
    Seq<char>,
    Seq<char>,
    Option<Seq<char>>,
)> {
    match from {
        SchemaVersion::V0_0 => seq![("nlink"@, "INTEGER"@, Some("0"@))],
        SchemaVersion::V0_2 => seq![
            ("atime_nsec"@, "INTEGER"@, Some("0"@)),
            ("mtime_nsec"@, "INTEGER"@, Some("0"@)),
            ("ctime_nsec"@, "INTEGER"@, Some("0"@)),
            ("rdev"@, "INTEGER"@, Some("0"@)),
        ],
        SchemaVersion::V0_4 => seq![
            ("data_inline"@, "BLOB"@, None),
            ("storage_kind"@, "INTEGER"@, Some("0"@)),
        ],
        SchemaVersion::V0_5 => Seq::empty(),
    }
}

/// What a migration does. Only steps to the next version are known.
pub fn migration_plan(migration: &Migration) -> (result: Result<MigrationPlan, Error>)
    ensures
        if next_version(migration.from) == Some(migration.to) {
            result matches Ok(plan) && {
                let wanted = added_columns(migration.from);
                &&& plan.columns@.len() == wanted.len()
                &&& forall|i: int|
                    0 <= i < wanted.len() ==> adds(
                        #[trigger] plan.columns@[i],
                        wanted[i].0,
                        wanted[i].1,
                        wanted[i].2,
                    )
                &&& match plan.fill {
                    Some(sql) => migration.from == SchemaVersion::V0_0 && sql@ == FILL_NLINK_SQL@,
                    None => migration.from != SchemaVersion::V0_0,
                }
            }
        } else {
            result matches Err(error) && is_internal(
                error,
                "unsupported schema migration "@ + migration.from.text() + " -> "@
                    + migration.to.text(),
            )
        },
{
    proof {
        reveal_strlit("ALTER TABLE fs_inode ADD COLUMN ");
        reveal_strlit(" ");
        reveal_strlit("INTEGER");
        reveal_strlit("BLOB");
        reveal_strlit(" NOT NULL DEFAULT ");
        reveal_strlit("0");
        reveal_strlit("nlink");
        reveal_strlit("atime_nsec");
        reveal_strlit("mtime_nsec");
        reveal_strlit("ctime_nsec");
        reveal_strlit("rdev");
        reveal_strlit("data_inline");
        reveal_strlit("storage_kind");
        reveal_strlit("ALTER TABLE fs_inode ADD COLUMN nlink INTEGER NOT NULL DEFAULT 0");
        reveal_strlit("ALTER TABLE fs_inode ADD COLUMN atime_nsec INTEGER NOT NULL DEFAULT 0");
        reveal_strlit("ALTER TABLE fs_inode ADD COLUMN mtime_nsec INTEGER NOT NULL DEFAULT 0");
        reveal_strlit("ALTER TABLE fs_inode ADD COLUMN ctime_nsec INTEGER NOT NULL DEFAULT 0");
        reveal_strlit("ALTER TABLE fs_inode ADD COLUMN rdev INTEGER NOT NULL DEFAULT 0");
        reveal_strlit("ALTER TABLE fs_inode ADD COLUMN data_inline BLOB");
        reveal_strlit("ALTER TABLE fs_inode ADD COLUMN storage_kind INTEGER NOT NULL DEFAULT 0");
        let head = "ALTER TABLE fs_inode ADD COLUMN "@;
        let tail = " "@ + "INTEGER"@ + (" NOT NULL DEFAULT "@ + "0"@);
        assert("ALTER TABLE fs_inode ADD COLUMN nlink INTEGER NOT NULL DEFAULT 0"@ =~= head
            + "nlink"@ + " "@ + "INTEGER"@ + (" NOT NULL DEFAULT "@ + "0"@));
        assert("ALTER TABLE fs_inode ADD COLUMN atime_nsec INTEGER NOT NULL DEFAULT 0"@ =~= head
            + "atime_nsec"@ + " "@ + "INTEGER"@ + (" NOT NULL DEFAULT "@ + "0"@));
        assert("ALTER TABLE fs_inode ADD COLUMN mtime_nsec INTEGER NOT NULL DEFAULT 0"@ =~= head
            + "mtime_nsec"@ + " "@ + "INTEGER"@ + (" NOT NULL DEFAULT "@ + "0"@));
        assert("ALTER TABLE fs_inode ADD COLUMN ctime_nsec INTEGER NOT NULL DEFAULT 0"@ =~= head
            + "ctime_nsec"@ + " "@ + "INTEGER"@ + (" NOT NULL DEFAULT "@ + "0"@));
        assert("ALTER TABLE fs_inode ADD COLUMN rdev INTEGER NOT NULL DEFAULT 0"@ =~= head
            + "rdev"@ + " "@ + "INTEGER"@ + (" NOT NULL DEFAULT "@ + "0"@));
        assert("ALTER TABLE fs_inode ADD COLUMN storage_kind INTEGER NOT NULL DEFAULT 0"@
            =~= head + "storage_kind"@ + " "@ + "INTEGER"@ + (" NOT NULL DEFAULT "@ + "0"@));
        assert("ALTER TABLE fs_inode ADD COLUMN data_inline BLOB"@ =~= head + "data_inline"@
            + " "@ + "BLOB"@ + Seq::<char>::empty());
    }
    let mut columns: Vec<AddColumn> = Vec::new();
    match (migration.from, migration.to) {
        (SchemaVersion::V0_0, SchemaVersion::V0_2) => {
            columns.push(
                integer_column(
                    "nlink",
                    "ALTER TABLE fs_inode ADD COLUMN nlink INTEGER NOT NULL DEFAULT 0",
                ),
            );
            Ok(MigrationPlan { columns, fill: Some(FILL_NLINK_SQL) })
        },
        (SchemaVersion::V0_2, SchemaVersion::V0_4) => {
            columns.push(
                integer_column(
                    "atime_nsec",
                    "ALTER TABLE fs_inode ADD COLUMN atime_nsec INTEGER NOT NULL DEFAULT 0",
                ),
            );
            columns.push(
                integer_column(
                    "mtime_nsec",
                    "ALTER TABLE fs_inode ADD COLUMN mtime_nsec INTEGER NOT NULL DEFAULT 0",
                ),
            );
            columns.push(
                integer_column(
                    "ctime_nsec",
                    "ALTER TABLE fs_inode ADD COLUMN ctime_nsec INTEGER NOT NULL DEFAULT 0",
                ),
            );
            columns.push(
                integer_column(
                    "rdev",
                    "ALTER TABLE fs_inode ADD COLUMN rdev INTEGER NOT NULL DEFAULT 0",
                ),
            );
            Ok(MigrationPlan { columns, fill: None })
        },
        (SchemaVersion::V0_4, SchemaVersion::V0_5) => {
            columns.push(
                AddColumn {
                    spec: ColumnSpec {
                        table_name: "fs_inode",
                        column_name: "data_inline",
                        kind: "BLOB",
                        not_null: false,
                        default_value: None,
                    },
                    sql: "ALTER TABLE fs_inode ADD COLUMN data_inline BLOB",
                },
            );
            columns.push(
                integer_column(
                    "storage_kind",
                    "ALTER TABLE fs_inode ADD COLUMN storage_kind INTEGER NOT NULL DEFAULT 0",
                ),
            );
            Ok(MigrationPlan { columns, fill: None })
        },
        _ => {
            let mut message: String = "unsupported schema migration ".to_owned();
            message.append(migration.from.as_str());
            message.append(" -> ");
            message.append(migration.to.as_str());
            Err(Error::Internal(message))
        },
    }
}

} // verus!
