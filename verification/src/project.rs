//! The saved project file: its contents, timestamps, and integrity checks.
use vstd::prelude::*;

use crate::text::{decimal, push_char, push_decimal, push_text, push_zero_padded, text_eq, zero_padded};
use crate::units::UnitSystem;

verus! {

#[verifier::external_type_specification]
#[verifier::external_body]
pub struct ExJsonValue(serde_json::Value);

/// Version of the project file format this library writes and reads.
pub const FORMAT_VERSION: u32 = 1;

/// A board as saved. Position, rotation and dimensions are carried, not
/// computed on: they hold IEEE-754 binary64 bit patterns.
pub struct SavedBoard {
    pub id: String,
    pub label: String,
    pub position: [u64; 3],
    pub rotation: [u64; 3],
    pub dimensions: [u64; 3],
    pub parent_id: Option<String>,
    pub lumber_type: String,
    pub species_id: Option<String>,
    pub finish_id: Option<String>,
    pub grain_direction: String,
}

/// A joint as saved; `offset` holds binary64 bit patterns and `parameters`
/// the joint's parameters as JSON.
pub struct SavedJoint {
    pub id: String,
    pub joint_type: String,
    pub board_a_id: String,
    pub board_b_id: String,
    pub face_a: String,
    pub face_b: String,
    pub offset: [u64; 3],
    pub parameters: serde_json::Value,
}

/// A finish as saved; colour and opacity hold binary32 bit patterns.
pub struct SavedFinish {
    pub id: String,
    pub finish_type: String,
    pub name: String,
    pub color: [u32; 3],
    pub opacity: u32,
}

/// The camera as saved; all values hold binary32 bit patterns.
pub struct SavedCamera {
    pub eye: [u32; 3],
    pub target: [u32; 3],
    pub fov_y: u32,
}

/// Complete project state.
pub struct Project {
    pub format_version: u32,
    pub name: String,
    pub description: String,
    pub created_at: String,
    pub updated_at: String,
    pub unit_system: UnitSystem,
    pub boards: Vec<SavedBoard>,
    pub joints: Vec<SavedJoint>,
    pub finishes: Vec<SavedFinish>,
    pub camera: Option<SavedCamera>,
}

// ---------- Calendar ----------

/// Gregorian leap-year rule.
pub open spec fn is_leap_year(year: int) -> bool {
    (year % 4 == 0 && year % 100 != 0) || year % 400 == 0
}

/// Days in a year.
pub open spec fn year_length(year: int) -> int {
    if is_leap_year(year) {
        366
    } else {
        365
    }
}

/// Days from 1970-01-01 to the first day of `year` (for years from 1970 on).
pub open spec fn days_before_year(year: int) -> int
    decreases year - 1970,
{
    if year <= 1970 {
        0
    } else {
        days_before_year(year - 1) + year_length(year - 1)
    }
}

/// Days in month `month` (1 to 12) of `year`.
pub open spec fn month_length(year: int, month: int) -> int {
    if month == 2 {
        if is_leap_year(year) {
            29
        } else {
            28
        }
    } else if month == 4 || month == 6 || month == 9 || month == 11 {
        30
    } else {
        31
    }
}

/// Days from the first day of `year` to the first day of `month` (1 to 13).
pub open spec fn days_before_month(year: int, month: int) -> int
    decreases month,
{
    if month <= 1 {
        0
    } else {
        days_before_month(year, month - 1) + month_length(year, month - 1)
    }
}

/// `(year, month, day)` is the calendar date `days` days after 1970-01-01.
pub open spec fn is_date_of(days: int, ymd: (u64, u64, u64)) -> bool {
    let (y, m, d) = ymd;
    &&& y >= 1970
    &&& days_before_year(y as int) <= days < days_before_year(y as int) + year_length(y as int)
    &&& 1 <= m <= 12
    &&& 1 <= d <= month_length(y as int, m as int)
    &&& days == days_before_year(y as int) + days_before_month(y as int, m as int) + d - 1
}

/// Whether `year` is a leap year.
pub fn is_leap(year: u64) -> (b: bool)
    ensures
        b == is_leap_year(year as int),
{
    (year % 4 == 0 && year % 100 != 0) || year % 400 == 0
}

fn month_days(year: u64, month: u64) -> (n: u64)
    requires
        1 <= month <= 12,
    ensures
        n == month_length(year as int, month as int),
{
    if month == 2 {
        if is_leap(year) {
            29
        } else {
            28
        }
    } else if month == 4 || month == 6 || month == 9 || month == 11 {
        30
    } else {
        31
    }
}

/// The calendar date `days` days after 1970-01-01.
pub fn days_to_ymd(days: u64) -> (ymd: (u64, u64, u64))
    ensures
        is_date_of(days as int, ymd),
{
    let mut rest = days;
    let mut year: u64 = 1970;
    loop
        invariant
            year >= 1970,
            rest <= days,
            rest as int == days as int - days_before_year(year as int),
            365 * (year as int - 1970) <= (days - rest) as int,
        ensures
            year >= 1970,
            rest as int == days as int - days_before_year(year as int),
            rest < year_length(year as int),
        decreases rest,
    {
        let days_in_year: u64 = if is_leap(year) {
            366
        } else {
            365
        };
        if rest < days_in_year {
            break;
        }
        rest = rest - days_in_year;
        year = year + 1;
    }
    let mut month: u64 = 1;
    let ghost start = rest;
    while month <= 12
        invariant_except_break
            1 <= month <= 12,
            rest as int == start - days_before_month(year as int, month as int),
            start < year_length(year as int),
            rest >= 0,
        ensures
            1 <= month <= 12,
            rest < month_length(year as int, month as int),
            rest as int == start - days_before_month(year as int, month as int),
        decreases 13 - month,
    {
        let md = month_days(year, month);
        if rest < md {
            break;
        }
        if month == 12 {
            assert(days_before_month(year as int, 13) == year_length(year as int)) by {
                reveal_with_fuel(days_before_month, 13);
            }
        }
        rest = rest - md;
        month = month + 1;
    }
    (year, month, rest + 1)
}

/// Calls `std::time::SystemTime::now` and reads the whole seconds since the
/// Unix epoch (zero for a clock set before it). The value depends on the
/// clock, so nothing is claimed of it.
#[verifier::external_body]
fn unix_seconds_now() -> u64 {
    std::time::SystemTime::now().duration_since(std::time::UNIX_EPOCH).unwrap_or_default().as_secs()
}

/// ISO 8601 text `YYYY-MM-DDTHH:MM:SSZ` of a time of day and a date.
pub open spec fn iso8601_text(ymd: (u64, u64, u64), secs_of_day: int) -> Seq<char> {
    zero_padded(ymd.0 as nat, 4) + seq!['-'] + zero_padded(ymd.1 as nat, 2) + seq!['-']
        + zero_padded(ymd.2 as nat, 2) + seq!['T'] + zero_padded((secs_of_day / 3600) as nat, 2)
        + seq![':'] + zero_padded(((secs_of_day % 3600) / 60) as nat, 2) + seq![':']
        + zero_padded((secs_of_day % 60) as nat, 2) + seq!['Z']
}

/// The UTC time `secs` seconds after the Unix epoch, as ISO 8601 text.
pub fn iso8601_from_unix(secs: u64) -> (s: String)
    ensures
        exists|ymd: (u64, u64, u64)|
            #[trigger] is_date_of((secs / 86400) as int, ymd) && s@ == iso8601_text(ymd, (secs % 86400) as int),
{
    let days = secs / 86400;
    let time_of_day = secs % 86400;
    let hours = time_of_day / 3600;
    let minutes = (time_of_day % 3600) / 60;
    let seconds = time_of_day % 60;
    let (year, month, day) = days_to_ymd(days);
    let mut s = String::new();
    push_zero_padded(&mut s, year, 4);
    push_char(&mut s, '-');
    push_zero_padded(&mut s, month, 2);
    push_char(&mut s, '-');
    push_zero_padded(&mut s, day, 2);
    push_char(&mut s, 'T');
    push_zero_padded(&mut s, hours, 2);
    push_char(&mut s, ':');
    push_zero_padded(&mut s, minutes, 2);
    push_char(&mut s, ':');
    push_zero_padded(&mut s, seconds, 2);
    push_char(&mut s, 'Z');
    assert(s@ =~= iso8601_text((year, month, day), time_of_day as int));
    s
}

/// The current UTC time as ISO 8601 text.
pub fn now_iso8601() -> (s: String)
    ensures
        exists|secs: u64, ymd: (u64, u64, u64)|
            #[trigger] is_date_of((secs / 86400) as int, ymd) && s@ == iso8601_text(ymd, (secs % 86400) as int),
{
    let secs = unix_seconds_now();
    iso8601_from_unix(secs)
}

// ---------- Errors and warnings ----------

/// Why a loaded project was refused.
pub enum ProjectError {
    InvalidJson(String),
    UnsupportedVersion(u32),
    MissingRequiredField(String),
}

/// Display text of an error.
pub open spec fn error_text(e: ProjectError) -> Seq<char> {
    match e {
        ProjectError::InvalidJson(msg) => "Invalid JSON: "@ + msg@,
        ProjectError::UnsupportedVersion(v) => "Unsupported format version: "@ + decimal(v as nat)
            + " (max: "@ + decimal(FORMAT_VERSION as nat) + ")"@,
        ProjectError::MissingRequiredField(field) => "Missing required field: "@ + field@,
    }
}

impl ProjectError {
    /// The error's display text.
    pub fn to_string(&self) -> (s: String)
        ensures
            s@ == error_text(*self),
    {
        let mut s = String::new();
        match self {
            ProjectError::InvalidJson(msg) => {
                push_text(&mut s, "Invalid JSON: ");
                push_text(&mut s, msg.as_str());
            },
            ProjectError::UnsupportedVersion(v) => {
                push_text(&mut s, "Unsupported format version: ");
                push_decimal(&mut s, *v as u64);
                push_text(&mut s, " (max: ");
                push_decimal(&mut s, FORMAT_VERSION as u64);
                push_text(&mut s, ")");
            },
            ProjectError::MissingRequiredField(field) => {
                push_text(&mut s, "Missing required field: ");
                push_text(&mut s, field.as_str());
            },
        }
        assert(s@ =~= error_text(*self));
        s
    }
}

/// How serious a validation finding is.
#[derive(Clone, Copy, Debug, PartialEq, Eq, Structural)]
pub enum WarningSeverity {
    Info,
    Warning,
    Error,
}

/// A validation finding.
pub struct ProjectWarning {
    pub message: String,
    pub severity: WarningSeverity,
}

/// Some board has this id.
pub open spec fn has_board(boards: Seq<SavedBoard>, id: Seq<char>) -> bool {
    exists|i: int| 0 <= i < boards.len() && (#[trigger] boards[i]).id@ == id
}

/// Some finish has this id.
pub open spec fn has_finish(finishes: Seq<SavedFinish>, id: Seq<char>) -> bool {
    exists|i: int| 0 <= i < finishes.len() && (#[trigger] finishes[i]).id@ == id
}

/// Findings for joints whose boards do not exist: for each joint in order,
/// one for a missing first board, then one for a missing second board.
pub open spec fn joint_findings(boards: Seq<SavedBoard>, joints: Seq<SavedJoint>) -> Seq<(Seq<char>, WarningSeverity)>
    decreases joints.len(),
{
    if joints.len() == 0 {
        Seq::empty()
    } else {
        let j = joints.last();
        let a = if has_board(boards, j.board_a_id@) {
            Seq::empty()
        } else {
            seq![("Joint '"@ + j.id@ + "' references non-existent board_a '"@ + j.board_a_id@ + "'"@, WarningSeverity::Error)]
        };
        let b = if has_board(boards, j.board_b_id@) {
            Seq::empty()
        } else {
            seq![("Joint '"@ + j.id@ + "' references non-existent board_b '"@ + j.board_b_id@ + "'"@, WarningSeverity::Error)]
        };
        joint_findings(boards, joints.drop_last()) + a + b
    }
}

/// Findings for boards (of `some`, in order) whose parent does not exist among `boards`.
pub open spec fn parent_findings(boards: Seq<SavedBoard>, some: Seq<SavedBoard>) -> Seq<(Seq<char>, WarningSeverity)>
    decreases some.len(),
{
    if some.len() == 0 {
        Seq::empty()
    } else {
        let b = some.last();
        let f = match b.parent_id {
            Some(p) => if has_board(boards, p@) {
                Seq::empty()
            } else {
                seq![("Board '"@ + b.id@ + "' references non-existent parent '"@ + p@ + "'"@, WarningSeverity::Warning)]
            },
            None => Seq::empty(),
        };
        parent_findings(boards, some.drop_last()) + f
    }
}

/// Findings for boards (in order) whose finish does not exist.
pub open spec fn finish_findings(some: Seq<SavedBoard>, finishes: Seq<SavedFinish>) -> Seq<(Seq<char>, WarningSeverity)>
    decreases some.len(),
{
    if some.len() == 0 {
        Seq::empty()
    } else {
        let b = some.last();
        let f = match b.finish_id {
            Some(p) => if has_finish(finishes, p@) {
                Seq::empty()
            } else {
                seq![("Board '"@ + b.id@ + "' references non-existent finish '"@ + p@ + "'"@, WarningSeverity::Warning)]
            },
            None => Seq::empty(),
        };
        finish_findings(some.drop_last(), finishes) + f
    }
}

/// All integrity findings of a project: joints first, then parents, then finishes.
pub open spec fn project_findings(p: Project) -> Seq<(Seq<char>, WarningSeverity)> {
    joint_findings(p.boards@, p.joints@) + parent_findings(p.boards@, p.boards@) + finish_findings(p.boards@, p.finishes@)
}

/// Both boards of the joint exist.
pub open spec fn joint_resolves(boards: Seq<SavedBoard>, j: SavedJoint) -> bool {
    has_board(boards, j.board_a_id@) && has_board(boards, j.board_b_id@)
}

/// The board's parent, if it names one, exists.
pub open spec fn parent_resolves(boards: Seq<SavedBoard>, b: SavedBoard) -> bool {
    b.parent_id matches Some(q) ==> has_board(boards, q@)
}

/// The board's finish, if it names one, exists.
pub open spec fn finish_resolves(finishes: Seq<SavedFinish>, b: SavedBoard) -> bool {
    b.finish_id matches Some(f) ==> has_finish(finishes, f@)
}

/// Every reference in the project resolves: each joint's two boards,
/// each board's parent and each board's finish exist.
pub open spec fn references_resolve(p: Project) -> bool {
    &&& forall|i: int| 0 <= i < p.joints@.len() ==> joint_resolves(p.boards@, #[trigger] p.joints@[i])
    &&& forall|i: int| 0 <= i < p.boards@.len() ==> parent_resolves(p.boards@, #[trigger] p.boards@[i])
    &&& forall|i: int| 0 <= i < p.boards@.len() ==> finish_resolves(p.finishes@, #[trigger] p.boards@[i])
}

proof fn lemma_joint_findings_empty(boards: Seq<SavedBoard>, joints: Seq<SavedJoint>)
    ensures
        joint_findings(boards, joints).len() == 0 <==> forall|i: int|
            0 <= i < joints.len() ==> joint_resolves(boards, #[trigger] joints[i]),
    decreases joints.len(),
{
    if joints.len() > 0 {
        let dl = joints.drop_last();
        lemma_joint_findings_empty(boards, dl);
        if forall|i: int| 0 <= i < joints.len() ==> joint_resolves(boards, #[trigger] joints[i]) {
            assert forall|i: int| 0 <= i < dl.len() implies joint_resolves(boards, #[trigger] dl[i]) by {
                assert(dl[i] == joints[i]);
            }
            assert(joint_resolves(boards, joints[joints.len() - 1]));
        } else {
            let i = choose|i: int| 0 <= i < joints.len() && !joint_resolves(boards, #[trigger] joints[i]);
            if i < dl.len() {
                assert(dl[i] == joints[i]);
            }
        }
    }
}

proof fn lemma_parent_findings_empty(boards: Seq<SavedBoard>, some: Seq<SavedBoard>)
    ensures
        parent_findings(boards, some).len() == 0 <==> forall|i: int|
            0 <= i < some.len() ==> parent_resolves(boards, #[trigger] some[i]),
    decreases some.len(),
{
    if some.len() > 0 {
        let dl = some.drop_last();
        lemma_parent_findings_empty(boards, dl);
        if forall|i: int| 0 <= i < some.len() ==> parent_resolves(boards, #[trigger] some[i]) {
            assert forall|i: int| 0 <= i < dl.len() implies parent_resolves(boards, #[trigger] dl[i]) by {
                assert(dl[i] == some[i]);
            }
            assert(parent_resolves(boards, some[some.len() - 1]));
        } else {
            let i = choose|i: int| 0 <= i < some.len() && !parent_resolves(boards, #[trigger] some[i]);
            if i < dl.len() {
                assert(dl[i] == some[i]);
            }
        }
    }
}

proof fn lemma_finish_findings_empty(some: Seq<SavedBoard>, finishes: Seq<SavedFinish>)
    ensures
        finish_findings(some, finishes).len() == 0 <==> forall|i: int|
            0 <= i < some.len() ==> finish_resolves(finishes, #[trigger] some[i]),
    decreases some.len(),
{
    if some.len() > 0 {
        let dl = some.drop_last();
        lemma_finish_findings_empty(dl, finishes);
        if forall|i: int| 0 <= i < some.len() ==> finish_resolves(finishes, #[trigger] some[i]) {
            assert forall|i: int| 0 <= i < dl.len() implies finish_resolves(finishes, #[trigger] dl[i]) by {
                assert(dl[i] == some[i]);
            }
            assert(finish_resolves(finishes, some[some.len() - 1]));
        } else {
            let i = choose|i: int| 0 <= i < some.len() && !finish_resolves(finishes, #[trigger] some[i]);
            if i < dl.len() {
                assert(dl[i] == some[i]);
            }
        }
    }
}

/// Validation finds nothing exactly when every reference in the project
/// resolves.
pub proof fn lemma_clean_iff_resolved(p: Project)
    ensures
        project_findings(p).len() == 0 <==> references_resolve(p),
{
    lemma_joint_findings_empty(p.boards@, p.joints@);
    lemma_parent_findings_empty(p.boards@, p.boards@);
    lemma_finish_findings_empty(p.boards@, p.finishes@);
}

/// The (message, severity) pairs of a list of findings.
pub open spec fn warning_views(w: Seq<ProjectWarning>) -> Seq<(Seq<char>, WarningSeverity)> {
    w.map_values(|x: ProjectWarning| (x.message@, x.severity))
}

fn board_exists(boards: &Vec<SavedBoard>, id: &str) -> (b: bool)
    ensures
        b == has_board(boards@, id@),
{
    let mut i: usize = 0;
    while i < boards.len()
        invariant
            i <= boards@.len(),
            forall|k: int| 0 <= k < i ==> (#[trigger] boards@[k]).id@ != id@,
        decreases boards.len() - i,
    {
        if text_eq(boards[i].id.as_str(), id) {
            return true;
        }
        i = i + 1;
    }
    false
}

fn finish_exists(finishes: &Vec<SavedFinish>, id: &str) -> (b: bool)
    ensures
        b == has_finish(finishes@, id@),
{
    let mut i: usize = 0;
    while i < finishes.len()
        invariant
            i <= finishes@.len(),
            forall|k: int| 0 <= k < i ==> (#[trigger] finishes@[k]).id@ != id@,
        decreases finishes.len() - i,
    {
        if text_eq(finishes[i].id.as_str(), id) {
            return true;
        }
        i = i + 1;
    }
    false
}

/// `prefix + quote + value + quote + middle + quote + other + quote` texts of a finding.
fn finding_text(lead: &str, id: &str, middle: &str, other: &str) -> (s: String)
    ensures
        s@ == lead@ + id@ + middle@ + other@ + "'"@,
{
    let mut s = String::new();
    push_text(&mut s, lead);
    push_text(&mut s, id);
    push_text(&mut s, middle);
    push_text(&mut s, other);
    push_text(&mut s, "'");
    assert(s@ =~= lead@ + id@ + middle@ + other@ + "'"@);
    s
}

impl Project {
    /// A new empty project named `name`, stamped with the current time.
    pub fn new(name: String) -> (p: Project)
        ensures
            p.format_version == FORMAT_VERSION,
            p.name@ == name@,
            p.description@ == Seq::<char>::empty(),
            p.created_at@ == p.updated_at@,
            exists|secs: u64, ymd: (u64, u64, u64)|
                #[trigger] is_date_of((secs / 86400) as int, ymd) && p.created_at@ == iso8601_text(ymd, (secs % 86400) as int),
            p.unit_system == UnitSystem::Imperial,
            p.boards@.len() == 0,
            p.joints@.len() == 0,
            p.finishes@.len() == 0,
            p.camera is None,
    {
        let now = now_iso8601();
        let created_at = now.clone();
        Project {
            format_version: FORMAT_VERSION,
            name,
            description: String::new(),
            created_at,
            updated_at: now,
            unit_system: UnitSystem::Imperial,
            boards: Vec::new(),
            joints: Vec::new(),
            finishes: Vec::new(),
            camera: None,
        }
    }

    /// Sets `updated_at` to the current time; nothing else changes.
    pub fn touch(&mut self)
        ensures
            exists|secs: u64, ymd: (u64, u64, u64)|
                #[trigger] is_date_of((secs / 86400) as int, ymd) && final(self).updated_at@ == iso8601_text(ymd, (secs % 86400) as int),
            final(self).format_version == old(self).format_version,
            final(self).name == old(self).name,
            final(self).description == old(self).description,
            final(self).created_at == old(self).created_at,
            final(self).unit_system == old(self).unit_system,
            final(self).boards == old(self).boards,
            final(self).joints == old(self).joints,
            final(self).finishes == old(self).finishes,
            final(self).camera == old(self).camera,
    {
        self.updated_at = now_iso8601();
    }

    /// Accepts a project read from a file, or says why not: a newer file
    /// format than `FORMAT_VERSION`, else an empty name.
    pub fn check_loaded(project: Project) -> (r: Result<Project, ProjectError>)
        ensures
            project.format_version > FORMAT_VERSION ==> (r matches Err(ProjectError::UnsupportedVersion(v)) && v == project.format_version),
            project.format_version <= FORMAT_VERSION && project.name@.len() == 0 ==> (r matches Err(ProjectError::MissingRequiredField(f)) && f@ == "name"@),
            project.format_version <= FORMAT_VERSION && project.name@.len() > 0 ==> r == Ok::<Project, ProjectError>(project),
    {
        if project.format_version > FORMAT_VERSION {
            return Err(ProjectError::UnsupportedVersion(project.format_version));
        }
        if project.name.as_str().is_empty() {
            return Err(ProjectError::MissingRequiredField(String::from_str("name")));
        }
        Ok(project)
    }

    /// Integrity findings: joints that reference missing boards (errors),
    /// boards whose parent or finish is missing (warnings). See `project_findings`.
    pub fn validate(&self) -> (w: Vec<ProjectWarning>)
        ensures
            warning_views(w@) == project_findings(*self),
    {
        let mut warnings: Vec<ProjectWarning> = Vec::new();
        let mut j: usize = 0;
        while j < self.joints.len()
            invariant
                j <= self.joints@.len(),
                warning_views(warnings@) == joint_findings(self.boards@, self.joints@.take(j as int)),
            decreases self.joints.len() - j,
        {
            let joint = &self.joints[j];
            let ghost before = warnings@;
            if !board_exists(&self.boards, joint.board_a_id.as_str()) {
                let message = finding_text("Joint '", joint.id.as_str(), "' references non-existent board_a '", joint.board_a_id.as_str());
                warnings.push(ProjectWarning { message, severity: WarningSeverity::Error });
            }
            let ghost mid = warnings@;
            if !board_exists(&self.boards, joint.board_b_id.as_str()) {
                let message = finding_text("Joint '", joint.id.as_str(), "' references non-existent board_b '", joint.board_b_id.as_str());
                warnings.push(ProjectWarning { message, severity: WarningSeverity::Error });
            }
            proof {
                let t = self.joints@.take(j + 1);
                assert(t.drop_last() =~= self.joints@.take(j as int));
                assert(t.last() == self.joints@[j as int]);
                assert(warning_views(warnings@) =~= joint_findings(self.boards@, t));
            }
            j = j + 1;
        }
        assert(self.joints@.take(self.joints@.len() as int) =~= self.joints@);
        let ghost after_joints = warnings@;
        let mut i: usize = 0;
        while i < self.boards.len()
            invariant
                i <= self.boards@.len(),
                warning_views(warnings@) == joint_findings(self.boards@, self.joints@) + parent_findings(self.boards@, self.boards@.take(i as int)),
            decreases self.boards.len() - i,
        {
            let board = &self.boards[i];
            let ghost before = warnings@;
            match &board.parent_id {
                Some(parent_id) => {
                    if !board_exists(&self.boards, parent_id.as_str()) {
                        let message = finding_text("Board '", board.id.as_str(), "' references non-existent parent '", parent_id.as_str());
                        warnings.push(ProjectWarning { message, severity: WarningSeverity::Warning });
                    }
                },
                None => {},
            }
            proof {
                let t = self.boards@.take(i + 1);
                assert(t.drop_last() =~= self.boards@.take(i as int));
                assert(t.last() == self.boards@[i as int]);
                let prev = joint_findings(self.boards@, self.joints@) + parent_findings(self.boards@, self.boards@.take(i as int));
                let b = self.boards@[i as int];
                let f = match b.parent_id {
                    Some(p) => if has_board(self.boards@, p@) {
                        Seq::empty()
                    } else {
                        seq![("Board '"@ + b.id@ + "' references non-existent parent '"@ + p@ + "'"@, WarningSeverity::Warning)]
                    },
                    None => Seq::empty(),
                };
                assert(parent_findings(self.boards@, t) == parent_findings(self.boards@, self.boards@.take(i as int)) + f);
                assert(warning_views(warnings@) =~= prev + f);
                assert(prev + f =~= joint_findings(self.boards@, self.joints@) + parent_findings(self.boards@, t));
            }
            i = i + 1;
        }
        assert(self.boards@.take(self.boards@.len() as int) =~= self.boards@);
        let mut i: usize = 0;
        while i < self.boards.len()
            invariant
                i <= self.boards@.len(),
                warning_views(warnings@) == joint_findings(self.boards@, self.joints@) + parent_findings(self.boards@, self.boards@) + finish_findings(self.boards@.take(i as int), self.finishes@),
            decreases self.boards.len() - i,
        {
            let board = &self.boards[i];
            let ghost before = warnings@;
            match &board.finish_id {
                Some(finish_id) => {
                    if !finish_exists(&self.finishes, finish_id.as_str()) {
                        let message = finding_text("Board '", board.id.as_str(), "' references non-existent finish '", finish_id.as_str());
                        warnings.push(ProjectWarning { message, severity: WarningSeverity::Warning });
                    }
                },
                None => {},
            }
            proof {
                let t = self.boards@.take(i + 1);
                assert(t.drop_last() =~= self.boards@.take(i as int));
                assert(t.last() == self.boards@[i as int]);
                let prev = joint_findings(self.boards@, self.joints@) + parent_findings(self.boards@, self.boards@) + finish_findings(self.boards@.take(i as int), self.finishes@);
                let b = self.boards@[i as int];
                let f = match b.finish_id {
                    Some(p) => if has_finish(self.finishes@, p@) {
                        Seq::empty()
                    } else {
                        seq![("Board '"@ + b.id@ + "' references non-existent finish '"@ + p@ + "'"@, WarningSeverity::Warning)]
                    },
                    None => Seq::empty(),
                };
                assert(finish_findings(t, self.finishes@) == finish_findings(self.boards@.take(i as int), self.finishes@) + f);
                assert(warning_views(warnings@) =~= prev + f);
                assert(prev + f =~= joint_findings(self.boards@, self.joints@) + parent_findings(self.boards@, self.boards@) + finish_findings(t, self.finishes@));
            }
            i = i + 1;
        }
        assert(self.boards@.take(self.boards@.len() as int) =~= self.boards@);
        warnings
    }
}

} // verus!
