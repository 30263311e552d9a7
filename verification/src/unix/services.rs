//! The data crossing the init-system manager boundary: the conflict-resolution
//! policy and its wire token, the positional unit-list row with its sentinel
//! values, the decoded unit status, and the exact unit-file body persisted at
//! install time.

use vstd::prelude::*;

verus! {

/// Conflict-resolution policy passed with a start or stop request, relative
/// to other pending jobs. Each policy maps one-to-one to a fixed
/// lowercase-hyphenated wire token.
#[derive(Debug, Clone, Copy, PartialEq, Eq, Structural)]
pub enum Mode {
    Replace,
    Fail,
    Isolate,
    IgnoreDependencies,
    IgnoreRequirements,
}

impl Mode {
    /// The wire token of this policy.
    pub open spec fn spec_token(self) -> Seq<char> {
        match self {
            Mode::Replace => "replace"@,
            Mode::Fail => "fail"@,
            Mode::Isolate => "isolate"@,
            Mode::IgnoreDependencies => "ignore-dependencies"@,
            Mode::IgnoreRequirements => "ignore-requirements"@,
        }
    }

    /// Encodes the policy as its exact wire token.
    pub fn as_token(self) -> (r: &'static str)
        ensures
            r@ == self.spec_token(),
    {
        match self {
            Mode::Replace => "replace",
            Mode::Fail => "fail",
            Mode::Isolate => "isolate",
            Mode::IgnoreDependencies => "ignore-dependencies",
            Mode::IgnoreRequirements => "ignore-requirements",
        }
    }
}

/// Each policy owns its token: distinct policies encode to distinct tokens,
/// so a token decodes to at most one policy.
pub proof fn lemma_mode_tokens_distinct(m1: Mode, m2: Mode)
    requires
        m1 != m2,
    ensures
        m1.spec_token() != m2.spec_token(),
{
    reveal_strlit("replace");
    reveal_strlit("fail");
    reveal_strlit("isolate");
    reveal_strlit("ignore-dependencies");
    reveal_strlit("ignore-requirements");
    assert("replace"@.len() == 7);
    assert("fail"@.len() == 4);
    assert("isolate"@.len() == 7);
    assert("ignore-dependencies"@.len() == 19);
    assert("ignore-requirements"@.len() == 19);
    assert("replace"@[0] == 'r');
    assert("isolate"@[0] == 'i');
    assert("ignore-dependencies"@[7] == 'd');
    assert("ignore-requirements"@[7] == 'r');
}

/// One row of a unit-list reply. The field order is an external-interface
/// contract and is kept as the wire carries it: name, description, load
/// state (whose `not-found` value marks a unit unknown to the manager),
/// active state (whose `active` value marks a running unit), sub-state, the
/// followed unit, and an object-path-like field that is read back as a
/// best-effort executable path.
#[derive(Debug, Clone)]
pub struct UnitRow {
    pub name: String,
    pub description: String,
    pub load_state: String,
    pub active_state: String,
    pub sub_state: String,
    pub followed: String,
    pub object_path: String,
}

/// The mathematical image of a unit-list row.
pub ghost struct UnitRowRecord {
    pub name: Seq<char>,
    pub description: Seq<char>,
    pub load_state: Seq<char>,
    pub active_state: Seq<char>,
    pub sub_state: Seq<char>,
    pub followed: Seq<char>,
    pub object_path: Seq<char>,
}

impl UnitRow {
    /// The mathematical image of this row.
    pub open spec fn record(self) -> UnitRowRecord {
        UnitRowRecord {
            name: self.name@,
            description: self.description@,
            load_state: self.load_state@,
            active_state: self.active_state@,
            sub_state: self.sub_state@,
            followed: self.followed@,
            object_path: self.object_path@,
        }
    }
}

/// The status of a unit known to the manager. The executable path is
/// populated from an object-path-like row field and is best-effort
/// informational, not a guaranteed executable path.
#[derive(Debug, Clone)]
pub struct UnitStatus {
    pub name: String,
    pub description: String,
    pub is_active: bool,
    pub state: String,
    pub exec_path: String,
}

/// The mathematical image of a unit status.
pub ghost struct UnitStatusRecord {
    pub name: Seq<char>,
    pub description: Seq<char>,
    pub is_active: bool,
    pub state: Seq<char>,
    pub exec_path: Seq<char>,
}

impl UnitStatus {
    /// The mathematical image of this status.
    pub open spec fn record(self) -> UnitStatusRecord {
        UnitStatusRecord {
            name: self.name@,
            description: self.description@,
            is_active: self.is_active,
            state: self.state@,
            exec_path: self.exec_path@,
        }
    }
}

/// The status a unit-list row decodes to: an absent result when the load
/// state carries the `not-found` sentinel, and otherwise the positionally
/// mapped fields, with activity decided by equality of the active state to
/// `active`.
pub open spec fn spec_status_of_row(row: UnitRowRecord) -> Option<UnitStatusRecord> {
    if row.load_state == "not-found"@ {
        None
    } else {
        Some(
            UnitStatusRecord {
                name: row.name,
                description: row.description,
                is_active: row.active_state == "active"@,
                state: row.sub_state,
                exec_path: row.object_path,
            },
        )
    }
}

/// Decodes a unit-list row into the status it reports, or into an absent
/// result for a unit the manager does not know. An absent result is not an
/// error.
pub fn unit_status_from_row(row: &UnitRow) -> (r: Option<UnitStatus>)
    ensures
        r matches Some(st) ==> spec_status_of_row(row.record()) matches Some(rec) && st.record()
            == rec,
        r is None <==> spec_status_of_row(row.record()) is None,
{
    let not_found = "not-found".to_owned();
    if row.load_state == not_found {
        None
    } else {
        let active = "active".to_owned();
        Some(
            UnitStatus {
                name: row.name.clone(),
                description: row.description.clone(),
                is_active: row.active_state == active,
                state: row.sub_state.clone(),
                exec_path: row.object_path.clone(),
            },
        )
    }
}

/// The unit-file body persisted for an installed service.
pub open spec fn spec_unit_file(description: Seq<char>, exec_path: Seq<char>) -> Seq<char> {
    "[Unit]\nDescription="@ + description + "\n\n[Service]\nType=simple\nExecStart="@ + exec_path
}

/// Renders the exact unit-file body for the given description and executable
/// path.
pub fn render_unit_file(description: &str, exec_path: &str) -> (r: String)
    ensures
        r@ == spec_unit_file(description@, exec_path@),
{
    let mut r = "[Unit]\nDescription=".to_owned();
    r.append(description);
    r.append("\n\n[Service]\nType=simple\nExecStart=");
    r.append(exec_path);
    r
}

} // verus!
