//! An exact in-memory init-system manager. It holds the units whose files are
//! installed under it, their autostart linkage and their activity, and
//! answers the unit-list query with the same positional row and sentinel
//! values the real manager object uses, so that installation, control and
//! query logic is verified against a precise counterpart.

use vstd::prelude::*;

use crate::error::Error;
use crate::unix::services::{
    spec_status_of_row, unit_status_from_row, Mode, UnitRow, UnitRowRecord, UnitStatus,
};

verus! {

/// The mathematical image of one unit known to the manager.
pub ghost struct UnitRecord {
    pub name: Seq<char>,
    pub description: Seq<char>,
    pub exec_path: Seq<char>,
    pub active: bool,
    pub enabled: bool,
}

/// The first position holding a unit of the given name, if any.
pub open spec fn find_unit(units: Seq<UnitRecord>, name: Seq<char>) -> Option<int>
    decreases units.len(),
{
    if units.len() == 0 {
        None
    } else if units[0].name == name {
        Some(0)
    } else {
        match find_unit(units.drop_first(), name) {
            Some(i) => Some(i + 1),
            None => None,
        }
    }
}

/// Validity: unit names are distinct.
pub open spec fn units_wf(units: Seq<UnitRecord>) -> bool {
    forall|i: int, j: int| 0 <= i < j < units.len() ==> units[i].name != units[j].name
}

/// The units with the unit at one position replaced by a copy whose activity
/// is as given.
pub open spec fn set_unit_active(units: Seq<UnitRecord>, i: int, active: bool) -> Seq<UnitRecord> {
    units.update(i, (UnitRecord { active, ..units[i] }))
}

/// The units with the unit at one position replaced by a copy whose autostart
/// linkage is as given.
pub open spec fn set_unit_enabled(units: Seq<UnitRecord>, i: int, enabled: bool) -> Seq<
    UnitRecord,
> {
    units.update(i, (UnitRecord { enabled, ..units[i] }))
}

/// The row the manager reports for one of its units: loaded, its description,
/// its activity as the `active`/`inactive` pair, its sub-state as
/// `running`/`dead`, and the executable path in the object-path-like field.
pub open spec fn row_of_unit(u: UnitRecord) -> UnitRowRecord {
    UnitRowRecord {
        name: u.name,
        description: u.description,
        load_state: "loaded"@,
        active_state: if u.active {
            "active"@
        } else {
            "inactive"@
        },
        sub_state: if u.active {
            "running"@
        } else {
            "dead"@
        },
        followed: ""@,
        object_path: u.exec_path,
    }
}

/// The row the manager reports for a name it does not know: the `not-found`
/// sentinel in the load state, every other field empty or inactive.
pub open spec fn row_of_unknown(name: Seq<char>) -> UnitRowRecord {
    UnitRowRecord {
        name,
        description: ""@,
        load_state: "not-found"@,
        active_state: "inactive"@,
        sub_state: "dead"@,
        followed: ""@,
        object_path: ""@,
    }
}

/// When no position before `i` matches and `i` does, the first match is `i`.
pub proof fn lemma_find_unit_first(units: Seq<UnitRecord>, name: Seq<char>, i: int)
    requires
        0 <= i < units.len(),
        units[i].name == name,
        forall|k: int| 0 <= k < i ==> units[k].name != name,
    ensures
        find_unit(units, name) == Some(i),
    decreases i,
{
    if units[0].name == name {
        assert(i == 0);
    } else {
        lemma_find_unit_first(units.drop_first(), name, i - 1);
    }
}

/// When no position matches, there is no first match.
pub proof fn lemma_find_unit_none(units: Seq<UnitRecord>, name: Seq<char>)
    requires
        forall|k: int| 0 <= k < units.len() ==> units[k].name != name,
    ensures
        find_unit(units, name) is None,
    decreases units.len(),
{
    if units.len() > 0 {
        lemma_find_unit_none(units.drop_first(), name);
    }
}

/// A first match is in range, matches, and nothing before it matches.
pub proof fn lemma_find_unit_is_match(units: Seq<UnitRecord>, name: Seq<char>)
    ensures
        match find_unit(units, name) {
            Some(i) => 0 <= i < units.len() && units[i].name == name && forall|k: int|
                0 <= k < i ==> units[k].name != name,
            None => forall|k: int| 0 <= k < units.len() ==> units[k].name != name,
        },
    decreases units.len(),
{
    if units.len() > 0 && units[0].name != name {
        let rest = units.drop_first();
        lemma_find_unit_is_match(rest, name);
        match find_unit(rest, name) {
            Some(i) => {
                assert(units[i + 1].name == name);
                assert forall|k: int| 0 <= k < i + 1 implies units[k].name != name by {
                    if k > 0 {
                        assert(rest[k - 1] == units[k]);
                    }
                }
            }
            None => {
                assert forall|k: int| 0 <= k < units.len() implies units[k].name != name by {
                    if k > 0 {
                        assert(rest[k - 1] == units[k]);
                    }
                }
            }
        }
    }
}

/// Installing a unit adds exactly that unit, so installing the same name a
/// second time, with no deletion in between, meets exactly the already-exists
/// condition of the installation contract: the second attempt fails and
/// changes nothing.
pub proof fn lemma_double_install_conflict(units: Seq<UnitRecord>, rec: UnitRecord)
    requires
        find_unit(units, rec.name) is None,
    ensures
        find_unit(units.push(rec), rec.name) is Some,
{
    lemma_find_unit_is_match(units, rec.name);
    assert(units.push(rec)[units.len() as int].name == rec.name);
    lemma_find_unit_first(units.push(rec), rec.name, units.len() as int);
}

/// A freshly installed, not yet started unit, queried back by its name,
/// reports exactly what was installed: present, initially inactive, with the
/// description and the executable path it was installed with.
pub proof fn lemma_install_then_query(units: Seq<UnitRecord>, rec: UnitRecord)
    requires
        find_unit(units, rec.name) is None,
        rec.active == false,
    ensures
        match find_unit(units.push(rec), rec.name) {
            Some(i) => units.push(rec)[i] == rec && match spec_status_of_row(row_of_unit(rec)) {
                Some(st) => !st.is_active && st.exec_path == rec.exec_path && st.description
                    == rec.description && st.name == rec.name,
                None => false,
            },
            None => false,
        },
{
    lemma_find_unit_is_match(units, rec.name);
    assert(units.push(rec)[units.len() as int].name == rec.name);
    lemma_find_unit_first(units.push(rec), rec.name, units.len() as int);
    reveal_strlit("loaded");
    reveal_strlit("not-found");
    reveal_strlit("active");
    reveal_strlit("inactive");
    assert("loaded"@.len() == 6);
    assert("not-found"@.len() == 9);
    assert("active"@.len() == 6);
    assert("inactive"@.len() == 8);
}

struct UnitEntry {
    name: String,
    description: String,
    exec_path: String,
    active: bool,
    enabled: bool,
}

impl UnitEntry {
    spec fn record(self) -> UnitRecord {
        UnitRecord {
            name: self.name@,
            description: self.description@,
            exec_path: self.exec_path@,
            active: self.active,
            enabled: self.enabled,
        }
    }
}

spec fn unit_records(v: Seq<UnitEntry>) -> Seq<UnitRecord> {
    v.map_values(|e: UnitEntry| e.record())
}

broadcast proof fn lemma_unit_records_push(v: Seq<UnitEntry>, e: UnitEntry)
    ensures
        #[trigger] unit_records(v.push(e)) =~= unit_records(v).push(e.record()),
{
}

broadcast proof fn lemma_unit_records_update(v: Seq<UnitEntry>, i: int, e: UnitEntry)
    requires
        0 <= i < v.len(),
    ensures
        #[trigger] unit_records(v.update(i, e)) =~= unit_records(v).update(i, e.record()),
{
}

broadcast proof fn lemma_unit_records_remove(v: Seq<UnitEntry>, i: int)
    requires
        0 <= i < v.len(),
    ensures
        #[trigger] unit_records(v.remove(i)) =~= unit_records(v).remove(i),
{
}

proof fn lemma_units_wf_push(units: Seq<UnitRecord>, rec: UnitRecord)
    requires
        units_wf(units),
        forall|k: int| 0 <= k < units.len() ==> units[k].name != rec.name,
    ensures
        units_wf(units.push(rec)),
{
    let s = units.push(rec);
    assert forall|a: int, b: int| 0 <= a < b < s.len() implies s[a].name != s[b].name by {
        if b == s.len() - 1 {
            assert(s[a] == units[a]);
        } else {
            assert(s[a] == units[a]);
            assert(s[b] == units[b]);
        }
    }
}

proof fn lemma_units_wf_update(units: Seq<UnitRecord>, i: int, rec: UnitRecord)
    requires
        units_wf(units),
        0 <= i < units.len(),
        rec.name == units[i].name,
    ensures
        units_wf(units.update(i, rec)),
{
    let s = units.update(i, rec);
    assert forall|a: int, b: int| 0 <= a < b < s.len() implies s[a].name != s[b].name by {
        assert(units[a].name != units[b].name);
    }
}

proof fn lemma_units_wf_remove(units: Seq<UnitRecord>, i: int)
    requires
        units_wf(units),
        0 <= i < units.len(),
    ensures
        units_wf(units.remove(i)),
{
    let s = units.remove(i);
    assert forall|a: int, b: int| 0 <= a < b < s.len() implies s[a].name != s[b].name by {
        let a0: int = if a < i { a } else { a + 1 };
        let b0: int = if b < i { b } else { b + 1 };
        assert(s[a] == units[a0]);
        assert(s[b] == units[b0]);
    }
}

/// The in-memory init-system manager.
pub struct UnitManager {
    units: Vec<UnitEntry>,
}

impl View for UnitManager {
    type V = Seq<UnitRecord>;

    closed spec fn view(&self) -> Seq<UnitRecord> {
        unit_records(self.units@)
    }
}

impl UnitManager {
    /// A fresh manager that knows no units.
    pub fn new() -> (r: UnitManager)
        ensures
            r@ =~= Seq::<UnitRecord>::empty(),
            units_wf(r@),
    {
        UnitManager { units: Vec::new() }
    }

    /// How many units the manager knows.
    pub fn unit_count(&self) -> (r: usize)
        ensures
            r == self@.len(),
    {
        self.units.len()
    }

    fn find_unit_entry(&self, name: &String) -> (r: Option<usize>)
        ensures
            match r {
                Some(j) => j < self@.len() && find_unit(self@, name@) == Some(j as int),
                None => find_unit(self@, name@) is None,
            },
    {
        let n = self.units.len();
        let mut j: usize = 0;
        while j < n
            invariant
                j <= n,
                n == self.units.len(),
                forall|k: int| 0 <= k < j ==> self@[k].name != name@,
            decreases n - j,
        {
            if self.units[j].name == *name {
                proof {
                    assert(self@[j as int].name == name@);
                    lemma_find_unit_first(self@, name@, j as int);
                }
                return Some(j);
            }
            proof {
                assert(self@[j as int].name != name@);
            }
            j = j + 1;
        }
        proof {
            lemma_find_unit_none(self@, name@);
        }
        None
    }

    /// Installs a unit file under the given fully qualified name. A file
    /// already present under that name is never overwritten: the attempt
    /// fails and changes nothing. A fresh unit starts inactive and without
    /// autostart linkage.
    pub fn install_unit_file(
        &mut self,
        name: &str,
        description: &str,
        exec_path: &str,
    ) -> (r: Result<(), Error>)
        requires
            units_wf(old(self)@),
        ensures
            units_wf(final(self)@),
            match find_unit(old(self)@, name@) {
                Some(_) => r == Err::<(), Error>(Error::AlreadyExists) && final(self)@ == old(
                    self,
                )@,
                None => r == Ok::<(), Error>(()) && final(self)@ =~= old(self)@.push(
                    (UnitRecord {
                        name: name@,
                        description: description@,
                        exec_path: exec_path@,
                        active: false,
                        enabled: false,
                    }),
                ),
            },
    {
        let name_owned = name.to_owned();
        match self.find_unit_entry(&name_owned) {
            Some(_) => Err(Error::AlreadyExists),
            None => {
                let entry = UnitEntry {
                    name: name_owned,
                    description: description.to_owned(),
                    exec_path: exec_path.to_owned(),
                    active: false,
                    enabled: false,
                };
                let ghost rec = entry.record();
                self.units.push(entry);
                proof {
                    broadcast use lemma_unit_records_push;

                    lemma_find_unit_is_match(old(self)@, name@);
                    lemma_units_wf_push(old(self)@, rec);
                }
                Ok(())
            }
        }
    }

    /// Links the named unit for autostart. The linkage toggles are fixed by
    /// this layer, not caller-tunable. Naming a unit the manager does not
    /// know fails.
    pub fn enable_unit_files(&mut self, name: &str) -> (r: Result<(), Error>)
        requires
            units_wf(old(self)@),
        ensures
            units_wf(final(self)@),
            match find_unit(old(self)@, name@) {
                None => r == Err::<(), Error>(Error::NotFound) && final(self)@ == old(self)@,
                Some(i) => r == Ok::<(), Error>(()) && final(self)@ =~= set_unit_enabled(
                    old(self)@,
                    i,
                    true,
                ),
            },
    {
        let name_owned = name.to_owned();
        match self.find_unit_entry(&name_owned) {
            None => Err(Error::NotFound),
            Some(i) => {
                self.units[i].enabled = true;
                proof {
                    broadcast use lemma_unit_records_update;

                    lemma_units_wf_update(old(self)@, i as int, self.units@[i as int].record());
                }
                Ok(())
            }
        }
    }

    /// Unlinks the named unit from autostart. Naming a unit the manager does
    /// not know fails.
    pub fn disable_unit_files(&mut self, name: &str) -> (r: Result<(), Error>)
        requires
            units_wf(old(self)@),
        ensures
            units_wf(final(self)@),
            match find_unit(old(self)@, name@) {
                None => r == Err::<(), Error>(Error::NotFound) && final(self)@ == old(self)@,
                Some(i) => r == Ok::<(), Error>(()) && final(self)@ =~= set_unit_enabled(
                    old(self)@,
                    i,
                    false,
                ),
            },
    {
        let name_owned = name.to_owned();
        match self.find_unit_entry(&name_owned) {
            None => Err(Error::NotFound),
            Some(i) => {
                self.units[i].enabled = false;
                proof {
                    broadcast use lemma_unit_records_update;

                    lemma_units_wf_update(old(self)@, i as int, self.units@[i as int].record());
                }
                Ok(())
            }
        }
    }

    /// Starts the named unit. The model runs no conflicting jobs, so the
    /// outcome does not depend on the conflict-resolution policy carried with
    /// the request. Naming a unit the manager does not know fails.
    pub fn start_unit(&mut self, name: &str, mode: Mode) -> (r: Result<(), Error>)
        requires
            units_wf(old(self)@),
        ensures
            units_wf(final(self)@),
            match find_unit(old(self)@, name@) {
                None => r == Err::<(), Error>(Error::NotFound) && final(self)@ == old(self)@,
                Some(i) => r == Ok::<(), Error>(()) && final(self)@ =~= set_unit_active(
                    old(self)@,
                    i,
                    true,
                ),
            },
    {
        let _ = mode;
        let name_owned = name.to_owned();
        match self.find_unit_entry(&name_owned) {
            None => Err(Error::NotFound),
            Some(i) => {
                self.units[i].active = true;
                proof {
                    broadcast use lemma_unit_records_update;

                    lemma_units_wf_update(old(self)@, i as int, self.units@[i as int].record());
                }
                Ok(())
            }
        }
    }

    /// Stops the named unit. The model runs no conflicting jobs, so the
    /// outcome does not depend on the conflict-resolution policy carried with
    /// the request. Naming a unit the manager does not know fails.
    pub fn stop_unit(&mut self, name: &str, mode: Mode) -> (r: Result<(), Error>)
        requires
            units_wf(old(self)@),
        ensures
            units_wf(final(self)@),
            match find_unit(old(self)@, name@) {
                None => r == Err::<(), Error>(Error::NotFound) && final(self)@ == old(self)@,
                Some(i) => r == Ok::<(), Error>(()) && final(self)@ =~= set_unit_active(
                    old(self)@,
                    i,
                    false,
                ),
            },
    {
        let _ = mode;
        let name_owned = name.to_owned();
        match self.find_unit_entry(&name_owned) {
            None => Err(Error::NotFound),
            Some(i) => {
                self.units[i].active = false;
                proof {
                    broadcast use lemma_unit_records_update;

                    lemma_units_wf_update(old(self)@, i as int, self.units@[i as int].record());
                }
                Ok(())
            }
        }
    }

    /// Removes the named unit's file, and with it the manager's knowledge of
    /// the unit. Naming a unit the manager does not know fails.
    pub fn delete_unit(&mut self, name: &str) -> (r: Result<(), Error>)
        requires
            units_wf(old(self)@),
        ensures
            units_wf(final(self)@),
            match find_unit(old(self)@, name@) {
                None => r == Err::<(), Error>(Error::NotFound) && final(self)@ == old(self)@,
                Some(i) => r == Ok::<(), Error>(()) && final(self)@ =~= old(self)@.remove(i),
            },
    {
        let name_owned = name.to_owned();
        match self.find_unit_entry(&name_owned) {
            None => Err(Error::NotFound),
            Some(i) => {
                let _removed = self.units.remove(i);
                proof {
                    broadcast use lemma_unit_records_remove;

                    lemma_units_wf_remove(old(self)@, i as int);
                }
                Ok(())
            }
        }
    }

    /// Whether the named unit is linked for autostart, or nothing for a name
    /// the manager does not know.
    pub fn unit_enabled(&self, name: &str) -> (r: Option<bool>)
        ensures
            match find_unit(self@, name@) {
                Some(i) => r == Some(self@[i].enabled),
                None => r is None,
            },
    {
        let name_owned = name.to_owned();
        match self.find_unit_entry(&name_owned) {
            Some(i) => Some(self.units[i].enabled),
            None => None,
        }
    }

    /// The unit-list row for the given name: the unit's own row when the
    /// manager knows it, and the `not-found` row when it does not.
    pub fn list_unit_by_name(&self, name: &str) -> (r: UnitRow)
        ensures
            match find_unit(self@, name@) {
                Some(i) => r.record() == row_of_unit(self@[i]),
                None => r.record() == row_of_unknown(name@),
            },
    {
        let name_owned = name.to_owned();
        match self.find_unit_entry(&name_owned) {
            Some(i) => UnitRow {
                name: self.units[i].name.clone(),
                description: self.units[i].description.clone(),
                load_state: "loaded".to_owned(),
                active_state: if self.units[i].active {
                    "active".to_owned()
                } else {
                    "inactive".to_owned()
                },
                sub_state: if self.units[i].active {
                    "running".to_owned()
                } else {
                    "dead".to_owned()
                },
                followed: "".to_owned(),
                object_path: self.units[i].exec_path.clone(),
            },
            None => UnitRow {
                name: name_owned,
                description: "".to_owned(),
                load_state: "not-found".to_owned(),
                active_state: "inactive".to_owned(),
                sub_state: "dead".to_owned(),
                followed: "".to_owned(),
                object_path: "".to_owned(),
            },
        }
    }

    /// The decoded status of the named unit: an absent result for a name the
    /// manager does not know, never an error for that reason; otherwise the
    /// unit's name, description, activity, sub-state and best-effort
    /// executable path.
    pub fn get_unit_status(&self, name: &str) -> (r: Result<Option<UnitStatus>, Error>)
        ensures
            match find_unit(self@, name@) {
                None => r matches Ok(o) && o is None,
                Some(i) => r matches Ok(o) && o matches Some(st) && spec_status_of_row(
                    row_of_unit(self@[i]),
                ) matches Some(rec) && st.record() == rec,
            },
    {
        let row = self.list_unit_by_name(name);
        proof {
            lemma_find_unit_is_match(self@, name@);
            reveal_strlit("loaded");
            reveal_strlit("not-found");
            assert("loaded"@.len() == 6);
            assert("not-found"@.len() == 9);
            match find_unit(self@, name@) {
                Some(i) => {
                    assert(row.record().load_state != "not-found"@);
                }
                None => {
                    assert(row.record().load_state == "not-found"@);
                }
            }
        }
        Ok(unit_status_from_row(&row))
    }
}

} // verus!
