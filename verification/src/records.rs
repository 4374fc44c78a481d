//! The records of past sessions and the devices shown for them.

use vstd::prelude::*;
use vstd::string::StringExecFns;
use crate::strings::str_eq;

verus! {

/// One host that was connected with, as it is kept between runs.
#[derive(Debug, Clone, PartialEq, Eq)]
pub struct SessionRecord {
    pub name: String,
    pub ip: String,
    pub last_transfer: String,
    pub last_connection: String,
}

/// The last transfer with a device.
#[derive(Debug, Clone, PartialEq, Eq)]
pub struct Transfer {
    pub status: String,
    pub size: String,
    pub name: String,
}

/// The connections with a device.
#[derive(Debug, Clone, PartialEq, Eq)]
pub struct Connection {
    pub total: String,
    pub format_date: String,
}

/// One file in the table of transfers.
#[derive(Debug, Clone, PartialEq, Eq)]
pub struct Data {
    pub name: String,
    pub status: String,
    pub destination: String,
    pub time: String,
}

/// One entry of the log of activity.
#[derive(Debug, Clone, PartialEq, Eq)]
pub struct Activity {
    pub name: String,
    pub status: String,
    pub destination: String,
    pub time: String,
}

/// One device in the table of sessions.
#[derive(Debug, Clone, PartialEq, Eq)]
pub struct Device {
    pub name: String,
    pub ip: String,
    pub last_transfer: Transfer,
    pub last_connection: Connection,
    pub files: Option<Vec<Data>>,
}

/// The place of the first record of the host called `name`; the number of
/// records where there is none.
pub open spec fn first_named(records: Seq<SessionRecord>, name: Seq<char>) -> int
    decreases records.len(),
{
    if records.len() == 0 {
        0
    } else if records[0].name@ == name {
        0
    } else {
        1 + first_named(records.skip(1), name)
    }
}

/// Whether `after` is `before` with the address and the time of connection
/// taken from `new_record`, and the rest kept.
pub open spec fn refreshed(
    before: SessionRecord,
    after: SessionRecord,
    new_record: SessionRecord,
) -> bool {
    &&& after.name == before.name
    &&& after.last_transfer == before.last_transfer
    &&& after.ip == new_record.ip
    &&& after.last_connection == new_record.last_connection
}

/// Where `first_named` points, the name is found, and nowhere before.
pub proof fn lemma_first_named(records: Seq<SessionRecord>, name: Seq<char>)
    ensures
        0 <= first_named(records, name) <= records.len(),
        first_named(records, name) < records.len() ==> records[first_named(records, name)].name@
            == name,
        forall|i: int| 0 <= i < first_named(records, name) ==> (#[trigger] records[i]).name@ != name,
    decreases records.len(),
{
    if records.len() > 0 && records[0].name@ != name {
        let rest = records.skip(1);
        lemma_first_named(rest, name);
        assert forall|i: int| 0 <= i < first_named(records, name) implies (
        #[trigger] records[i]).name@ != name by {
            if i > 0 {
                assert(records[i] == rest[i - 1]);
            }
        }
        if first_named(records, name) < records.len() {
            assert(records[first_named(records, name)] == rest[first_named(rest, name)]);
        }
    }
}

/// Records a connection: the first record of the host gets the new address
/// and time of connection; a host without a record gets the new record,
/// behind all others.
pub fn update_session_record(sessions: &mut Vec<SessionRecord>, new_record: SessionRecord)
    ensures
        ({
            let at = first_named(old(sessions)@, new_record.name@);
            if at < old(sessions)@.len() {
                &&& final(sessions)@.len() == old(sessions)@.len()
                &&& refreshed(old(sessions)@[at], final(sessions)@[at], new_record)
                &&& forall|i: int|
                    0 <= i < old(sessions)@.len() && i != at ==> #[trigger] final(sessions)@[i]
                        == old(sessions)@[i]
            } else {
                final(sessions)@ == old(sessions)@.push(new_record)
            }
        }),
{
    let mut i: usize = 0;
    assert(sessions@.skip(0) =~= sessions@);
    while i < sessions.len()
        invariant
            i <= sessions@.len(),
            sessions@ == old(sessions)@,
            first_named(sessions@, new_record.name@) == i + first_named(
                sessions@.skip(i as int),
                new_record.name@,
            ),
        decreases sessions@.len() - i,
    {
        let ghost rest = sessions@.skip(i as int);
        assert(rest[0] == sessions@[i as int]);
        if str_eq(sessions[i].name.as_str(), new_record.name.as_str()) {
            let updated = SessionRecord {
                name: sessions[i].name.clone(),
                ip: new_record.ip,
                last_transfer: sessions[i].last_transfer.clone(),
                last_connection: new_record.last_connection,
            };
            sessions.set(i, updated);
            return ;
        }
        assert(rest.skip(1) =~= sessions@.skip(i + 1));
        i += 1;
    }
    sessions.push(new_record);
}

impl Device {
    /// A device of which nothing is known.
    pub fn new_empty() -> (r: Self)
        ensures
            r.files is None,
            r.name@.len() == 0,
            r.ip@.len() == 0,
            r.last_transfer.status@.len() == 0,
            r.last_transfer.size@.len() == 0,
            r.last_transfer.name@.len() == 0,
            r.last_connection.total@.len() == 0,
            r.last_connection.format_date@.len() == 0,
    {
        Self {
            files: None,
            name: String::new(),
            ip: String::new(),
            last_transfer: Transfer {
                status: String::new(),
                size: String::new(),
                name: String::new(),
            },
            last_connection: Connection { total: String::new(), format_date: String::new() },
        }
    }

    /// The device that stands for a record of a past session.
    pub fn from_record(record: SessionRecord) -> (r: Self)
        ensures
            r.name == record.name,
            r.ip == record.ip,
            r.last_transfer.status == record.last_transfer,
            r.last_transfer.size@ == "N/A"@,
            r.last_transfer.name@ == "N/A"@,
            r.last_connection.total == record.last_connection,
            r.last_connection.format_date == record.last_connection,
            r.files is None,
    {
        let total = record.last_connection.clone();
        Self {
            name: record.name,
            ip: record.ip,
            last_transfer: Transfer {
                status: record.last_transfer,
                size: String::from_str("N/A"),
                name: String::from_str("N/A"),
            },
            last_connection: Connection { total, format_date: record.last_connection },
            files: None,
        }
    }
}

} // verus!
