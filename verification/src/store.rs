//! Where the records of past sessions are kept, and which files hold them.

use vstd::prelude::*;
use vstd::string::StringExecFns;
use vstd::string::StringSliceAdditionalSpecFns;
use crate::records::SessionRecord;
use crate::text::{has_prefix, starts_with};

verus! {

/// What the name of a file of records begins with.
pub open spec fn session_prefix() -> Seq<u8> {
    "session_".spec_bytes()
}

/// What the name of a file of records ends with.
pub open spec fn session_suffix() -> Seq<u8> {
    ".json".spec_bytes()
}

/// `s` ends with `suffix`.
pub open spec fn has_suffix(s: Seq<u8>, suffix: Seq<u8>) -> bool {
    suffix.len() <= s.len() && s.skip(s.len() - suffix.len()) == suffix
}

/// Whether `s` ends with `suffix`.
pub fn ends_with(s: &[u8], suffix: &[u8]) -> (r: bool)
    ensures
        r == has_suffix(s@, suffix@),
{
    if suffix.len() > s.len() {
        return false;
    }
    let len = s.len();
    let start = len - suffix.len();
    let mut i: usize = 0;
    while i < suffix.len()
        invariant
            i <= suffix@.len() <= s@.len(),
            len == s@.len(),
            start == s@.len() - suffix@.len(),
            forall|j: int| 0 <= j < i ==> s@[start + j] == suffix@[j],
        decreases suffix@.len() - i,
    {
        if s[start + i] != suffix[i] {
            assert(s@.skip(start as int)[i as int] == s@[start + i]);
            return false;
        }
        i += 1;
    }
    assert(s@.skip(start as int) =~= suffix@);
    true
}

/// Whether a file of this name holds records of sessions: its name begins
/// with `session_` and ends with `.json`.
pub fn is_session_file(name: &str) -> (r: bool)
    ensures
        r == (has_prefix(name.spec_bytes(), session_prefix()) && has_suffix(
            name.spec_bytes(),
            session_suffix(),
        )),
{
    let bytes = name.as_bytes();
    starts_with(bytes, "session_".as_bytes()) && ends_with(bytes, ".json".as_bytes())
}

/// The name of the file that holds the records of one day.
pub fn session_file_name(date: &str) -> (r: String)
    ensures
        r@ == "session_"@ + date@ + ".json"@,
{
    String::from_str("session_").concat(date).concat(".json")
}

/// All records of some files, in the order of the files: what one file
/// holds is added behind what the files before it held.
pub fn load_sessions(files: Vec<Vec<SessionRecord>>) -> (r: Vec<SessionRecord>)
    ensures
        r@ == files@.map_values(|f: Vec<SessionRecord>| f@).flatten(),
{
    let mut all: Vec<SessionRecord> = Vec::new();
    let mut rest = files;
    let ghost views = files@.map_values(|f: Vec<SessionRecord>| f@);
    let mut i: usize = 0;
    let count = rest.len();
    proof {
        assert(views.take(0) =~= Seq::<Seq<SessionRecord>>::empty());
        assert(views.take(0).flatten() =~= Seq::<SessionRecord>::empty());
    }
    while i < count
        invariant
            i <= count,
            count == files@.len(),
            views == files@.map_values(|f: Vec<SessionRecord>| f@),
            rest@ == files@.skip(i as int),
            all@ == views.take(i as int).flatten(),
        decreases count - i,
    {
        let mut records = rest.remove(0);
        assert(records == files@[i as int]);
        assert(rest@ =~= files@.skip(i + 1));
        proof {
            let before = views.take(i as int);
            let next = views.take(i + 1);
            assert(next =~= before.push(records@));
            before.lemma_flatten_push(records@);
        }
        all.append(&mut records);
        i += 1;
    }
    assert(views.take(i as int) =~= views);
    all
}

} // verus!
