//! The configuration that is kept between runs.

use vstd::prelude::*;
use vstd::string::StringExecFns;
use crate::assoc::{
    distinct_keys, get, lemma_put_keeps_distinct, lookup, pairs, put, upsert, Entry,
};

verus! {

/// The application's configuration.
#[derive(Debug, PartialEq, Eq)]
pub struct App {
    pub name: String,
    pub version: String,
    pub key: String,
    pub secret: String,
    pub client_id: String,
    pub summary: Files,
}

/// Texts under their names.
#[derive(Debug, PartialEq, Eq)]
pub struct Files {
    pub data: Vec<Entry<String>>,
}

/// What a store of texts under names offers.
pub trait NewTrait: Sized {
    /// The texts under their names.
    spec fn entries(&self) -> Seq<(Seq<char>, String)>;

    /// An empty store.
    fn new() -> (r: Self)
        ensures
            r.entries().len() == 0,
            distinct_keys(r.entries()),
    ;

    /// Puts a text under a name, in place of the one that was there.
    fn insert(&mut self, key: String, value: String)
        ensures
            final(self).entries() == put(old(self).entries(), key@, value),
            distinct_keys(old(self).entries()) ==> distinct_keys(final(self).entries()),
    ;

    /// The text under a name, if there is one.
    fn get(&self, key: &str) -> (r: Option<&String>)
        ensures
            match r {
                Some(value) => get(self.entries(), key@) == Some(*value),
                None => get(self.entries(), key@) is None,
            },
    ;
}

impl NewTrait for Files {
    open spec fn entries(&self) -> Seq<(Seq<char>, String)> {
        pairs(self.data@)
    }

    fn new() -> (r: Self) {
        Files { data: Vec::new() }
    }

    fn insert(&mut self, key: String, value: String) {
        proof {
            if distinct_keys(pairs(self.data@)) {
                lemma_put_keeps_distinct(pairs(self.data@), key@, value);
            }
        }
        upsert(&mut self.data, key, value);
    }

    fn get(&self, key: &str) -> (r: Option<&String>) {
        lookup(&self.data, key)
    }
}

impl App {
    /// The configuration of a fresh installation, for the given API key,
    /// secret and client identifier.
    pub fn fresh(key: String, secret: String, client_id: String) -> (r: Self)
        ensures
            r.name@ == "Zync"@,
            r.version@ == "1.0.0"@,
            r.key == key,
            r.secret == secret,
            r.client_id == client_id,
            r.summary.data@.len() == 0,
    {
        App {
            name: String::from_str("Zync"),
            version: String::from_str("1.0.0"),
            key,
            secret,
            client_id,
            summary: Files { data: Vec::new() },
        }
    }
}

} // verus!
