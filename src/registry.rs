//! The verb registry: which operation each verb name stands for.
use vstd::prelude::*;
use vstd::string::StringExecFns;
use crate::keyed::{has_key, keys_unique, lemma_push, lemma_to_map_dom, lemma_unique_at, lemma_update, to_map};

verus! {

/// The operations that a verb can stand for.
#[derive(Clone, Copy, Debug, PartialEq, Eq, Structural)]
pub enum Verb {
    /// Read named components of one object.
    Get,
    /// Find the objects that have a set of components.
    Query,
    /// Create an object with given components.
    Spawn,
    /// Create or replace components on an object.
    Insert,
    /// Delete components from an object.
    Remove,
    /// Delete an object.
    Destroy,
    /// Change the parent of objects.
    Reparent,
    /// List the component type paths of an object.
    List,
}

/// The registry: verb names, matched exactly, and the operation of each.
pub struct RemoteVerbs {
    entries: Vec<(String, Verb)>,
}

/// The name/verb pairs of a list of entries.
pub open spec fn named(entries: Seq<(String, Verb)>) -> Seq<(Seq<char>, Verb)> {
    entries.map_values(|e: (String, Verb)| (e.0@, e.1))
}

/// The built-in verbs under their conventional upper-case names.
pub open spec fn builtin_verbs() -> Map<Seq<char>, Verb> {
    Map::empty().insert("GET"@, Verb::Get).insert("QUERY"@, Verb::Query).insert(
        "SPAWN"@,
        Verb::Spawn,
    ).insert("INSERT"@, Verb::Insert).insert("REMOVE"@, Verb::Remove).insert(
        "DESTROY"@,
        Verb::Destroy,
    ).insert("REPARENT"@, Verb::Reparent).insert("LIST"@, Verb::List)
}

impl View for RemoteVerbs {
    type V = Map<Seq<char>, Verb>;

    closed spec fn view(&self) -> Map<Seq<char>, Verb> {
        to_map(named(self.entries@))
    }
}

impl RemoteVerbs {
    /// No name is registered twice.
    pub closed spec fn wf(&self) -> bool {
        keys_unique(named(self.entries@))
    }

    /// A registry with no verb in it.
    pub fn new() -> (r: RemoteVerbs)
        ensures
            r.wf(),
            r@ == Map::<Seq<char>, Verb>::empty(),
    {
        let r = RemoteVerbs { entries: Vec::new() };
        proof {
            assert(named(r.entries@) =~= Seq::<(Seq<char>, Verb)>::empty());
        }
        r
    }

    /// A registry holding the built-in verbs.
    pub fn with_builtins() -> (r: RemoteVerbs)
        ensures
            r.wf(),
            r@ == builtin_verbs(),
    {
        let mut r = RemoteVerbs::new();
        r.insert(String::from_str("GET"), Verb::Get);
        r.insert(String::from_str("QUERY"), Verb::Query);
        r.insert(String::from_str("SPAWN"), Verb::Spawn);
        r.insert(String::from_str("INSERT"), Verb::Insert);
        r.insert(String::from_str("REMOVE"), Verb::Remove);
        r.insert(String::from_str("DESTROY"), Verb::Destroy);
        r.insert(String::from_str("REPARENT"), Verb::Reparent);
        r.insert(String::from_str("LIST"), Verb::List);
        r
    }

    /// The position of the entry named `name`, if any.
    fn find(&self, name: &String) -> (r: Option<usize>)
        requires
            self.wf(),
        ensures
            match r {
                Some(i) => i < self.entries@.len() && self.entries@[i as int].0@ == name@
                    && self@.contains_key(name@) && self@[name@] == self.entries@[i as int].1,
                None => !self@.contains_key(name@),
            },
    {
        let mut i: usize = 0;
        while i < self.entries.len()
            invariant
                self.wf(),
                i <= self.entries@.len(),
                forall|j: int| 0 <= j < i ==> (#[trigger] self.entries@[j]).0@ != name@,
            decreases self.entries@.len() - i,
        {
            if self.entries[i].0 == *name {
                proof {
                    lemma_unique_at(named(self.entries@), i as int);
                }
                return Some(i);
            }
            i = i + 1;
        }
        proof {
            lemma_to_map_dom(named(self.entries@), name@);
            if has_key(named(self.entries@), name@) {
                let j = choose|j: int|
                    0 <= j < named(self.entries@).len() && #[trigger] named(self.entries@)[j].0
                        == name@;
                assert(self.entries@[j].0@ == name@);
            }
        }
        None
    }

    /// Registers `handler` under `verb_name`, replacing and returning the
    /// verb registered there before.
    pub fn insert(&mut self, verb_name: String, handler: Verb) -> (r: Option<Verb>)
        requires
            old(self).wf(),
        ensures
            final(self).wf(),
            final(self)@ == old(self)@.insert(verb_name@, handler),
            r == (if old(self)@.contains_key(verb_name@) {
                Some(old(self)@[verb_name@])
            } else {
                None
            }),
    {
        let ghost es = self.entries@;
        match self.find(&verb_name) {
            Some(i) => {
                let previous = self.entries[i].1;
                proof {
                    lemma_update(named(es), i as int, handler);
                    assert(named(es.update(i as int, (verb_name, handler))) =~= named(es).update(
                        i as int,
                        (named(es)[i as int].0, handler),
                    ));
                }
                self.entries.set(i, (verb_name, handler));
                Some(previous)
            },
            None => {
                proof {
                    lemma_to_map_dom(named(es), verb_name@);
                    lemma_push(named(es), verb_name@, handler);
                    assert(named(es.push((verb_name, handler))) =~= named(es).push(
                        (verb_name@, handler),
                    ));
                }
                self.entries.push((verb_name, handler));
                None
            },
        }
    }

    /// The verb registered under exactly `name`.
    pub fn get(&self, name: &String) -> (r: Option<Verb>)
        requires
            self.wf(),
        ensures
            r == (if self@.contains_key(name@) {
                Some(self@[name@])
            } else {
                None
            }),
    {
        match self.find(name) {
            Some(i) => Some(self.entries[i].1),
            None => None,
        }
    }
}

} // verus!
