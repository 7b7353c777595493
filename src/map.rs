//! The editor row of an associative container: a field for the text of a new
//! key, an add button, and the error shown when that text is refused.

use std::collections::HashMap;
use std::hash::{BuildHasher, Hash};
use vstd::prelude::*;
use vstd::std_specs::hash::{builds_valid_hashers, obeys_key_model};

verus! {

/// What the new-key field shows, kept from frame to frame.
#[derive(Clone)]
pub struct HashMapProbeState {
    pub new_key: String,
    error: bool,
}

impl HashMapProbeState {
    /// Whether the new-key field is flagged as refused.
    pub closed spec fn shows_error(&self) -> bool {
        self.error
    }

    /// The text of the new-key field.
    pub closed spec fn text(&self) -> Seq<char> {
        self.new_key@
    }

    /// An empty field without error.
    pub fn new() -> (r: HashMapProbeState)
        ensures
            r.text().len() == 0,
            !r.shows_error(),
    {
        HashMapProbeState { new_key: String::new(), error: false }
    }

    pub fn error(&self) -> (r: bool)
        ensures
            r == self.shows_error(),
    {
        self.error
    }
}

/// The new-key field of one container while a frame is drawn.
pub struct HashMapProbe {
    pub state: HashMapProbeState,
    dirty: bool,
}

impl HashMapProbe {
    /// Whether the state differs from what was loaded.
    pub closed spec fn dirty(&self) -> bool {
        self.dirty
    }

    /// The field's state in this frame.
    pub closed spec fn current(&self) -> HashMapProbeState {
        self.state
    }

    /// Starts a frame from the state the host kept, or an empty field.
    pub fn load(stored: Option<HashMapProbeState>) -> (r: HashMapProbe)
        ensures
            !r.dirty(),
            match stored {
                Some(s) => r.current() == s,
                None => r.current().text().len() == 0 && !r.current().shows_error(),
            },
    {
        let state = match stored {
            Some(s) => s,
            None => HashMapProbeState::new(),
        };
        HashMapProbe { state, dirty: false }
    }

    /// Ends the frame: the state the host must keep, if it changed.
    pub fn store(self) -> (r: Option<HashMapProbeState>)
        ensures
            self.dirty() ==> r == Some(self.current()),
            !self.dirty() ==> r is None,
    {
        if self.dirty {
            Some(self.state)
        } else {
            None
        }
    }

    /// Reacts to the new-key field: an edit of its text clears the error.
    pub fn new_key_edited(&mut self, changed: bool)
        ensures
            final(self).current().text() == old(self).current().text(),
            changed ==> !final(self).current().shows_error() && final(self).dirty(),
            !changed ==> final(self).current().shows_error() == old(self).current().shows_error()
                && final(self).dirty() == old(self).dirty(),
    {
        if changed {
            self.dirty = true;
            self.state.error = false;
        }
    }

    /// Flags the new-key text as refused.
    pub fn key_error(&mut self)
        ensures
            final(self).current().text() == old(self).current().text(),
            final(self).current().shows_error(),
            final(self).dirty() == (old(self).dirty() || !old(self).current().shows_error()),
    {
        if self.state.error {
            return;
        }
        self.state.error = true;
        self.dirty = true;
    }

    /// Clears the new-key text after its key was inserted.
    pub fn key_accepted(&mut self)
        ensures
            final(self).current().text().len() == 0,
            final(self).current().shows_error() == old(self).current().shows_error(),
            final(self).dirty() == (old(self).dirty() || old(self).current().text().len() > 0),
    {
        if self.state.new_key.as_str().is_empty() {
            return;
        }
        self.state.new_key = String::new();
        self.dirty = true;
    }

    /// The add button was pressed with the new-key text parsed as `parsed`
    /// (`None` where it does not parse). A key that parses and is not yet in
    /// `map` is inserted with `fresh` and the field is cleared; otherwise the
    /// map is left as it is and the field is flagged as refused. This holds
    /// for keys whose `Hash` and `Eq` agree and a hasher that is deterministic.
    pub fn add_key<K: Eq + Hash, V, S: BuildHasher>(
        &mut self,
        map: &mut HashMap<K, V, S>,
        parsed: Option<K>,
        fresh: V,
    ) -> (inserted: bool)
        ensures
            obeys_key_model::<K>() && builds_valid_hashers::<S>() ==> {
                &&& inserted == (match parsed {
                    Some(k) => !old(map)@.contains_key(k),
                    None => false,
                })
                &&& inserted ==> final(map)@ == old(map)@.insert(parsed->Some_0, fresh)
                    && final(self).current().text().len() == 0
                    && final(self).current().shows_error() == old(self).current().shows_error()
                &&& !inserted ==> final(map)@ == old(map)@ && final(self).current().shows_error()
                    && final(self).current().text() == old(self).current().text()
            },
    {
        match parsed {
            Some(key) => {
                if map.contains_key(&key) {
                    self.key_error();
                    false
                } else {
                    map.insert(key, fresh);
                    self.key_accepted();
                    true
                }
            },
            None => {
                self.key_error();
                false
            },
        }
    }
}

} // verus!
