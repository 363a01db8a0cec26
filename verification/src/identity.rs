//! The identity resolver: which speaker a stream identifier belongs to, as
//! the voice gateway last announced it.

use crate::decimal::{decimal, to_decimal};
use std::collections::HashMap;
use vstd::prelude::*;
use vstd::std_specs::hash::*;

verus! {

/// The name under which a stream is reported: its speaker where one is
/// bound, the identifier in decimal where none is.
pub open spec fn label_of(speakers: Map<u32, Seq<char>>, ssrc: u32) -> Seq<char> {
    if speakers.contains_key(ssrc) {
        speakers[ssrc]
    } else {
        decimal(ssrc as nat)
    }
}

/// The speakers of one voice connection, keyed by stream identifier.
pub struct IdentityResolver {
    speakers: HashMap<u32, String>,
}

impl View for IdentityResolver {
    type V = Map<u32, Seq<char>>;

    closed spec fn view(&self) -> Map<u32, Seq<char>> {
        self.speakers@.map_values(|s: String| s@)
    }
}

impl IdentityResolver {
    /// A resolver that knows no speaker.
    pub fn new() -> (resolver: IdentityResolver)
        ensures
            resolver@ == Map::<u32, Seq<char>>::empty(),
    {
        let resolver = IdentityResolver { speakers: HashMap::new() };
        assert(resolver@ =~= Map::<u32, Seq<char>>::empty());
        resolver
    }

    /// Records `speaker` for `ssrc`, in place of whoever was bound before.
    pub fn bind(&mut self, ssrc: u32, speaker: String)
        ensures
            final(self)@ == old(self)@.insert(ssrc, speaker@),
    {
        broadcast use group_hash_axioms;

        self.speakers.insert(ssrc, speaker);
        assert(self@ =~= old(self)@.insert(ssrc, speaker@));
    }

    /// The speaker bound to `ssrc`, if any.
    pub fn lookup(&self, ssrc: u32) -> (speaker: Option<String>)
        ensures
            match speaker {
                Some(name) => self@.contains_key(ssrc) && name@ == self@[ssrc],
                None => !self@.contains_key(ssrc),
            },
    {
        broadcast use group_hash_axioms;

        match self.speakers.get(&ssrc) {
            Some(name) => Some(name.clone()),
            None => None,
        }
    }

    /// The name under which `ssrc` is reported.
    pub fn label(&self, ssrc: u32) -> (name: String)
        ensures
            name@ == label_of(self@, ssrc),
    {
        match self.lookup(ssrc) {
            Some(name) => name,
            None => to_decimal(ssrc),
        }
    }
}

} // verus!
