//! The game log: what happened, in the order it happened.

use vstd::prelude::*;

verus! {

/// Messages for the player, oldest first. Entries are only ever added.
pub struct GameLog {
    pub entries: Vec<String>,
}

impl GameLog {
    /// The text of every entry, oldest first.
    pub open spec fn texts(&self) -> Seq<Seq<char>> {
        Seq::new(self.entries@.len(), |i: int| self.entries@[i]@)
    }

    /// A log without entries.
    pub fn new() -> (log: GameLog)
        ensures
            log.texts() == Seq::<Seq<char>>::empty(),
    {
        let log = GameLog { entries: Vec::new() };
        log
    }

    /// Adds `message` as the newest entry.
    pub fn push(&mut self, message: String)
        ensures
            final(self).texts() == old(self).texts().push(message@),
    {
        self.entries.push(message);
    }
}

} // verus!
