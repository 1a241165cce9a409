//! Handing out the numbers by which entities are told apart.

use vstd::prelude::*;

verus! {

/// Builds entities, each with a number of its own.
#[derive(Debug)]
pub struct EntityBuilder {
    eid_count: usize,
}

impl View for EntityBuilder {
    type V = nat;

    /// The number of entities built so far, which is the number of the next.
    closed spec fn view(&self) -> nat {
        self.eid_count as nat
    }
}

impl EntityBuilder {
    /// A builder that has built nothing yet.
    pub fn new() -> (builder: Self)
        ensures
            builder@ == 0,
    {
        EntityBuilder { eid_count: 0 }
    }

    /// The number of entities built so far.
    pub fn eid_count(&self) -> (count: usize)
        ensures
            count == self@,
    {
        self.eid_count
    }

    /// The number for the next entity. Each call gives the number after the
    /// one before, from zero.
    pub fn next_eid(&mut self) -> (eid: usize)
        requires
            old(self)@ < usize::MAX,
        ensures
            eid == old(self)@,
            final(self)@ == old(self)@ + 1,
    {
        let eid = self.eid_count;
        self.eid_count += 1;
        eid
    }
}

/// The settings of the game's window.
#[derive(Debug)]
pub struct WindowConf {
    pub window_title: String,
    pub high_dpi: bool,
    pub fullscreen: bool,
}

/// The window of the game: titled "Game", drawn in the full resolution of the
/// display, and not over the whole screen.
pub fn window_conf() -> (conf: WindowConf)
    ensures
        conf.window_title@ == "Game"@,
        conf.high_dpi,
        !conf.fullscreen,
{
    WindowConf { window_title: "Game".to_owned(), high_dpi: true, fullscreen: false }
}

} // verus!
