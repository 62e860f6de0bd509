//! Shared counters meant to live behind a process-wide handle. The embedding
//! constructs one instance at startup (behind a lock or a once-cell) and
//! passes it around; the state and its transitions are what is verified here.

use vstd::prelude::*;

verus! {

/// A counter guarded by the embedding's singleton machinery.
pub struct Singleton {
    data: i32,
}

impl View for Singleton {
    type V = int;

    closed spec fn view(&self) -> int {
        self.data as int
    }
}

impl Singleton {
    pub fn new() -> (s: Singleton)
        ensures
            s@ == 0,
    {
        Singleton { data: 0 }
    }

    pub fn increment(&mut self)
        requires
            old(self)@ < i32::MAX,
        ensures
            final(self)@ == old(self)@ + 1,
    {
        self.data = self.data + 1;
    }

    pub fn get_data(&self) -> (r: i32)
        ensures
            r as int == self@,
    {
        self.data
    }
}

/// Application configuration state, the once-cell flavour of the same idea.
pub struct AppConfig {
    data: i32,
}

impl View for AppConfig {
    type V = int;

    closed spec fn view(&self) -> int {
        self.data as int
    }
}

impl AppConfig {
    pub fn new() -> (c: AppConfig)
        ensures
            c@ == 0,
    {
        AppConfig { data: 0 }
    }

    pub fn increment(&mut self)
        requires
            old(self)@ < i32::MAX,
        ensures
            final(self)@ == old(self)@ + 1,
    {
        self.data = self.data + 1;
    }

    pub fn get_data(&self) -> (r: i32)
        ensures
            r as int == self@,
    {
        self.data
    }
}

} // verus!
