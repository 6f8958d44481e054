//! The two values that the session and the audio engine have in common.
//!
//! Both are plain slots. Whoever shares one between tasks wraps it in a lock,
//! and takes the lock for each single read or write.

use vstd::prelude::*;

verus! {

/// The latest known weight, as a binary32 bit pattern. One slot, no queue: a
/// write replaces what was there, and a read sees the last write.
#[derive(Debug)]
pub struct SharedWeightCell {
    weight: u32,
}

impl View for SharedWeightCell {
    type V = u32;

    closed spec fn view(&self) -> u32 {
        self.weight
    }
}

impl SharedWeightCell {
    /// A cell that holds the weight zero.
    pub fn new() -> (cell: SharedWeightCell)
        ensures
            cell@ == 0,
    {
        SharedWeightCell { weight: 0 }
    }

    /// Replaces the weight.
    pub fn write(&mut self, weight: u32)
        ensures
            final(self)@ == weight,
    {
        self.weight = weight;
    }

    /// The weight last written.
    pub fn read(&self) -> (weight: u32)
        ensures
            weight == self@,
    {
        self.weight
    }
}

/// Whether the program is still to run. The flag starts up and can only go
/// down.
#[derive(Debug)]
pub struct RunningFlag {
    running: bool,
}

impl View for RunningFlag {
    type V = bool;

    closed spec fn view(&self) -> bool {
        self.running
    }
}

impl RunningFlag {
    /// A flag that is up.
    pub fn new() -> (flag: RunningFlag)
        ensures
            flag@,
    {
        RunningFlag { running: true }
    }

    /// Takes the flag down. It stays down.
    pub fn stop(&mut self)
        ensures
            !final(self)@,
    {
        self.running = false;
    }

    pub fn is_running(&self) -> (running: bool)
        ensures
            running == self@,
    {
        self.running
    }
}

} // verus!
