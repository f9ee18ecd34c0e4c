//! Batched reads of the device's text console.
//!
//! The device pushes console text line by line on a long-lived stream. The
//! host's pump feeds arriving lines in with [`Console::deliver_line`]; the
//! caller reads them in bounded batches with [`Console::get_lines`]. Lines
//! queue up from the moment the console is created, so the first read also
//! returns everything that arrived before it.

use vstd::prelude::*;

use crate::drain::spec_min;
use crate::drain::StreamHandle;

verus! {

/// Default batch limit for one read call, matching the reference batch
/// policy of up to 100 items per read.
pub const DEFAULT_BATCH_LIMIT: usize = 100;

/// The console's line stream and its read-out state.
pub struct Console {
    lines: StreamHandle<String>,
}

impl Console {
    /// Lines that arrived and were not yet read.
    pub closed spec fn queued(self) -> Seq<String> {
        self.lines.queued()
    }

    /// Lines already returned to the caller, in order.
    pub closed spec fn delivered(self) -> Seq<String> {
        self.lines.delivered()
    }

    /// Every line the console has emitted, in emission order.
    pub open spec fn emitted(self) -> Seq<String> {
        self.delivered() + self.queued()
    }

    /// A console with no lines yet.
    pub fn new() -> (r: Self)
        ensures
            r.queued() == Seq::<String>::empty(),
            r.delivered() == Seq::<String>::empty(),
    {
        Console { lines: StreamHandle::new() }
    }

    /// Pump side: one console line arrived from the device.
    pub fn deliver_line(&mut self, line: String)
        ensures
            final(self).queued() == old(self).queued().push(line),
            final(self).delivered() == old(self).delivered(),
    {
        self.lines.push(line);
    }

    /// Read the buffered console lines: the oldest queued lines, at most
    /// [`DEFAULT_BATCH_LIMIT`] of them, in arrival order.
    pub fn get_lines(&mut self) -> (batch: Vec<String>)
        ensures
            batch@ == old(self).queued().take(
                spec_min(DEFAULT_BATCH_LIMIT as int, old(self).queued().len() as int),
            ),
            final(self).queued() == old(self).queued().skip(
                spec_min(DEFAULT_BATCH_LIMIT as int, old(self).queued().len() as int),
            ),
            final(self).delivered() == old(self).delivered() + batch@,
            final(self).emitted() == old(self).emitted(),
    {
        self.lines.drain(DEFAULT_BATCH_LIMIT)
    }
}

} // verus!
