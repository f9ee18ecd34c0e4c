//! The remote log-block state machine.
//!
//! A log block is a single-owner, single-use remote resource: the device
//! allocates it, the caller configures it with variables, starts it to get a
//! periodic sample stream, and must make sure the device-side allocation is
//! released exactly once, whatever path the handle takes. Identifiers come
//! from a monotone counter and are never reused within one connection, so
//! the pool (one byte of identifiers, and a smaller device-side ceiling of
//! live blocks) is a resource to protect.
//!
//! Ownership transfer is explicit and type-level: a [`LogBlock`] is the
//! *configuring* state and is consumed by [`LogBlock::start`], which returns
//! the *streaming* state [`LogStream`]; [`LogStream::stop`] consumes the
//! stream and gives the configuring handle back, same identifier, ready to
//! be started again with another period. At most one of the two handles
//! exists at any time, and a handle that is dropped without an explicit stop
//! goes through [`LogBlock::release`]/[`LogStream::release`], which records
//! the remote deallocation idempotently -- exactly once per identifier.
//!
//! [`Log`] models the connection's log subsystem as the caller sees it: the
//! device's table of contents, the identifier counter, the link state, and
//! the control messages sent to the device. The host forwards each recorded
//! message over the real link; every decision -- which requests are valid,
//! which error they fail with, what state survives a failure -- is made and
//! verified here.

use vstd::prelude::*;

use crate::drain::StreamHandle;
use crate::error::Error;

verus! {

/// One variable of the device's log table of contents: its full
/// `group.name` and the width in bytes of one sample of it.
pub struct LogVariable {
    /// The variable's full name.
    pub name: String,
    /// How many bytes one sample of the variable occupies.
    pub width: u8,
}

/// The device-side budget, in bytes, for the sample payload of one block.
pub const MAX_BLOCK_PAYLOAD: u8 = 26;

/// Bytes of a sample packet that the timestamp occupies, before the
/// variables' values.
pub const SAMPLE_HEADER_BYTES: u8 = 3;

/// The identifier value that is never handed out: once the counter reaches
/// it, the connection has used up its identifier pool.
pub const BLOCK_ID_LIMIT: u8 = 255;

/// Total sample width, in bytes, of a list of variables.
pub open spec fn total_width(vars: Seq<LogVariable>) -> int
    decreases vars.len(),
{
    if vars.len() == 0 {
        0
    } else {
        total_width(vars.drop_last()) + vars.last().width
    }
}

/// First variable of the table of contents carrying `name`, if any.
pub open spec fn toc_lookup(toc: Seq<LogVariable>, name: Seq<char>) -> Option<LogVariable>
    decreases toc.len(),
{
    if toc.len() == 0 {
        None
    } else if toc[0].name@ == name {
        Some(toc[0])
    } else {
        toc_lookup(toc.skip(1), name)
    }
}

/// A sampling period is representable on the wire when it is a whole number
/// of 10 ms units between 1 and 255 -- periods from 10 ms up to the largest
/// multiple the one-byte unit count can carry.
pub open spec fn period_valid(period_ms: u64) -> bool {
    1 <= period_ms / 10 <= 255
}

/// The wire encoding of a valid period: its number of 10 ms units.
pub open spec fn period_units(period_ms: u64) -> u8 {
    (period_ms / 10) as u8
}

/// The deactivation record after releasing `id`: recorded once, never
/// twice.
pub open spec fn deletes_after_release(deletes: Seq<u8>, id: u8) -> Seq<u8> {
    if deletes.contains(id) {
        deletes
    } else {
        deletes.push(id)
    }
}

/// How often `x` occurs in `s`.
pub open spec fn count_of(s: Seq<u8>, x: u8) -> int
    decreases s.len(),
{
    if s.len() == 0 {
        0int
    } else {
        count_of(s.drop_last(), x) + if s.last() == x {
            1int
        } else {
            0int
        }
    }
}

proof fn lemma_total_width_take_succ(vars: Seq<LogVariable>, i: int)
    requires
        0 <= i < vars.len(),
    ensures
        total_width(vars.take(i + 1)) == total_width(vars.take(i)) + vars[i].width,
{
    assert(vars.take(i + 1).drop_last() =~= vars.take(i));
    assert(vars.take(i + 1).last() == vars[i]);
}

proof fn lemma_total_width_take_le(vars: Seq<LogVariable>, i: int)
    requires
        0 <= i <= vars.len(),
    ensures
        total_width(vars.take(i)) <= total_width(vars),
        total_width(vars.take(i)) >= 0,
    decreases vars.len() - i,
{
    if i == vars.len() {
        assert(vars.take(i) =~= vars);
        lemma_total_width_nonneg(vars);
    } else {
        lemma_total_width_take_succ(vars, i);
        lemma_total_width_take_le(vars, i + 1);
        if i == 0 {
            assert(vars.take(0) =~= Seq::<LogVariable>::empty());
        }
        lemma_total_width_nonneg(vars.take(i));
    }
}

proof fn lemma_total_width_nonneg(vars: Seq<LogVariable>)
    ensures
        total_width(vars) >= 0,
    decreases vars.len(),
{
    if vars.len() > 0 {
        lemma_total_width_nonneg(vars.drop_last());
    }
}

proof fn lemma_toc_lookup_found(toc: Seq<LogVariable>, name: Seq<char>, i: int)
    requires
        0 <= i < toc.len(),
        toc[i].name@ == name,
        forall|j: int| 0 <= j < i ==> toc[j].name@ != name,
    ensures
        toc_lookup(toc, name) == Some(toc[i]),
    decreases i,
{
    if i > 0 {
        assert forall|j: int| 0 <= j < i - 1 implies toc.skip(1)[j].name@ != name by {
            assert(toc.skip(1)[j] == toc[j + 1]);
        }
        assert(toc.skip(1)[i - 1] == toc[i]);
        lemma_toc_lookup_found(toc.skip(1), name, i - 1);
    }
}

proof fn lemma_toc_lookup_absent(toc: Seq<LogVariable>, name: Seq<char>)
    requires
        forall|j: int| 0 <= j < toc.len() ==> toc[j].name@ != name,
    ensures
        toc_lookup(toc, name) is None,
    decreases toc.len(),
{
    if toc.len() > 0 {
        assert forall|j: int| 0 <= j < toc.len() - 1 implies toc.skip(1)[j].name@ != name by {
            assert(toc.skip(1)[j] == toc[j + 1]);
        }
        lemma_toc_lookup_absent(toc.skip(1), name);
    }
}

/// The connection's log subsystem: the downloaded table of contents, the
/// identifier counter, the link state, and the control messages handed to
/// the host for the device.
pub struct Log {
    toc: Vec<LogVariable>,
    next_id: u8,
    connected: bool,
    delete_msgs: Vec<u8>,
    stop_msgs: Ghost<Seq<u8>>,
    start_msgs: Ghost<Seq<(u8, u8)>>,
    config_msgs: Ghost<Seq<u8>>,
}

impl Log {
    /// The device's table of contents.
    pub closed spec fn toc(self) -> Seq<LogVariable> {
        self.toc@
    }

    /// The identifier the next created block will get.
    pub closed spec fn next_block_id(self) -> u8 {
        self.next_id
    }

    /// Whether the link to the device is still up.
    pub closed spec fn is_connected(self) -> bool {
        self.connected
    }

    /// Every block-deletion message recorded so far, in order.
    pub closed spec fn deletes(self) -> Seq<u8> {
        self.delete_msgs@
    }

    /// Every deactivate message recorded so far, in order.
    pub closed spec fn stops(self) -> Seq<u8> {
        self.stop_msgs@
    }

    /// Every activate message recorded so far: block identifier and period
    /// units, in order.
    pub closed spec fn starts(self) -> Seq<(u8, u8)> {
        self.start_msgs@
    }

    /// Every add-variable configuration message recorded so far, by block
    /// identifier, in order.
    pub closed spec fn configs(self) -> Seq<u8> {
        self.config_msgs@
    }

    /// A log subsystem over a freshly downloaded table of contents, with a
    /// live link and no blocks created yet.
    pub fn new(toc: Vec<LogVariable>) -> (r: Self)
        ensures
            r.toc() == toc@,
            r.next_block_id() == 0,
            r.is_connected(),
            r.deletes() == Seq::<u8>::empty(),
            r.stops() == Seq::<u8>::empty(),
            r.starts() == Seq::<(u8, u8)>::empty(),
            r.configs() == Seq::<u8>::empty(),
    {
        Log {
            toc,
            next_id: 0,
            connected: true,
            delete_msgs: Vec::new(),
            stop_msgs: Ghost(Seq::empty()),
            start_msgs: Ghost(Seq::empty()),
            config_msgs: Ghost(Seq::empty()),
        }
    }

    /// The names of all log variables, in table-of-contents order.
    pub fn names(&self) -> (r: Vec<String>)
        ensures
            r@.len() == self.toc().len(),
            forall|i: int| 0 <= i < r@.len() ==> r@[i]@ == self.toc()[i].name@,
    {
        let mut names: Vec<String> = Vec::new();
        let mut i: usize = 0;
        while i < self.toc.len()
            invariant
                0 <= i <= self.toc@.len(),
                names@.len() == i,
                forall|j: int| 0 <= j < i ==> names@[j]@ == self.toc@[j].name@,
            decreases self.toc@.len() - i,
        {
            names.push(self.toc[i].name.clone());
            i = i + 1;
        }
        names
    }

    /// The link dropped: every later remote operation fails with
    /// [`Error::ConnectionLost`].
    pub fn mark_disconnected(&mut self)
        ensures
            !final(self).is_connected(),
            final(self).toc() == old(self).toc(),
            final(self).next_block_id() == old(self).next_block_id(),
            final(self).deletes() == old(self).deletes(),
            final(self).stops() == old(self).stops(),
            final(self).starts() == old(self).starts(),
            final(self).configs() == old(self).configs(),
    {
        self.connected = false;
    }

    /// Whether the link is still up.
    pub fn is_link_up(&self) -> (r: bool)
        ensures
            r == self.is_connected(),
    {
        self.connected
    }

    /// Create a fresh log block in the configuring state.
    ///
    /// Identifiers come from a monotone counter and are never reused within
    /// a connection, so creation fails with [`Error::Protocol`] once the
    /// pool is used up, and with [`Error::ConnectionLost`] once the link is
    /// down. On success the new block carries the next identifier and no
    /// variables.
    pub fn create_block(&mut self) -> (r: Result<LogBlock, Error>)
        ensures
            old(self).next_block_id() == BLOCK_ID_LIMIT ==> r == Err::<LogBlock, Error>(
                Error::Protocol,
            ) && *final(self) == *old(self),
            old(self).next_block_id() != BLOCK_ID_LIMIT && !old(self).is_connected() ==> r
                == Err::<LogBlock, Error>(Error::ConnectionLost) && *final(self) == *old(self),
            old(self).next_block_id() != BLOCK_ID_LIMIT && old(self).is_connected() ==> {
                &&& r matches Ok(b)
                &&& (r matches Ok(b) ==> b.id() == old(self).next_block_id()
                    && b.variables() == Seq::<LogVariable>::empty() && b.wf())
                &&& final(self).next_block_id() == old(self).next_block_id() + 1
            },
            final(self).toc() == old(self).toc(),
            final(self).is_connected() == old(self).is_connected(),
            final(self).deletes() == old(self).deletes(),
            final(self).stops() == old(self).stops(),
            final(self).starts() == old(self).starts(),
            final(self).configs() == old(self).configs(),
    {
        if self.next_id == BLOCK_ID_LIMIT {
            Err(Error::Protocol)
        } else if !self.connected {
            Err(Error::ConnectionLost)
        } else {
            let id: u8 = self.next_id;
            self.next_id = self.next_id + 1;
            Ok(LogBlock { block_id: id, variables: Vec::new(), payload_used: 0 })
        }
    }

    /// Record the remote deallocation of block `id`, exactly once: if the
    /// block was already released, nothing is recorded. Release must never
    /// fail, so it has no error path; it may race with an explicit stop and
    /// stay a no-op.
    pub fn release_block(&mut self, id: u8)
        ensures
            final(self).deletes() == deletes_after_release(old(self).deletes(), id),
            final(self).toc() == old(self).toc(),
            final(self).next_block_id() == old(self).next_block_id(),
            final(self).is_connected() == old(self).is_connected(),
            final(self).stops() == old(self).stops(),
            final(self).starts() == old(self).starts(),
            final(self).configs() == old(self).configs(),
    {
        let mut i: usize = 0;
        while i < self.delete_msgs.len()
            invariant
                0 <= i <= self.delete_msgs@.len(),
                forall|j: int| 0 <= j < i ==> self.delete_msgs@[j] != id,
            decreases self.delete_msgs@.len() - i,
        {
            if self.delete_msgs[i] == id {
                proof {
                    assert(old(self).deletes().contains(id));
                }
                return ;
            }
            i = i + 1;
        }
        proof {
            assert(!old(self).deletes().contains(id));
        }
        self.delete_msgs.push(id);
    }

    /// How many deactivation messages were recorded for block `id`.
    pub fn delete_count(&self, id: u8) -> (n: usize)
        ensures
            n == count_of(self.deletes(), id),
    {
        let mut n: usize = 0;
        let mut i: usize = 0;
        while i < self.delete_msgs.len()
            invariant
                0 <= i <= self.delete_msgs@.len(),
                n <= i,
                n == count_of(self.delete_msgs@.take(i as int), id),
            decreases self.delete_msgs@.len() - i,
        {
            proof {
                assert(self.delete_msgs@.take(i as int + 1).drop_last() =~= self.delete_msgs@.take(
                    i as int,
                ));
                assert(self.delete_msgs@.take(i as int + 1).last() == self.delete_msgs@[i as int]);
            }
            if self.delete_msgs[i] == id {
                n = n + 1;
            }
            i = i + 1;
        }
        proof {
            assert(self.delete_msgs@.take(self.delete_msgs@.len() as int) =~= self.delete_msgs@);
        }
        n
    }
}

/// A log block in the configuring state: variables may still be added, and
/// starting it consumes the handle.
pub struct LogBlock {
    block_id: u8,
    variables: Vec<LogVariable>,
    payload_used: u8,
}

impl LogBlock {
    /// The block's device-side identifier.
    pub closed spec fn id(self) -> u8 {
        self.block_id
    }

    /// The variables registered so far, in registration order.
    pub closed spec fn variables(self) -> Seq<LogVariable> {
        self.variables@
    }

    /// The block's device-side identifier, as a value.
    pub fn block_id(&self) -> (r: u8)
        ensures
            r == self.id(),
    {
        self.block_id
    }

    /// The block's internal consistency: the byte budget bookkeeping
    /// matches the registered variables and stays within the device's cap.
    pub closed spec fn wf(self) -> bool {
        &&& self.payload_used == total_width(self.variables@)
        &&& self.payload_used <= MAX_BLOCK_PAYLOAD
    }

    /// Register one more variable with the device.
    ///
    /// The name must be in the table of contents, else the request is
    /// refused with [`Error::Validation`] before anything is sent. A
    /// variable that would exceed the block's sample payload budget is
    /// refused by the device with [`Error::Protocol`]. Either way the block
    /// keeps its prior state. On success the variable is appended and one
    /// configuration message is recorded for this block.
    pub fn add_variable(&mut self, log: &mut Log, name: &str) -> (r: Result<(), Error>)
        requires
            old(self).wf(),
        ensures
            final(self).wf(),
            final(self).id() == old(self).id(),
            !old(log).is_connected() ==> r == Err::<(), Error>(Error::ConnectionLost)
                && *final(self) == *old(self) && *final(log) == *old(log),
            old(log).is_connected() && toc_lookup(old(log).toc(), name@) is None ==> r == Err::<
                (),
                Error,
            >(Error::Validation) && *final(self) == *old(self) && *final(log) == *old(log),
            old(log).is_connected() && (toc_lookup(old(log).toc(), name@) matches Some(v)) ==> {
                &&& (total_width(old(self).variables()) + toc_var_width(old(log).toc(), name@)
                    > MAX_BLOCK_PAYLOAD as int ==> r == Err::<(), Error>(Error::Protocol)
                    && *final(self) == *old(self) && *final(log) == *old(log))
                &&& (total_width(old(self).variables()) + toc_var_width(old(log).toc(), name@)
                    <= MAX_BLOCK_PAYLOAD as int ==> r == Ok::<(), Error>(())
                    && final(self).variables().len() == old(self).variables().len() + 1
                    && final(self).variables().drop_last() == old(self).variables()
                    && final(self).variables().last().name@ == name@
                    && final(self).variables().last().width == toc_var_width(
                        old(log).toc(),
                        name@,
                    )
                    && final(log).configs() == old(log).configs().push(old(self).id())
                    && final(log).toc() == old(log).toc()
                    && final(log).next_block_id() == old(log).next_block_id()
                    && final(log).is_connected()
                    && final(log).deletes() == old(log).deletes()
                    && final(log).stops() == old(log).stops()
                    && final(log).starts() == old(log).starts())
            },
    {
        if !log.is_link_up() {
            return Err(Error::ConnectionLost);
        }
        match log.toc_find(name) {
            None => Err(Error::Validation),
            Some(width) => {
                if width > MAX_BLOCK_PAYLOAD - self.payload_used {
                    proof {
                        lemma_total_width_nonneg(self.variables@);
                    }
                    Err(Error::Protocol)
                } else {
                    let ghost vars0 = self.variables@;
                    self.variables.push(LogVariable { name: name.to_owned(), width });
                    self.payload_used = self.payload_used + width;
                    log.record_config(self.block_id);
                    proof {
                        assert(self.variables@.drop_last() =~= vars0);
                    }
                    Ok(())
                }
            },
        }
    }

    /// Start the block: consume the configuring handle and activate the
    /// block at the given period.
    ///
    /// An unrepresentable period is refused with [`Error::Validation`], and
    /// a dead link with [`Error::ConnectionLost`]; in both cases no
    /// streaming handle exists afterwards and the block's remote allocation
    /// is already released. On success an activate message with the
    /// period's wire units is recorded and the streaming handle takes over
    /// the identifier and the variables.
    pub fn start(self, log: &mut Log, period_ms: u64) -> (r: Result<LogStream, Error>)
        requires
            self.wf(),
        ensures
            !period_valid(period_ms) ==> r == Err::<LogStream, Error>(Error::Validation)
                && final(log).deletes() == deletes_after_release(old(log).deletes(), self.id())
                && final(log).starts() == old(log).starts(),
            period_valid(period_ms) && !old(log).is_connected() ==> r == Err::<LogStream, Error>(
                Error::ConnectionLost,
            ) && final(log).deletes() == deletes_after_release(old(log).deletes(), self.id())
                && final(log).starts() == old(log).starts(),
            period_valid(period_ms) && old(log).is_connected() ==> {
                &&& r matches Ok(s)
                &&& (r matches Ok(s) ==> s.id() == self.id() && s.variables() == self.variables()
                    && s.pending() == Seq::<Vec<u8>>::empty() && s.wf())
                &&& final(log).starts() == old(log).starts().push((self.id(), period_units(
                    period_ms,
                )))
                &&& final(log).deletes() == old(log).deletes()
            },
            final(log).toc() == old(log).toc(),
            final(log).next_block_id() == old(log).next_block_id(),
            final(log).is_connected() == old(log).is_connected(),
            final(log).stops() == old(log).stops(),
            final(log).configs() == old(log).configs(),
    {
        let units: u64 = period_ms / 10;
        if units == 0 || units > 255 {
            log.release_block(self.block_id);
            Err(Error::Validation)
        } else if !log.is_link_up() {
            log.release_block(self.block_id);
            Err(Error::ConnectionLost)
        } else {
            log.record_start(self.block_id, units as u8);
            Ok(
                LogStream {
                    block_id: self.block_id,
                    variables: self.variables,
                    payload_used: self.payload_used,
                    packets: StreamHandle::new(),
                },
            )
        }
    }

    /// The handle is going away without an explicit transition: record the
    /// remote deallocation, exactly once for this identifier.
    pub fn release(self, log: &mut Log)
        ensures
            final(log).deletes() == deletes_after_release(old(log).deletes(), self.id()),
            final(log).toc() == old(log).toc(),
            final(log).next_block_id() == old(log).next_block_id(),
            final(log).is_connected() == old(log).is_connected(),
            final(log).stops() == old(log).stops(),
            final(log).starts() == old(log).starts(),
            final(log).configs() == old(log).configs(),
    {
        log.release_block(self.block_id);
    }
}

impl Log {
    /// The width of the table-of-contents variable carrying `name`, if the
    /// name is known.
    fn toc_find(&self, name: &str) -> (r: Option<u8>)
        ensures
            match r {
                Some(w) => toc_lookup(self.toc(), name@) matches Some(v) && v.width == w,
                None => toc_lookup(self.toc(), name@) is None,
            },
    {
        let owned = name.to_owned();
        let mut i: usize = 0;
        while i < self.toc.len()
            invariant
                0 <= i <= self.toc@.len(),
                forall|j: int| 0 <= j < i ==> self.toc@[j].name@ != owned@,
                owned@ == name@,
            decreases self.toc@.len() - i,
        {
            if self.toc[i].name == owned {
                proof {
                    lemma_toc_lookup_found(self.toc@, name@, i as int);
                }
                return Some(self.toc[i].width);
            }
            i = i + 1;
        }
        proof {
            lemma_toc_lookup_absent(self.toc@, name@);
        }
        None
    }

    /// Record one add-variable configuration message for block `id`.
    fn record_config(&mut self, id: u8)
        ensures
            final(self).configs() == old(self).configs().push(id),
            final(self).toc() == old(self).toc(),
            final(self).next_block_id() == old(self).next_block_id(),
            final(self).is_connected() == old(self).is_connected(),
            final(self).deletes() == old(self).deletes(),
            final(self).stops() == old(self).stops(),
            final(self).starts() == old(self).starts(),
    {
        self.config_msgs = Ghost(self.config_msgs@.push(id));
    }

    /// Record one activate message for block `id` at `units` of 10 ms.
    fn record_start(&mut self, id: u8, units: u8)
        ensures
            final(self).starts() == old(self).starts().push((id, units)),
            final(self).toc() == old(self).toc(),
            final(self).next_block_id() == old(self).next_block_id(),
            final(self).is_connected() == old(self).is_connected(),
            final(self).deletes() == old(self).deletes(),
            final(self).stops() == old(self).stops(),
            final(self).configs() == old(self).configs(),
    {
        self.start_msgs = Ghost(self.start_msgs@.push((id, units)));
    }

    /// Record one deactivate message for block `id`.
    fn record_stop(&mut self, id: u8)
        ensures
            final(self).stops() == old(self).stops().push(id),
            final(self).toc() == old(self).toc(),
            final(self).next_block_id() == old(self).next_block_id(),
            final(self).is_connected() == old(self).is_connected(),
            final(self).deletes() == old(self).deletes(),
            final(self).starts() == old(self).starts(),
            final(self).configs() == old(self).configs(),
    {
        self.stop_msgs = Ghost(self.stop_msgs@.push(id));
    }
}

/// The width of `name` in the table of contents, or zero when absent.
pub open spec fn toc_var_width(toc: Seq<LogVariable>, name: Seq<char>) -> int {
    match toc_lookup(toc, name) {
        Some(v) => v.width as int,
        None => 0,
    }
}

/// One decoded sample: the device's millisecond timestamp and, per
/// registered variable and in registration order, the value's raw bytes
/// exactly as the device stores them (no conversion).
pub struct Sample {
    /// Device timestamp, in milliseconds, of when the sample was taken.
    pub timestamp: u32,
    /// One raw little-endian value per variable, in registration order.
    pub values: Vec<Vec<u8>>,
}

/// A raw sample packet is well-formed for a variable list when it holds the
/// timestamp header and then exactly the variables' widths.
pub open spec fn valid_sample_packet(data: Seq<u8>, vars: Seq<LogVariable>) -> bool {
    data.len() == SAMPLE_HEADER_BYTES + total_width(vars)
}

/// The timestamp a packet's three-byte little-endian header carries.
pub open spec fn spec_timestamp(data: Seq<u8>) -> int {
    data[0] + 0x100 * data[1] + 0x10000 * data[2]
}

/// Where variable `i`'s bytes begin inside a sample packet.
pub open spec fn value_offset(vars: Seq<LogVariable>, i: int) -> int {
    SAMPLE_HEADER_BYTES + total_width(vars.take(i))
}

/// What it means for `s` to be the decoding of packet `data` under the
/// variable list `vars`.
pub open spec fn is_decoded_sample(s: Sample, data: Seq<u8>, vars: Seq<LogVariable>) -> bool {
    &&& s.timestamp == spec_timestamp(data)
    &&& s.values@.len() == vars.len()
    &&& forall|i: int|
        0 <= i < vars.len() ==> #[trigger] s.values@[i]@ == data.subrange(
            value_offset(vars, i),
            value_offset(vars, i) + vars[i].width,
        )
}

/// Decode one raw sample packet: the three-byte timestamp, then each
/// variable's bytes at its offset. A packet whose length does not match the
/// variable list is a device-side fault and refused as such.
pub fn decode_sample(data: &Vec<u8>, vars: &Vec<LogVariable>) -> (r: Result<Sample, Error>)
    requires
        total_width(vars@) <= MAX_BLOCK_PAYLOAD as int,
    ensures
        !valid_sample_packet(data@, vars@) ==> r == Err::<Sample, Error>(Error::Protocol),
        valid_sample_packet(data@, vars@) ==> (r matches Ok(s) && is_decoded_sample(
            s,
            data@,
            vars@,
        )),
{
    let mut total: u16 = 0;
    let mut i: usize = 0;
    while i < vars.len()
        invariant
            0 <= i <= vars@.len(),
            total == total_width(vars@.take(i as int)),
            total_width(vars@) <= MAX_BLOCK_PAYLOAD as int,
        decreases vars@.len() - i,
    {
        proof {
            lemma_total_width_take_succ(vars@, i as int);
            lemma_total_width_take_le(vars@, i as int + 1);
        }
        total = total + vars[i].width as u16;
        i = i + 1;
    }
    proof {
        assert(vars@.take(vars@.len() as int) =~= vars@);
    }
    if data.len() != 3 + total as usize {
        return Err(Error::Protocol);
    }
    let ts: u32 = data[0] as u32 + 0x100 * data[1] as u32 + 0x10000 * data[2] as u32;
    let mut values: Vec<Vec<u8>> = Vec::new();
    let mut pos: usize = 3;
    let mut k: usize = 0;
    while k < vars.len()
        invariant
            0 <= k <= vars@.len(),
            values@.len() == k,
            pos == value_offset(vars@, k as int),
            data@.len() == SAMPLE_HEADER_BYTES + total_width(vars@),
            total_width(vars@) <= MAX_BLOCK_PAYLOAD as int,
            forall|j: int|
                0 <= j < k ==> #[trigger] values@[j]@ == data@.subrange(
                    value_offset(vars@, j),
                    value_offset(vars@, j) + vars@[j].width,
                ),
        decreases vars@.len() - k,
    {
        proof {
            lemma_total_width_take_succ(vars@, k as int);
            lemma_total_width_take_le(vars@, k as int + 1);
            lemma_total_width_take_le(vars@, k as int);
        }
        let w: usize = vars[k].width as usize;
        let chunk_slice = vstd::slice::slice_subrange(data.as_slice(), pos, pos + w);
        let chunk = vstd::slice::slice_to_vec(chunk_slice);
        values.push(chunk);
        pos = pos + w;
        k = k + 1;
    }
    proof {
        assert(vars@.take(0int) =~= Seq::<LogVariable>::empty());
    }
    Ok(Sample { timestamp: ts, values })
}

/// A log block in the streaming state: the device samples its variables
/// periodically and pushes raw packets; the caller reads them decoded, in
/// arrival order. Stopping consumes the handle and gives back a
/// configuring [`LogBlock`] with the same identifier.
pub struct LogStream {
    block_id: u8,
    variables: Vec<LogVariable>,
    payload_used: u8,
    packets: StreamHandle<Vec<u8>>,
}

impl LogStream {
    /// The block's device-side identifier.
    pub closed spec fn id(self) -> u8 {
        self.block_id
    }

    /// The variables the block samples, in registration order.
    pub closed spec fn variables(self) -> Seq<LogVariable> {
        self.variables@
    }

    /// Raw sample packets that arrived and were not yet read.
    pub closed spec fn pending(self) -> Seq<Vec<u8>> {
        self.packets.queued()
    }

    /// The block's device-side identifier, as a value.
    pub fn block_id(&self) -> (r: u8)
        ensures
            r == self.id(),
    {
        self.block_id
    }

    /// The stream's internal consistency.
    pub closed spec fn wf(self) -> bool {
        &&& self.payload_used == total_width(self.variables@)
        &&& self.payload_used <= MAX_BLOCK_PAYLOAD
    }

    /// Pump side: one raw sample packet arrived from the device.
    pub fn deliver_packet(&mut self, data: Vec<u8>)
        ensures
            final(self).pending() == old(self).pending().push(data),
            final(self).id() == old(self).id(),
            final(self).variables() == old(self).variables(),
            old(self).wf() ==> final(self).wf(),
    {
        self.packets.push(data);
    }

    /// The next periodic sample, decoded, in arrival order.
    ///
    /// `Ok(None)` means no sample has arrived yet and the caller should
    /// wait and ask again -- from the caller's point of view the read
    /// blocks until the device's next period. Once the link is down and
    /// the buffer empty, waiting would hang forever, so the call resolves
    /// with [`Error::ConnectionLost`] instead. A buffered packet that does
    /// not match the block's variables is a device-side fault,
    /// [`Error::Protocol`].
    pub fn next(&mut self, log: &Log) -> (r: Result<Option<Sample>, Error>)
        requires
            old(self).wf(),
        ensures
            final(self).wf(),
            final(self).id() == old(self).id(),
            final(self).variables() == old(self).variables(),
            old(self).pending().len() == 0 && log.is_connected() ==> r == Ok::<
                Option<Sample>,
                Error,
            >(None) && final(self).pending() == old(self).pending(),
            old(self).pending().len() == 0 && !log.is_connected() ==> r == Err::<
                Option<Sample>,
                Error,
            >(Error::ConnectionLost) && final(self).pending() == old(self).pending(),
            old(self).pending().len() > 0 ==> final(self).pending() == old(self).pending().skip(1)
                && (if valid_sample_packet(old(self).pending()[0]@, old(self).variables()) {
                r matches Ok(o) && o matches Some(s) && is_decoded_sample(
                    s,
                    old(self).pending()[0]@,
                    old(self).variables(),
                )
            } else {
                r == Err::<Option<Sample>, Error>(Error::Protocol)
            }),
    {
        match self.packets.pop() {
            None => {
                if log.is_link_up() {
                    Ok(None)
                } else {
                    Err(Error::ConnectionLost)
                }
            },
            Some(packet) => {
                match decode_sample(&packet, &self.variables) {
                    Ok(sample) => Ok(Some(sample)),
                    Err(e) => Err(e),
                }
            },
        }
    }

    /// Stop the stream: consume the streaming handle, record one
    /// deactivate message, and give back a configuring handle with the
    /// same identifier, ready to be started again with another period.
    ///
    /// With the link down the deactivate cannot be delivered; the handle
    /// is gone either way, so the block's allocation is released instead.
    pub fn stop(self, log: &mut Log) -> (r: Result<LogBlock, Error>)
        requires
            self.wf(),
        ensures
            !old(log).is_connected() ==> r == Err::<LogBlock, Error>(Error::ConnectionLost)
                && final(log).deletes() == deletes_after_release(old(log).deletes(), self.id())
                && final(log).stops() == old(log).stops(),
            old(log).is_connected() ==> {
                &&& r matches Ok(b)
                &&& (r matches Ok(b) ==> b.id() == self.id() && b.variables() == self.variables()
                    && b.wf())
                &&& final(log).stops() == old(log).stops().push(self.id())
                &&& final(log).deletes() == old(log).deletes()
            },
            final(log).toc() == old(log).toc(),
            final(log).next_block_id() == old(log).next_block_id(),
            final(log).is_connected() == old(log).is_connected(),
            final(log).starts() == old(log).starts(),
            final(log).configs() == old(log).configs(),
    {
        if !log.is_link_up() {
            log.release_block(self.block_id);
            Err(Error::ConnectionLost)
        } else {
            log.record_stop(self.block_id);
            Ok(
                LogBlock {
                    block_id: self.block_id,
                    variables: self.variables,
                    payload_used: self.payload_used,
                },
            )
        }
    }

    /// The handle is going away without an explicit stop: record the
    /// remote deallocation, exactly once for this identifier.
    pub fn release(self, log: &mut Log)
        ensures
            final(log).deletes() == deletes_after_release(old(log).deletes(), self.id()),
            final(log).toc() == old(log).toc(),
            final(log).next_block_id() == old(log).next_block_id(),
            final(log).is_connected() == old(log).is_connected(),
            final(log).stops() == old(log).stops(),
            final(log).starts() == old(log).starts(),
            final(log).configs() == old(log).configs(),
    {
        log.release_block(self.block_id);
    }
}

// ------------------------------------------------------------------
// Laws.
// ------------------------------------------------------------------

proof fn lemma_count_of_absent(s: Seq<u8>, x: u8)
    requires
        !s.contains(x),
    ensures
        count_of(s, x) == 0,
    decreases s.len(),
{
    if s.len() > 0 {
        assert(s.last() != x) by {
            if s.last() == x {
                assert(s[s.len() - 1] == x);
            }
        }
        assert(!s.drop_last().contains(x)) by {
            if s.drop_last().contains(x) {
                let i = choose|i: int| 0 <= i < s.drop_last().len() && s.drop_last()[i] == x;
                assert(s[i] == x);
            }
        }
        lemma_count_of_absent(s.drop_last(), x);
    }
}

/// Law: releasing a block that was never released records exactly one
/// deactivation for its identifier, and releasing again afterwards records
/// nothing more -- teardown happens exactly once, and a double release is
/// a no-op.
pub proof fn lemma_release_exactly_once(deletes: Seq<u8>, id: u8)
    requires
        !deletes.contains(id),
    ensures
        count_of(deletes_after_release(deletes, id), id) == 1,
        deletes_after_release(deletes_after_release(deletes, id), id) == deletes_after_release(
            deletes,
            id,
        ),
{
    lemma_count_of_absent(deletes, id);
    let d1 = deletes.push(id);
    assert(d1.drop_last() =~= deletes);
    assert(d1[d1.len() - 1] == id);
    assert(d1.contains(id));
}

/// Law: a start/stop round trip preserves the block identifier. The
/// premises are exactly what [`LogBlock::start`] and [`LogStream::stop`]
/// ensure of the handles they produce, so the identifier a block comes
/// back with after streaming is the one it was created with.
pub proof fn lemma_round_trip_keeps_identifier(b: LogBlock, s: LogStream, b2: LogBlock)
    requires
        s.id() == b.id(),
        b2.id() == s.id(),
    ensures
        b2.id() == b.id(),
{
}

} // verus!
