//! The shared port cell: a single-writer, multi-reader holder for the
//! discovered port, together with the query endpoint that the UI layer
//! calls.
//!
//! The cell's policy is idempotent write: the first `write_once` decides
//! the value, and every later write is ignored.  Once present, the value
//! never changes and never reverts to absent for the lifetime of one
//! supervised process instance.

use vstd::prelude::*;

verus! {

/// Error returned by the query endpoint while no port is known yet.
/// The caller is expected to retry later.
#[derive(Clone, Copy, PartialEq, Eq, Structural, Debug)]
pub struct NotReadyError;

impl NotReadyError {
    /// The human-readable form handed to the UI layer.
    pub fn message(&self) -> (r: String)
        ensures
            r@ == "Server not ready"@,
    {
        "Server not ready".to_owned()
    }
}

/// Holder for the port discovered by the supervisor.  The supervisor is
/// the sole writer; the query endpoint and the UI notifier only read.
pub struct PortCell {
    port: Option<u16>,
}

impl View for PortCell {
    type V = Option<u16>;

    /// The cell's abstract state: the port it holds, if any.
    closed spec fn view(&self) -> Option<u16> {
        self.port
    }
}

impl PortCell {
    /// What a single write leaves in the cell: the first write wins, a
    /// write into an occupied cell changes nothing.
    pub open spec fn write_result(state: Option<u16>, value: u16) -> Option<u16> {
        if state is Some {
            state
        } else {
            Some(value)
        }
    }

    /// The state after a whole sequence of writes, first write first.
    pub open spec fn write_seq_result(state: Option<u16>, writes: Seq<u16>) -> Option<u16>
        decreases writes.len(),
    {
        if writes.len() == 0 {
            state
        } else {
            Self::write_seq_result(Self::write_result(state, writes[0]), writes.drop_first())
        }
    }

    /// A fresh cell holds nothing.
    pub fn new() -> (c: PortCell)
        ensures
            c@ is None,
    {
        PortCell { port: None }
    }

    /// Sets the cell's value if it is still empty; ignores the write
    /// otherwise (idempotent-write policy).
    pub fn write_once(&mut self, value: u16)
        ensures
            final(self)@ == Self::write_result(old(self)@, value),
    {
        if self.port.is_none() {
            self.port = Some(value);
        }
    }

    /// Returns the current value without blocking.
    pub fn read(&self) -> (r: Option<u16>)
        ensures
            r == self@,
    {
        self.port
    }

    /// The query endpoint: the discovered port once one is known, and
    /// `NotReadyError` for every read before the first write.
    pub fn get_port(&self) -> (r: Result<u16, NotReadyError>)
        ensures
            r is Ok <==> self@ is Some,
            self@ matches Some(p) ==> r == Ok::<u16, NotReadyError>(p),
            self@ is None ==> r == Err::<u16, NotReadyError>(NotReadyError),
    {
        match self.port {
            Some(p) => Ok(p),
            None => Err(NotReadyError),
        }
    }

    /// Write-once invariant: a cell that already holds `p` still holds
    /// `p` after any further sequence of writes.
    pub proof fn lemma_written_value_stable(state: Option<u16>, p: u16, writes: Seq<u16>)
        requires
            state == Some(p),
        ensures
            Self::write_seq_result(state, writes) == Some(p),
        decreases writes.len(),
    {
        if writes.len() > 0 {
            Self::lemma_written_value_stable(
                Self::write_result(state, writes[0]),
                p,
                writes.drop_first(),
            );
        }
    }

    /// The first write wins: starting from an empty cell, any nonempty
    /// sequence of writes leaves exactly the first value written.
    pub proof fn lemma_first_write_wins(writes: Seq<u16>)
        requires
            writes.len() > 0,
        ensures
            Self::write_seq_result(None::<u16>, writes) == Some(writes[0]),
    {
        Self::lemma_written_value_stable(Some(writes[0]), writes[0], writes.drop_first());
    }
}

} // verus!
