use vstd::prelude::*;
use std::collections::HashMap;

use crate::arith::{clamp_i128, max_int, min_int};
use crate::constants::CONTRACT_ACCOUNT;
use crate::errors::ContractError;
use crate::keys::Transfer;
use crate::types::{AccountId, PaymentStream, StreamStatus};

verus! {

/// The payload of the event published when a stream is cancelled and split.
#[derive(Clone, Copy, Debug, PartialEq, Eq, Structural)]
pub struct StreamCancelled {
    pub stream_id: u32,
    pub sender_refund: i128,
    pub recipient_payout: i128,
}

/// The payload of the event published when a stream is paused.
#[derive(Clone, Copy, Debug, PartialEq, Eq, Structural)]
pub struct StreamPaused {
    pub stream_id: u32,
    pub paused_at_ledger: u32,
}

/// The payload of the event published when a stream resumes with its new end.
#[derive(Clone, Copy, Debug, PartialEq, Eq, Structural)]
pub struct StreamResumed {
    pub stream_id: u32,
    pub new_end_ledger: u32,
}


broadcast use vstd::std_specs::hash::group_hash_axioms;

/// All payment streams, by id, and the counter from which ids are drawn.
pub struct StreamBook {
    streams: HashMap<u32, PaymentStream>,
    counter: u32,
}

/// What has accrued to the recipient and is not yet withdrawn, at ledger `current`:
/// the rate times the ledgers elapsed (up to the end ledger), capped at the deposit,
/// less what was withdrawn; nothing for a stream that is not active.
pub open spec fn spec_accrued(s: PaymentStream, current: u32) -> int {
    if s.status != StreamStatus::Active {
        0
    } else {
        let elapsed: int = if current >= s.end_ledger { s.end_ledger - s.start_ledger } else { current - s.start_ledger };
        let total = min_int(clamp_i128(elapsed * s.rate_per_ledger), s.deposited as int);
        max_int(clamp_i128(total - s.withdrawn), 0)
    }
}

/// A stream is sound: its ledgers are ordered, its rate and deposit positive, and what
/// was withdrawn lies between nothing and the deposit.
pub open spec fn stream_wf(s: PaymentStream) -> bool {
    &&& s.start_ledger <= s.end_ledger
    &&& 0 <= s.withdrawn <= s.deposited
    &&& s.rate_per_ledger > 0
}

impl StreamBook {
    pub closed spec fn streams(&self) -> Map<u32, PaymentStream> {
        self.streams@
    }

    pub closed spec fn counter(&self) -> u32 {
        self.counter
    }

    /// Every stream is stored under its own id and is sound.
    pub open spec fn wf(&self) -> bool {
        forall|id: u32| #[trigger] self.streams().contains_key(id) ==> self.streams()[id].id == id && stream_wf(
            self.streams()[id])
    }

    /// Every stream has started by ledger `current`.
    pub open spec fn started_by(&self, current: u32) -> bool {
        forall|id: u32| #[trigger] self.streams().contains_key(id) ==> self.streams()[id].start_ledger <= current
    }

    pub fn new() -> (b: StreamBook)
        ensures
            b.streams() == Map::<u32, PaymentStream>::empty(),
            b.counter() == 0,
            b.wf(),
    {
        StreamBook { streams: HashMap::new(), counter: 0 }
    }

    pub fn get_stream(&self, stream_id: u32) -> (r: Result<PaymentStream, ContractError>)
        ensures
            self.streams().contains_key(stream_id) ==> r == Ok::<PaymentStream, ContractError>(self.streams()[stream_id]),
            !self.streams().contains_key(stream_id) ==> r == Err::<PaymentStream, ContractError>(ContractError::StreamNotFound),
    {
        match self.streams.get(&stream_id) {
            Some(s) => Ok(*s),
            None => Err(ContractError::StreamNotFound),
        }
    }

    /// Open a stream from `sender` to `recipient` at `rate_per_ledger` for `duration_ledgers`
    /// ledgers from `current_ledger`; the sender deposits the whole amount up front.
    pub fn create_stream(
        &mut self,
        sender: AccountId,
        recipient: AccountId,
        grant_id: u64,
        token: AccountId,
        rate_per_ledger: i128,
        duration_ledgers: u32,
        current_ledger: u32,
        now: u64,
        transfers: &mut Vec<Transfer>,
    ) -> (r: Result<u32, ContractError>)
        requires
            old(self).counter() < u32::MAX,
        ensures
            rate_per_ledger <= 0 || duration_ledgers == 0 || rate_per_ledger * duration_ledgers > i128::MAX
                || current_ledger + duration_ledgers > u32::MAX ==> r == Err::<u32, ContractError>(ContractError::InvalidInput)
                && final(self).streams() == old(self).streams() && final(self).counter() == old(self).counter()
                && final(transfers)@ == old(transfers)@,
            !(rate_per_ledger <= 0 || duration_ledgers == 0 || rate_per_ledger * duration_ledgers > i128::MAX
                || current_ledger + duration_ledgers > u32::MAX) ==> {
                let id = (old(self).counter() + 1) as u32;
                let deposited = (rate_per_ledger * duration_ledgers) as i128;
                &&& r == Ok::<u32, ContractError>(id)
                &&& final(self).counter() == id
                &&& final(self).streams() == old(self).streams().insert(id, PaymentStream {
                    id, grant_id, sender, recipient, token, rate_per_ledger, deposited, withdrawn: 0,
                    start_ledger: current_ledger, end_ledger: (current_ledger + duration_ledgers) as u32,
                    status: StreamStatus::Active, created_at: now, paused_at_ledger: 0 })
                &&& final(transfers)@ == old(transfers)@.push(Transfer { token, from: sender, to: CONTRACT_ACCOUNT, amount: deposited })
            },
            old(self).wf() ==> final(self).wf(),
    {
        if rate_per_ledger <= 0 {
            return Err(ContractError::InvalidInput);
        }
        if duration_ledgers == 0 {
            return Err(ContractError::InvalidInput);
        }
        let deposited = match rate_per_ledger.checked_mul(duration_ledgers as i128) {
            Some(d) => d,
            None => return Err(ContractError::InvalidInput),
        };
        let end_ledger = match current_ledger.checked_add(duration_ledgers) {
            Some(e) => e,
            None => return Err(ContractError::InvalidInput),
        };
        transfers.push(Transfer { token, from: sender, to: CONTRACT_ACCOUNT, amount: deposited });
        self.counter = self.counter + 1;
        let id = self.counter;
        assert(deposited >= 0) by (nonlinear_arith)
            requires deposited == rate_per_ledger * duration_ledgers, rate_per_ledger > 0;
        self.streams.insert(id, PaymentStream {
            id, grant_id, sender, recipient, token, rate_per_ledger, deposited, withdrawn: 0,
            start_ledger: current_ledger, end_ledger, status: StreamStatus::Active, created_at: now, paused_at_ledger: 0,
        });
        Ok(id)
    }

    /// The recipient withdraws everything accrued so far at `current_ledger`; a stream
    /// drained of its whole deposit becomes completed. Returns the amount withdrawn.
    pub fn withdraw_stream(
        &mut self,
        recipient: AccountId,
        stream_id: u32,
        current_ledger: u32,
        transfers: &mut Vec<Transfer>,
    ) -> (r: Result<i128, ContractError>)
        requires
            old(self).wf(),
            old(self).started_by(current_ledger),
        ensures
            final(self).wf(),
            final(self).counter() == old(self).counter(),
            ({
                let found = old(self).streams().contains_key(stream_id);
                let s = old(self).streams()[stream_id];
                let c = spec_accrued(s, current_ledger);
                &&& !found ==> r == Err::<i128, ContractError>(ContractError::StreamNotFound)
                &&& found && s.recipient != recipient ==> r == Err::<i128, ContractError>(ContractError::Unauthorized)
                &&& found && s.recipient == recipient && s.status != StreamStatus::Active ==> r == Err::<i128,
                    ContractError>(ContractError::StreamNotActive)
                &&& r is Err ==> final(self).streams() == old(self).streams() && final(transfers)@ == old(transfers)@
                &&& found && s.recipient == recipient && s.status == StreamStatus::Active && c == 0 ==> r == Ok::<i128,
                    ContractError>(0) && final(self).streams() == old(self).streams() && final(transfers)@ == old(transfers)@
                &&& found && s.recipient == recipient && s.status == StreamStatus::Active && c > 0 ==> {
                    let w = (s.withdrawn + c) as i128;
                    &&& r == Ok::<i128, ContractError>(c as i128)
                    &&& final(self).streams() == old(self).streams().insert(stream_id, PaymentStream {
                        withdrawn: w, status: if w >= s.deposited { StreamStatus::Completed } else { StreamStatus::Active }, ..s })
                    &&& final(transfers)@ == old(transfers)@.push(Transfer { token: s.token, from: CONTRACT_ACCOUNT, to: recipient,
                        amount: c as i128 })
                }
            }),
    {
        let s = match self.streams.get(&stream_id) {
            Some(s) => *s,
            None => return Err(ContractError::StreamNotFound),
        };
        if s.recipient != recipient {
            return Err(ContractError::Unauthorized);
        }
        if s.status != StreamStatus::Active {
            return Err(ContractError::StreamNotActive);
        }
        assert(s.start_ledger <= current_ledger && stream_wf(s));
        let claimable = accrued_amount(&s, current_ledger);
        if claimable == 0 {
            return Ok(0);
        }
        let w = s.withdrawn + claimable;
        let status = if w >= s.deposited { StreamStatus::Completed } else { StreamStatus::Active };
        self.streams.insert(stream_id, PaymentStream { withdrawn: w, status, ..s });
        transfers.push(Transfer { token: s.token, from: CONTRACT_ACCOUNT, to: recipient, amount: claimable });
        Ok(claimable)
    }

    /// The sender cancels: the recipient is paid what has accrued and the sender is
    /// refunded the rest of the deposit. Returns `(sender_refund, recipient_payout)`.
    pub fn cancel_stream(
        &mut self,
        sender: AccountId,
        stream_id: u32,
        current_ledger: u32,
        transfers: &mut Vec<Transfer>,
    ) -> (r: Result<(i128, i128), ContractError>)
        requires
            old(self).wf(),
            old(self).started_by(current_ledger),
        ensures
            final(self).wf(),
            final(self).counter() == old(self).counter(),
            ({
                let found = old(self).streams().contains_key(stream_id);
                let s = old(self).streams()[stream_id];
                let payout = spec_accrued(s, current_ledger);
                let refund = s.deposited - s.withdrawn - payout;
                &&& !found ==> r == Err::<(i128, i128), ContractError>(ContractError::StreamNotFound)
                &&& found && s.sender != sender ==> r == Err::<(i128, i128), ContractError>(ContractError::Unauthorized)
                &&& found && s.sender == sender && s.status != StreamStatus::Active ==> r == Err::<(i128, i128),
                    ContractError>(ContractError::StreamNotActive)
                &&& r is Err ==> final(self).streams() == old(self).streams() && final(transfers)@ == old(transfers)@
                &&& found && s.sender == sender && s.status == StreamStatus::Active ==> {
                    &&& r == Ok::<(i128, i128), ContractError>((refund as i128, payout as i128))
                    &&& final(self).streams() == old(self).streams().insert(stream_id, PaymentStream {
                        status: StreamStatus::Cancelled, withdrawn: s.deposited, ..s })
                    &&& final(transfers)@ == old(transfers)@ + (if payout > 0 { seq![Transfer { token: s.token,
                        from: CONTRACT_ACCOUNT, to: s.recipient, amount: payout as i128 }] } else { Seq::empty() })
                        + (if refund > 0 { seq![Transfer { token: s.token, from: CONTRACT_ACCOUNT, to: sender,
                        amount: refund as i128 }] } else { Seq::empty() })
                    // What is left of the deposit is split exactly between the two parties.
                    &&& refund >= 0 && payout >= 0 && refund + payout == s.deposited - s.withdrawn
                }
            }),
    {
        let s = match self.streams.get(&stream_id) {
            Some(s) => *s,
            None => return Err(ContractError::StreamNotFound),
        };
        if s.sender != sender {
            return Err(ContractError::Unauthorized);
        }
        if s.status != StreamStatus::Active {
            return Err(ContractError::StreamNotActive);
        }
        assert(s.start_ledger <= current_ledger && stream_wf(s));
        let recipient_payout = accrued_amount(&s, current_ledger);
        let sender_refund = s.deposited - s.withdrawn - recipient_payout;
        self.streams.insert(stream_id, PaymentStream { status: StreamStatus::Cancelled, withdrawn: s.deposited, ..s });
        let ghost t0 = transfers@;
        if recipient_payout > 0 {
            transfers.push(Transfer { token: s.token, from: CONTRACT_ACCOUNT, to: s.recipient, amount: recipient_payout });
        }
        let ghost t1 = transfers@;
        if sender_refund > 0 {
            transfers.push(Transfer { token: s.token, from: CONTRACT_ACCOUNT, to: sender, amount: sender_refund });
        }
        assert(transfers@ == t0 + (if recipient_payout > 0 { seq![Transfer { token: s.token,
                        from: CONTRACT_ACCOUNT, to: s.recipient, amount: recipient_payout }] } else { Seq::empty() })
                        + (if sender_refund > 0 { seq![Transfer { token: s.token, from: CONTRACT_ACCOUNT, to: sender,
                        amount: sender_refund }] } else { Seq::empty() }));
        Ok((sender_refund, recipient_payout))
    }

    /// The sender pauses an active stream at `current_ledger`.
    pub fn pause_stream(&mut self, sender: AccountId, stream_id: u32, current_ledger: u32) -> (r: Result<(), ContractError>)
        ensures
            final(self).counter() == old(self).counter(),
            old(self).wf() ==> final(self).wf(),
            ({
                let found = old(self).streams().contains_key(stream_id);
                let s = old(self).streams()[stream_id];
                &&& !found ==> r == Err::<(), ContractError>(ContractError::StreamNotFound)
                &&& found && s.sender != sender ==> r == Err::<(), ContractError>(ContractError::Unauthorized)
                &&& found && s.sender == sender && s.status != StreamStatus::Active ==> r == Err::<(), ContractError>(
                    ContractError::StreamNotActive)
                &&& r is Err ==> final(self).streams() == old(self).streams()
                &&& found && s.sender == sender && s.status == StreamStatus::Active ==> r is Ok
                    && final(self).streams() == old(self).streams().insert(stream_id, PaymentStream {
                        status: StreamStatus::Paused, paused_at_ledger: current_ledger, ..s })
            }),
    {
        let s = match self.streams.get(&stream_id) {
            Some(s) => *s,
            None => return Err(ContractError::StreamNotFound),
        };
        if s.sender != sender {
            return Err(ContractError::Unauthorized);
        }
        if s.status != StreamStatus::Active {
            return Err(ContractError::StreamNotActive);
        }
        self.streams.insert(stream_id, PaymentStream { status: StreamStatus::Paused, paused_at_ledger: current_ledger, ..s });
        Ok(())
    }

    /// The sender resumes a paused stream. Its schedule moves out by the length of the pause,
    /// so the paused ledgers accrue nothing: the end ledger by the whole pause, the start
    /// ledger by the paused ledgers after the stream had started.
    pub fn resume_stream(&mut self, sender: AccountId, stream_id: u32, current_ledger: u32) -> (r: Result<(), ContractError>)
        ensures
            final(self).counter() == old(self).counter(),
            old(self).wf() ==> final(self).wf(),
            old(self).started_by(current_ledger) ==> final(self).started_by(current_ledger),
            ({
                let found = old(self).streams().contains_key(stream_id);
                let s = old(self).streams()[stream_id];
                let pause: int = if current_ledger >= s.paused_at_ledger { current_ledger - s.paused_at_ledger } else { 0 };
                let from: int = if s.paused_at_ledger > s.start_ledger { s.paused_at_ledger as int } else { s.start_ledger as int };
                let shift: int = if current_ledger >= from { current_ledger - from } else { 0 };
                &&& !found ==> r == Err::<(), ContractError>(ContractError::StreamNotFound)
                &&& found && s.sender != sender ==> r == Err::<(), ContractError>(ContractError::Unauthorized)
                &&& found && s.sender == sender && s.status != StreamStatus::Paused ==> r == Err::<(), ContractError>(
                    ContractError::StreamNotActive)
                &&& found && s.sender == sender && s.status == StreamStatus::Paused && s.end_ledger + pause > u32::MAX ==> r
                    == Err::<(), ContractError>(ContractError::InvalidInput)
                &&& r is Err ==> final(self).streams() == old(self).streams()
                &&& found && s.sender == sender && s.status == StreamStatus::Paused && s.end_ledger + pause <= u32::MAX
                    ==> r is Ok && final(self).streams() == old(self).streams().insert(stream_id, PaymentStream {
                        status: StreamStatus::Active, paused_at_ledger: 0, end_ledger: (s.end_ledger + pause) as u32,
                        start_ledger: (s.start_ledger + shift) as u32, ..s })
            }),
    {
        let s = match self.streams.get(&stream_id) {
            Some(s) => *s,
            None => return Err(ContractError::StreamNotFound),
        };
        if s.sender != sender {
            return Err(ContractError::Unauthorized);
        }
        if s.status != StreamStatus::Paused {
            return Err(ContractError::StreamNotActive);
        }
        let pause_duration = current_ledger.saturating_sub(s.paused_at_ledger);
        let end_ledger = match s.end_ledger.checked_add(pause_duration) {
            Some(e) => e,
            None => return Err(ContractError::InvalidInput),
        };
        let from = if s.paused_at_ledger > s.start_ledger { s.paused_at_ledger } else { s.start_ledger };
        let start_ledger = s.start_ledger + current_ledger.saturating_sub(from);
        self.streams.insert(
            stream_id,
            PaymentStream { status: StreamStatus::Active, paused_at_ledger: 0, end_ledger, start_ledger, ..s },
        );
        Ok(())
    }
}

/// What has accrued to the recipient of `stream` and is not yet withdrawn at `current`.
pub fn accrued_amount(stream: &PaymentStream, current: u32) -> (r: i128)
    requires
        stream.status == StreamStatus::Active ==> stream.start_ledger <= stream.end_ledger && stream.start_ledger <= current,
    ensures
        r == spec_accrued(*stream, current),
        stream_wf(*stream) ==> 0 <= r <= stream.deposited - stream.withdrawn,
{
    if stream.status != StreamStatus::Active {
        return 0;
    }
    let elapsed: i128 = if current >= stream.end_ledger {
        (stream.end_ledger - stream.start_ledger) as i128
    } else {
        (current - stream.start_ledger) as i128
    };
    let total = crate::arith::min_i128(crate::arith::sat_mul_i128(elapsed, stream.rate_per_ledger), stream.deposited);
    crate::arith::max_i128(crate::arith::sat_sub_i128(total, stream.withdrawn), 0)
}

} // verus!
