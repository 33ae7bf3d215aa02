use vstd::prelude::*;

use crate::command::Command;

verus! {

/// One setter call of a remote client, waiting to be sent. Vector values are
/// the bit patterns of 32-bit floats.
#[derive(Debug, Clone)]
pub enum ClientCommand {
    EmergencyStop(bool),
    Compliancy(bool),
    ModeOfOperation(u32),
    TargetPosition(Vec<u32>),
    TargetVelocity(Vec<u32>),
    TargetTorque(Vec<u32>),
    VelocityLimit(Vec<u32>),
    TorqueLimit(Vec<u32>),
}

/// The vector fields of a command.
#[derive(Debug, Clone, Copy, PartialEq, Eq, Structural)]
pub enum VectorField {
    TargetPosition,
    TargetVelocity,
    TargetTorque,
    VelocityLimit,
    TorqueLimit,
}

/// The values a setter call gives to a vector field; empty for another field.
pub open spec fn field_values(c: ClientCommand, f: VectorField) -> Seq<u32> {
    match (c, f) {
        (ClientCommand::TargetPosition(v), VectorField::TargetPosition) => v@,
        (ClientCommand::TargetVelocity(v), VectorField::TargetVelocity) => v@,
        (ClientCommand::TargetTorque(v), VectorField::TargetTorque) => v@,
        (ClientCommand::VelocityLimit(v), VectorField::VelocityLimit) => v@,
        (ClientCommand::TorqueLimit(v), VectorField::TorqueLimit) => v@,
        _ => seq![],
    }
}

/// The calls queued for one slave, in order.
pub open spec fn calls_for(pending: Seq<(u16, ClientCommand)>, id: u16) -> Seq<ClientCommand>
    decreases pending.len(),
{
    if pending.len() == 0 {
        seq![]
    } else {
        let prev = calls_for(pending.drop_last(), id);
        if pending.last().0 == id {
            prev.push(pending.last().1)
        } else {
            prev
        }
    }
}

/// The slaves that have queued calls, in the order of their first call.
pub open spec fn slaves_in(pending: Seq<(u16, ClientCommand)>) -> Seq<u16>
    decreases pending.len(),
{
    if pending.len() == 0 {
        seq![]
    } else {
        let prev = slaves_in(pending.drop_last());
        if prev.contains(pending.last().0) {
            prev
        } else {
            prev.push(pending.last().0)
        }
    }
}

/// A vector field coalesced over calls: their values one after the other,
/// so that the last `axis count` values are those of the last call.
pub open spec fn coalesced_values(calls: Seq<ClientCommand>, f: VectorField) -> Seq<u32>
    decreases calls.len(),
{
    if calls.len() == 0 {
        seq![]
    } else {
        coalesced_values(calls.drop_last(), f) + field_values(calls.last(), f)
    }
}

/// The emergency stop of the last call that sets one.
pub open spec fn last_emergency_stop(calls: Seq<ClientCommand>) -> Option<bool>
    decreases calls.len(),
{
    if calls.len() == 0 {
        None
    } else {
        match calls.last() {
            ClientCommand::EmergencyStop(b) => Some(b),
            _ => last_emergency_stop(calls.drop_last()),
        }
    }
}

/// The compliancy of the last call that sets one.
pub open spec fn last_compliancy(calls: Seq<ClientCommand>) -> Option<bool>
    decreases calls.len(),
{
    if calls.len() == 0 {
        None
    } else {
        match calls.last() {
            ClientCommand::Compliancy(b) => Some(b),
            _ => last_compliancy(calls.drop_last()),
        }
    }
}

/// The mode of the last call that sets one, zero (no change) if none does.
pub open spec fn last_mode(calls: Seq<ClientCommand>) -> i32
    decreases calls.len(),
{
    if calls.len() == 0 {
        0
    } else {
        match calls.last() {
            ClientCommand::ModeOfOperation(m) => m as i32,
            _ => last_mode(calls.drop_last()),
        }
    }
}

/// The command record that coalesces a slave's calls, stamped `now_us`.
pub open spec fn coalesced(cmd: Command, id: u16, calls: Seq<ClientCommand>, now_us: u64) -> bool {
    &&& cmd.id == id as i32
    &&& cmd.emergency_stop == last_emergency_stop(calls)
    &&& cmd.compliancy == last_compliancy(calls)
    &&& cmd.mode_of_operation == last_mode(calls)
    &&& cmd.target_position@ == coalesced_values(calls, VectorField::TargetPosition)
    &&& cmd.target_velocity@ == coalesced_values(calls, VectorField::TargetVelocity)
    &&& cmd.target_torque@ == coalesced_values(calls, VectorField::TargetTorque)
    &&& cmd.velocity_limit@ == coalesced_values(calls, VectorField::VelocityLimit)
    &&& cmd.torque_limit@ == coalesced_values(calls, VectorField::TorqueLimit)
    &&& cmd.published_us == Some(now_us)
}

/// The calls that a remote client has queued since the last send, in order.
#[derive(Debug)]
pub struct CommandBuffer {
    pub pending: Vec<(u16, ClientCommand)>,
}

fn append_values(dst: &mut Vec<u32>, src: &Vec<u32>)
    ensures
        final(dst)@ == old(dst)@ + src@,
{
    let ghost start = dst@;
    let mut k: usize = 0;
    while k < src.len()
        invariant
            k <= src@.len(),
            dst@ == start + src@.subrange(0, k as int),
        decreases src@.len() - k,
    {
        dst.push(src[k]);
        proof {
            assert(start + src@.subrange(0, k + 1) =~= (start + src@.subrange(0, k as int)).push(
                src@[k as int],
            ));
        }
        k = k + 1;
    }
    proof {
        assert(src@.subrange(0, k as int) =~= src@);
    }
}

fn contains_id(ids: &Vec<u16>, id: u16) -> (r: bool)
    ensures
        r == ids@.contains(id),
{
    let mut k: usize = 0;
    while k < ids.len()
        invariant
            k <= ids@.len(),
            forall|j: int| 0 <= j < k ==> ids@[j] != id,
        decreases ids@.len() - k,
    {
        if ids[k] == id {
            return true;
        }
        k = k + 1;
    }
    false
}

fn coalesce_for(pending: &Vec<(u16, ClientCommand)>, id: u16, now_us: u64) -> (r: Command)
    ensures
        coalesced(r, id, calls_for(pending@, id), now_us),
{
    let mut cmd = Command {
        id: id as i32,
        emergency_stop: None,
        compliancy: None,
        mode_of_operation: 0,
        target_position: Vec::new(),
        target_velocity: Vec::new(),
        target_torque: Vec::new(),
        velocity_limit: Vec::new(),
        torque_limit: Vec::new(),
        published_us: Some(now_us),
    };
    let mut k: usize = 0;
    while k < pending.len()
        invariant
            k <= pending@.len(),
            coalesced(cmd, id, calls_for(pending@.subrange(0, k as int), id), now_us),
        decreases pending@.len() - k,
    {
        let ghost prev_calls = calls_for(pending@.subrange(0, k as int), id);
        proof {
            let next = pending@.subrange(0, k + 1);
            assert(next.drop_last() =~= pending@.subrange(0, k as int));
            assert(next.last() == pending@[k as int]);
        }
        let entry = &pending[k];
        if entry.0 == id {
            let ghost calls = prev_calls.push(entry.1);
            proof {
                assert(calls.drop_last() =~= prev_calls);
            }
            match &entry.1 {
                ClientCommand::EmergencyStop(b) => {
                    cmd.emergency_stop = Some(*b);
                },
                ClientCommand::Compliancy(b) => {
                    cmd.compliancy = Some(*b);
                },
                ClientCommand::ModeOfOperation(m) => {
                    cmd.mode_of_operation = *m as i32;
                },
                ClientCommand::TargetPosition(v) => {
                    append_values(&mut cmd.target_position, v);
                },
                ClientCommand::TargetVelocity(v) => {
                    append_values(&mut cmd.target_velocity, v);
                },
                ClientCommand::TargetTorque(v) => {
                    append_values(&mut cmd.target_torque, v);
                },
                ClientCommand::VelocityLimit(v) => {
                    append_values(&mut cmd.velocity_limit, v);
                },
                ClientCommand::TorqueLimit(v) => {
                    append_values(&mut cmd.torque_limit, v);
                },
            }
            proof {
                assert(cmd.target_position@ =~= coalesced_values(calls, VectorField::TargetPosition));
                assert(cmd.target_velocity@ =~= coalesced_values(calls, VectorField::TargetVelocity));
                assert(cmd.target_torque@ =~= coalesced_values(calls, VectorField::TargetTorque));
                assert(cmd.velocity_limit@ =~= coalesced_values(calls, VectorField::VelocityLimit));
                assert(cmd.torque_limit@ =~= coalesced_values(calls, VectorField::TorqueLimit));
            }
        }
        k = k + 1;
    }
    proof {
        assert(pending@.subrange(0, k as int) =~= pending@);
    }
    cmd
}

impl CommandBuffer {
    pub fn new() -> (r: CommandBuffer)
        ensures
            r.pending@.len() == 0,
    {
        CommandBuffer { pending: Vec::new() }
    }

    /// Queues a setter call for a slave, without blocking.
    pub fn push_command(&mut self, slave_id: u16, command: ClientCommand)
        ensures
            final(self).pending@ == old(self).pending@.push((slave_id, command)),
    {
        self.pending.push((slave_id, command));
    }

    /// Takes every queued call out of the buffer and coalesces them into one
    /// command record per slave, stamped `now_us`, slaves in the order of
    /// their first call; `None` when nothing is queued.
    pub fn extract_commands(&mut self, now_us: u64) -> (r: Option<Vec<Command>>)
        ensures
            final(self).pending@.len() == 0,
            old(self).pending@.len() == 0 <==> r is None,
            r matches Some(cmds) ==> cmds@.len() == slaves_in(old(self).pending@).len() && forall|k: int|
                0 <= k < cmds@.len() ==> coalesced(
                    #[trigger] cmds@[k],
                    slaves_in(old(self).pending@)[k],
                    calls_for(old(self).pending@, slaves_in(old(self).pending@)[k]),
                    now_us,
                ),
    {
        if self.pending.len() == 0 {
            return None;
        }
        let ghost all = self.pending@;
        let mut ids: Vec<u16> = Vec::new();
        let mut k: usize = 0;
        while k < self.pending.len()
            invariant
                all == self.pending@,
                k <= all.len(),
                ids@ == slaves_in(all.subrange(0, k as int)),
            decreases all.len() - k,
        {
            proof {
                let next = all.subrange(0, k + 1);
                assert(next.drop_last() =~= all.subrange(0, k as int));
                assert(next.last() == all[k as int]);
            }
            let id = self.pending[k].0;
            if !contains_id(&ids, id) {
                ids.push(id);
            }
            k = k + 1;
        }
        proof {
            assert(all.subrange(0, k as int) =~= all);
        }
        let mut cmds: Vec<Command> = Vec::new();
        let mut j: usize = 0;
        while j < ids.len()
            invariant
                all == self.pending@,
                ids@ == slaves_in(all),
                j <= ids@.len(),
                cmds@.len() == j,
                forall|i: int|
                    0 <= i < j ==> coalesced(
                        #[trigger] cmds@[i],
                        ids@[i],
                        calls_for(all, ids@[i]),
                        now_us,
                    ),
            decreases ids@.len() - j,
        {
            let c = coalesce_for(&self.pending, ids[j], now_us);
            cmds.push(c);
            j = j + 1;
        }
        proof {
            lemma_slaves_in_nonempty(all);
        }
        self.pending = Vec::new();
        Some(cmds)
    }
}

proof fn lemma_slaves_in_nonempty(pending: Seq<(u16, ClientCommand)>)
    ensures
        pending.len() > 0 ==> slaves_in(pending).len() > 0,
    decreases pending.len(),
{
    if pending.len() > 0 {
        lemma_slaves_in_nonempty(pending.drop_last());
    }
}

/// Age in microseconds beyond which a received state counts as stale.
pub const STATE_MAX_AGE_US: u64 = 1_000_000;

/// Why a client getter fails.
#[derive(Debug, Clone, Copy, PartialEq, Eq, Structural)]
pub enum ClientError {
    /// No state was received for the slave.
    NoState,
    /// The latest state is older than one second: the server may be down.
    Stale,
}

/// Whether a state published at `published_us` may still be served at
/// `now_us`; a state without a publish time is served.
pub fn check_state_age(now_us: u64, published_us: Option<u64>) -> (r: Result<(), ClientError>)
    ensures
        r == (match published_us {
            Some(t) => if now_us >= t && now_us - t > STATE_MAX_AGE_US {
                Err(ClientError::Stale)
            } else {
                Ok(())
            },
            None => Ok(()),
        }),
{
    match published_us {
        Some(t) => if now_us >= t && now_us - t > STATE_MAX_AGE_US {
            Err(ClientError::Stale)
        } else {
            Ok(())
        },
        None => Ok(()),
    }
}

/// Whether every slave a client asks for is among those the server offers.
pub fn check_ids_available(requested: &Vec<u16>, available: &Vec<u16>) -> (r: bool)
    ensures
        r == forall|i: int| 0 <= i < requested@.len() ==> available@.contains(#[trigger] requested@[i]),
{
    let mut i: usize = 0;
    while i < requested.len()
        invariant
            i <= requested@.len(),
            forall|j: int| 0 <= j < i ==> available@.contains(#[trigger] requested@[j]),
        decreases requested@.len() - i,
    {
        if !contains_id(available, requested[i]) {
            return false;
        }
        i = i + 1;
    }
    true
}

} // verus!
