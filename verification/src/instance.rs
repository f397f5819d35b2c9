//! Identity of one process within a run.

use vstd::prelude::*;

verus! {

/// What a process does in the scenario.
#[derive(Clone, Copy, Debug, PartialEq, Eq, Structural)]
pub enum Role {
    /// Holds ordinal 1: performs the connection fan-out and the address
    /// measurement.
    Coordinator,
    /// Every other process: exchanges its identity and passes the barriers.
    Participant,
}

/// The ordinal that makes a process the coordinator.
pub const COORDINATOR_SEQ: u64 = 1;

/// The role that belongs to an ordinal.
pub open spec fn role_of(seq: u64) -> Role {
    if seq == COORDINATOR_SEQ {
        Role::Coordinator
    } else {
        Role::Participant
    }
}

/// What one process publishes about itself: its ordinal within the run and
/// its identity record. The record is opaque here; only the ordinal is read.
#[derive(Clone, Debug)]
pub struct InstanceInfo<R> {
    /// The ordinal of this process within the run.
    pub seq: u64,
    /// The identity record peers use to address this process.
    pub record: R,
}

impl<R> InstanceInfo<R> {
    /// Binds an allocated ordinal to an identity record.
    pub fn new(seq: u64, record: R) -> (info: Self)
        ensures
            info.seq == seq,
            info.record == record,
    {
        InstanceInfo { seq, record }
    }

    /// The role of this process.
    pub open spec fn spec_role(&self) -> Role {
        role_of(self.seq)
    }

    /// The role of this process: coordinator exactly for ordinal 1.
    #[verifier::when_used_as_spec(spec_role)]
    pub fn role(&self) -> (r: Role)
        ensures
            r == role_of(self.seq),
    {
        if self.seq == COORDINATOR_SEQ {
            Role::Coordinator
        } else {
            Role::Participant
        }
    }

    /// Whether this process is the coordinator of the run.
    pub fn is_coordinator(&self) -> (b: bool)
        ensures
            b <==> self.seq == COORDINATOR_SEQ,
            b <==> role_of(self.seq) == Role::Coordinator,
    {
        self.seq == COORDINATOR_SEQ
    }
}

/// Whether a record is that of another process than the one with ordinal
/// `own`.
pub open spec fn is_other<R>(own: u64) -> spec_fn(InstanceInfo<R>) -> bool {
    |info: InstanceInfo<R>| info.seq != own
}

/// The records a process works with after the exchange: those of the other
/// processes, that is every collected record whose ordinal differs from its
/// own, in the order of arrival.
pub open spec fn without_seq<R>(infos: Seq<InstanceInfo<R>>, own: u64) -> Seq<InstanceInfo<R>> {
    infos.filter(is_other(own))
}

/// What `without_seq` keeps: no record with the own ordinal is left, however
/// often it was collected, and every other record stays.
pub proof fn lemma_without_seq<R>(infos: Seq<InstanceInfo<R>>, own: u64)
    ensures
        without_seq(infos, own).len() <= infos.len(),
        forall|i: int|
            0 <= i < without_seq(infos, own).len() ==> (#[trigger] without_seq(infos, own)[i]).seq
                != own,
        forall|i: int|
            0 <= i < infos.len() && (#[trigger] infos[i]).seq != own ==> without_seq(
                infos,
                own,
            ).contains(infos[i]),
    decreases infos.len(),
{
    reveal(Seq::filter);
    let kept = without_seq(infos, own);
    if infos.len() > 0 {
        let shorter = infos.drop_last();
        lemma_without_seq(shorter, own);
        let before = without_seq(shorter, own);
        assert forall|i: int| 0 <= i < infos.len() && (#[trigger] infos[i]).seq
            != own implies kept.contains(infos[i]) by {
            if i < shorter.len() {
                assert(shorter[i] == infos[i]);
                let k = choose|k: int| 0 <= k < before.len() && before[k] == shorter[i];
                assert(kept[k] == infos[i]);
            } else {
                assert(kept[kept.len() - 1] == infos[i]);
            }
        }
    }
}

/// Removes the caller's own entries from a collected set of records.
///
/// Every record whose ordinal equals `own_seq` is dropped, also where it
/// arrived more than once; the others come back in the order of arrival.
pub fn exclude_self<R>(infos: Vec<InstanceInfo<R>>, own_seq: u64) -> (others: Vec<InstanceInfo<R>>)
    ensures
        others@ == without_seq(infos@, own_seq),
{
    let mut infos = infos;
    let ghost before = infos@;
    let ghost done: int = 0;
    let mut at: usize = 0;
    proof {
        reveal(Seq::filter);
        assert(before.take(0) == Seq::<InstanceInfo<R>>::empty());
        assert(before.skip(0) == before);
        assert(Seq::<InstanceInfo<R>>::empty() + before == before);
    }
    while at < infos.len()
        invariant
            0 <= done <= before.len(),
            at == without_seq(before.take(done), own_seq).len(),
            infos@ == without_seq(before.take(done), own_seq) + before.skip(done),
        decreases before.len() - done,
    {
        proof {
            reveal(Seq::filter);
            assert(done < before.len());
            assert(infos@[at as int] == before.skip(done)[0]);
            assert(before.take(done + 1).drop_last() == before.take(done));
            assert(before.take(done + 1).last() == before[done]);
        }
        let ghost kept = without_seq(before.take(done), own_seq);
        if infos[at].seq == own_seq {
            infos.remove(at);
            proof {
                assert(infos@ == kept + before.skip(done + 1));
            }
        } else {
            at += 1;
            proof {
                assert(infos@ == kept.push(before[done]) + before.skip(done + 1));
            }
        }
        proof {
            done = done + 1;
        }
    }
    proof {
        assert(before.skip(done).len() == 0);
        assert(before.take(done) == before);
        assert(infos@ == without_seq(before, own_seq));
    }
    infos
}

} // verus!
