//! The per-epoch consensus state machine: epoch bookkeeping, the sync
//! certificate flow, proposal and voting, commit and beacon emission.

use vstd::prelude::*;

use crate::config::Epoch;
use crate::config::Height;
use crate::config::Node;
use crate::config::Replica;
use crate::crypto::ED_SK_BYTES;
use crate::crypto::spec_ed_pk;
use crate::crypto::spec_sha256;
use crate::crypto::sha256;
use crate::crypto::ed_sign;
use crate::events::Event;
use crate::msg::Certificate;
use crate::msg::MsgBuf;
use crate::msg::OutMsg;
use crate::msg::ProtocolMsg;
use crate::msg::Proof;
use crate::msg::SyncCertData;
use crate::msg::SyncCertProposal;
use crate::msg::Vote;
use crate::msg::spec_cert_valid;
use crate::msg::spec_higher;
use crate::pvss::AggregatePVSS;
use crate::pvss::Decryption;
use crate::pvss::PVSSVec;
use crate::pvss::PvssContext;
use crate::pvss::byte_views;
use crate::pvss::clone_bytes;
use crate::sched::EventQueue;
use crate::codec::enc_u64;
use crate::codec::spec_enc_u64;
use crate::pvss::append_bytes;

verus! {

/// Flags that live for one epoch and are cleared by `epoch_reset`.
#[derive(Debug, PartialEq, Eq, Structural, Clone, Copy)]
pub struct RoundContext {
    pub stop_accepting_sync_certs: bool,
    pub received_sync_cert_directly: bool,
    pub committed_this_epoch: bool,
    pub proposed_this_epoch: bool,
}

/// Why the state machine refused an input.
#[derive(Debug, PartialEq, Eq, Structural, Clone, Copy)]
pub enum ProtoError {
    /// the message did not come from the epoch's leader
    WrongLeader,
    /// the message speaks about another epoch
    WrongEpoch,
    /// the message arrived after its acceptance deadline
    TooLate,
    /// a signature, certificate or PVSS check failed
    InvalidCert,
    /// not enough material collected yet
    NotReady,
}

/// The epoch timer never runs out of tick headroom within the protocol's
/// epoch bound.
proof fn lemma_timer_headroom(e: u64, t: u64)
    requires
        e <= 0x0400_0000u64,
        t <= 11 * 0xffff_ffff * (e + 1),
    ensures
        t + 11 * 0xffff_ffff <= u64::MAX,
        t + 11 * 0xffff_ffff <= 11 * 0xffff_ffff * (e + 2),
{
    assert(t + 11 * 0xffff_ffff <= 11 * 0xffff_ffff * (e + 2) && 11 * 0xffff_ffff * (e + 2)
        <= 11 * 0xffff_ffff * (0x0400_0000u64 + 2)) by (nonlinear_arith)
        requires
            e <= 0x0400_0000u64,
            t <= 11 * 0xffff_ffff * (e + 1),
    ;
}

/// The state a replica carries across and within epochs.
pub struct Context {
    pub config: Node,
    pub pvss_ctx: PvssContext,
    /// Ed25519 signing key for votes.
    pub my_vote_sk: Vec<u8>,
    /// every replica's vote-verification key
    pub vote_pks: Vec<Vec<u8>>,
    pub epoch: Epoch,
    /// absolute time at which the current epoch ends
    pub epoch_timer: u64,
    pub last_leader: Replica,
    pub last_leader_epoch: Epoch,
    /// the highest certified vote seen, with its certificate (persists
    /// across epochs)
    pub highest_cert: Certificate,
    pub highest_cert_vote: Vote,
    pub highest_height: Height,
    /// dealings collected for the next proposal (leader only)
    pub pvss_shares: Vec<PVSSVec>,
    pub pvss_indices: Vec<Replica>,
    pub rnd_ctx: RoundContext,
    /// sync certificates accepted, by epoch
    pub sync_cert_store: Vec<(Vote, Certificate)>,
    /// decryption shares of the current epoch, one slot per replica
    pub decryption_shares: Vec<Option<Decryption>>,
    /// the aggregate of the proposal accepted this epoch
    pub current_agg: Option<AggregatePVSS>,
    /// the hash of the block proposed or accepted this epoch
    pub current_block_hash: Option<Vec<u8>>,
    /// votes of the current epoch
    pub votes_received: Vec<Vote>,
    /// the commit log: `(epoch, block hash)`
    pub committed: Vec<(Epoch, Vec<u8>)>,
    /// the beacon log: `(epoch, beacon value)`
    pub beacons: Vec<(Epoch, Vec<u8>)>,
    /// two conflicting proposals from the leader were observed this epoch
    pub equivocation_seen: bool,
}

impl Context {
    /// Structural validity: consistent committee sizes, a vote key that
    /// matches this replica's published key, and headroom on the counters
    /// the protocol increments.
    pub open spec fn wf(self) -> bool {
        &&& self.config.wf()
        &&& self.vote_pks@.len() == self.config.num_nodes
        &&& self.my_vote_sk@.len() == ED_SK_BYTES
        &&& spec_ed_pk(self.my_vote_sk@) == self.vote_pks@[self.config.id as int]@
        &&& self.pvss_ctx.spec_n() == self.config.num_nodes
        &&& self.epoch <= 0x0400_0000u64
        &&& self.highest_height < 0xffff_ffff_0000_0000u64
        &&& self.epoch_timer <= 11 * 0xffff_ffff * (self.epoch + 1)
        &&& self.spec_votes_ok()
    }

    /// One collected vote: for this epoch and this epoch's block, by an
    /// in-range voter, validly signed.
    pub open spec fn spec_vote_entry_ok(self, v: Vote) -> bool {
        &&& v.epoch == self.epoch
        &&& v.voter < self.config.num_nodes
        &&& crate::crypto::spec_ed_valid(
            byte_views(self.vote_pks@)[v.voter as int],
            v.spec_signed_bytes(),
            v.signature@,
        )
        &&& (self.current_block_hash matches Some(h) ==> v.block_hash@ == h@)
    }

    /// The collected votes all certify this epoch's block, with pairwise
    /// distinct voters; none are collected before a block is known.
    pub open spec fn spec_votes_ok(self) -> bool {
        &&& (self.current_block_hash is None ==> self.votes_received@.len() == 0)
        &&& (forall|j: int|
            0 <= j < self.votes_received@.len() ==> self.spec_vote_entry_ok(
                #[trigger] self.votes_received@[j],
            ))
        &&& (forall|j1: int, j2: int|
            0 <= j1 < j2 < self.votes_received@.len() ==> self.votes_received@[j1].voter
                != self.votes_received@[j2].voter)
    }

    /// The committee's vote quorum: `f + 1`.
    pub open spec fn spec_quorum(self) -> int {
        self.config.spec_num_faults() + 1
    }

    /// The leader of the current epoch.
    pub fn leader(&self) -> (l: Replica)
        requires
            self.wf(),
        ensures
            l == self.config.spec_leader_of(self.epoch),
            l < self.config.num_nodes,
    {
        self.config.leader_of(self.epoch)
    }

    /// What `epoch_reset` leaves behind: the per-epoch material cleared,
    /// everything that outlives an epoch untouched.
    pub open spec fn spec_is_reset_of(pre: Context, post: Context) -> bool {
        &&& post.rnd_ctx == (RoundContext {
            stop_accepting_sync_certs: false,
            received_sync_cert_directly: false,
            committed_this_epoch: false,
            proposed_this_epoch: false,
        })
        &&& post.decryption_shares@.len() == pre.config.num_nodes
        &&& (forall|i: int|
            0 <= i < post.decryption_shares@.len() ==> (#[trigger] post.decryption_shares@[i])
                is None)
        &&& post.current_agg is None
        &&& post.current_block_hash is None
        &&& post.votes_received@.len() == 0
        &&& post.pvss_shares@.len() == 0
        &&& post.pvss_indices@.len() == 0
        &&& post.equivocation_seen == false
        &&& post.config == pre.config
        &&& post.pvss_ctx == pre.pvss_ctx
        &&& post.my_vote_sk == pre.my_vote_sk
        &&& post.vote_pks == pre.vote_pks
        &&& post.epoch == pre.epoch
        &&& post.epoch_timer == pre.epoch_timer
        &&& post.last_leader == pre.last_leader
        &&& post.last_leader_epoch == pre.last_leader_epoch
        &&& post.highest_cert == pre.highest_cert
        &&& post.highest_cert_vote == pre.highest_cert_vote
        &&& post.highest_height == pre.highest_height
        &&& post.sync_cert_store == pre.sync_cert_store
        &&& post.committed == pre.committed
        &&& post.beacons == pre.beacons
    }

    /// Clear all per-epoch state.
    pub fn epoch_reset(&mut self)
        requires
            old(self).wf(),
        ensures
            Context::spec_is_reset_of(*old(self), *final(self)),
            final(self).wf(),
    {
        self.rnd_ctx = RoundContext {
            stop_accepting_sync_certs: false,
            received_sync_cert_directly: false,
            committed_this_epoch: false,
            proposed_this_epoch: false,
        };
        let n = self.config.num_nodes;
        let mut shares: Vec<Option<Decryption>> = Vec::new();
        let mut i: usize = 0;
        while i < n
            invariant
                i <= n,
                shares@.len() == i,
                forall|j: int| 0 <= j < i ==> (#[trigger] shares@[j]) is None,
            decreases n - i,
        {
            shares.push(None);
            i += 1;
        }
        self.decryption_shares = shares;
        self.current_agg = None;
        self.current_block_hash = None;
        self.votes_received = Vec::new();
        self.pvss_shares = Vec::new();
        self.pvss_indices = Vec::new();
        self.equivocation_seen = false;
    }

    /// Resetting twice leaves the state that one reset left: the fields a
    /// reset touches are pinned by `spec_is_reset_of` independently of the
    /// state it starts from, and the fields it carries are carried again.
    pub proof fn lemma_epoch_reset_idempotent(s0: Context, s1: Context, s2: Context)
        requires
            Context::spec_is_reset_of(s0, s1),
            Context::spec_is_reset_of(s1, s2),
        ensures
            s2.rnd_ctx == s1.rnd_ctx,
            s2.decryption_shares@.len() == s1.decryption_shares@.len(),
            forall|i: int|
                0 <= i < s2.decryption_shares@.len() ==> s2.decryption_shares@[i]
                    == s1.decryption_shares@[i],
            s2.current_agg == s1.current_agg,
            s2.current_block_hash == s1.current_block_hash,
            s2.votes_received@.len() == s1.votes_received@.len(),
            s2.pvss_shares@.len() == s1.pvss_shares@.len(),
            s2.pvss_indices@.len() == s1.pvss_indices@.len(),
            s2.equivocation_seen == s1.equivocation_seen,
            s2.config == s1.config,
            s2.pvss_ctx == s1.pvss_ctx,
            s2.my_vote_sk == s1.my_vote_sk,
            s2.vote_pks == s1.vote_pks,
            s2.epoch == s1.epoch,
            s2.epoch_timer == s1.epoch_timer,
            s2.last_leader == s1.last_leader,
            s2.last_leader_epoch == s1.last_leader_epoch,
            s2.highest_cert == s1.highest_cert,
            s2.highest_cert_vote == s1.highest_cert_vote,
            s2.highest_height == s1.highest_height,
            s2.sync_cert_store == s1.sync_cert_store,
            s2.committed == s1.committed,
            s2.beacons == s1.beacons,
    {
        assert(forall|i: int|
            0 <= i < s2.decryption_shares@.len() ==> (#[trigger] s2.decryption_shares@[i]) is None
                && s1.decryption_shares@[i] is None);
    }

    /// Replace `highest_cert` exactly when the new certified vote is
    /// lexicographically higher in `(epoch, height)`; the tracked pair
    /// never decreases.
    pub fn update_highest_cert(&mut self, v: Vote, c: Certificate)
        requires
            old(self).wf(),
            v.height < 0xffff_ffff_0000_0000u64,
        ensures
            final(self).wf(),
            spec_higher(
                v.epoch,
                v.height,
                old(self).highest_cert_vote.epoch,
                old(self).highest_cert_vote.height,
            ) ==> (final(self).highest_cert_vote == v && final(self).highest_cert == c
                && final(self).highest_height == v.height),
            !spec_higher(
                v.epoch,
                v.height,
                old(self).highest_cert_vote.epoch,
                old(self).highest_cert_vote.height,
            ) ==> (final(self).highest_cert_vote == old(self).highest_cert_vote
                && final(self).highest_cert == old(self).highest_cert
                && final(self).highest_height == old(self).highest_height),
            // monotonicity: the certified (epoch, height) pair never goes down
            final(self).highest_cert_vote.epoch > old(self).highest_cert_vote.epoch
                || (final(self).highest_cert_vote.epoch == old(self).highest_cert_vote.epoch
                && final(self).highest_cert_vote.height
                >= old(self).highest_cert_vote.height),
            final(self).epoch == old(self).epoch,
            final(self).config == old(self).config,
            final(self).rnd_ctx == old(self).rnd_ctx,
            final(self).committed == old(self).committed,
            final(self).sync_cert_store == old(self).sync_cert_store,
            final(self).decryption_shares == old(self).decryption_shares,
            final(self).current_agg == old(self).current_agg,
            final(self).current_block_hash == old(self).current_block_hash,
            final(self).votes_received == old(self).votes_received,
            final(self).pvss_shares == old(self).pvss_shares,
            final(self).pvss_indices == old(self).pvss_indices,
            final(self).equivocation_seen == old(self).equivocation_seen,
            final(self).my_vote_sk == old(self).my_vote_sk,
            final(self).vote_pks == old(self).vote_pks,
            final(self).pvss_ctx == old(self).pvss_ctx,
            final(self).epoch_timer == old(self).epoch_timer,
            final(self).last_leader == old(self).last_leader,
            final(self).last_leader_epoch == old(self).last_leader_epoch,
            final(self).beacons == old(self).beacons,
    {
        if v.higher_than(self.highest_cert_vote.epoch, self.highest_cert_vote.height) {
            self.highest_height = v.height;
            self.highest_cert_vote = v;
            self.highest_cert = c;
        }
    }

    /// The broadcast form of a sync certificate message.
    pub fn new_sync_cert_msg(&self, prop: SyncCertProposal, pf: Proof) -> (r: OutMsg)
        ensures
            r.0 == self.config.num_nodes,
            r.1 == ProtocolMsg::SyncCert(prop, pf),
    {
        (self.config.num_nodes, ProtocolMsg::SyncCert(prop, pf))
    }

    /// Mark the epoch as no longer accepting sync certificates; refused for
    /// any epoch but the current one.
    pub fn stop_accepting_sync_certs(&mut self, e: Epoch) -> (r: Result<(), ProtoError>)
        requires
            old(self).wf(),
        ensures
            final(self).wf(),
            r.is_ok() <==> e == old(self).epoch,
            r.is_ok() ==> final(self).rnd_ctx == (RoundContext {
                stop_accepting_sync_certs: true,
                ..old(self).rnd_ctx
            }) && Context::spec_frame_except_rnd(*old(self), *final(self)),
            !r.is_ok() ==> *final(self) == *old(self) && r == Err::<(), ProtoError>(
                ProtoError::WrongEpoch,
            ),
    {
        if e != self.epoch {
            return Err(ProtoError::WrongEpoch);
        }
        self.rnd_ctx.stop_accepting_sync_certs = true;
        Ok(())
    }

    /// Everything outside the round flags is untouched.
    pub open spec fn spec_frame_except_rnd(pre: Context, post: Context) -> bool {
        &&& post.config == pre.config
        &&& post.pvss_ctx == pre.pvss_ctx
        &&& post.my_vote_sk == pre.my_vote_sk
        &&& post.vote_pks == pre.vote_pks
        &&& post.epoch == pre.epoch
        &&& post.epoch_timer == pre.epoch_timer
        &&& post.last_leader == pre.last_leader
        &&& post.last_leader_epoch == pre.last_leader_epoch
        &&& post.highest_cert == pre.highest_cert
        &&& post.highest_cert_vote == pre.highest_cert_vote
        &&& post.highest_height == pre.highest_height
        &&& post.pvss_shares == pre.pvss_shares
        &&& post.pvss_indices == pre.pvss_indices
        &&& post.sync_cert_store == pre.sync_cert_store
        &&& post.decryption_shares == pre.decryption_shares
        &&& post.current_agg == pre.current_agg
        &&& post.current_block_hash == pre.current_block_hash
        &&& post.votes_received == pre.votes_received
        &&& post.committed == pre.committed
        &&& post.beacons == pre.beacons
        &&& post.equivocation_seen == pre.equivocation_seen
    }

    /// The certified `(epoch, height)` pair never decreases.
    pub open spec fn spec_highest_monotone(pre: Context, post: Context) -> bool {
        post.highest_cert_vote.epoch > pre.highest_cert_vote.epoch || (
        post.highest_cert_vote.epoch == pre.highest_cert_vote.epoch
            && post.highest_cert_vote.height >= pre.highest_cert_vote.height)
    }

    /// Monotonicity composes: across any chain of state steps the
    /// certified `(epoch, height)` pair never decreases.
    pub proof fn lemma_highest_monotone_trans(a: Context, b: Context, c: Context)
        requires
            Context::spec_highest_monotone(a, b),
            Context::spec_highest_monotone(b, c),
        ensures
            Context::spec_highest_monotone(a, c),
    {
    }

    /// A sync certificate the state machine accepts: sent by the epoch's
    /// leader, about the current epoch, in time, carrying a vote
    /// certificate by `f + 1` distinct replicas over the vote's bytes, and
    /// a leader-signed delivery digest of those bytes.
    pub open spec fn spec_sync_cert_acceptable(
        self,
        from: Replica,
        prop: SyncCertProposal,
        pf: Proof,
    ) -> bool {
        &&& from == self.config.spec_leader_of(self.epoch)
        &&& prop.data.vote.epoch == self.epoch
        &&& !self.rnd_ctx.stop_accepting_sync_certs
        &&& prop.data.cert.msg@ == prop.data.vote.spec_signed_bytes()
        &&& spec_cert_valid(prop.data.cert, byte_views(self.vote_pks@), self.spec_quorum())
        &&& pf.acc@ == spec_sha256(prop.data.vote.spec_signed_bytes())
        &&& pf.sign.msg@ == spec_enc_u64(self.epoch) + pf.acc@
        &&& spec_cert_valid(pf.sign, byte_views(self.vote_pks@), 1)
        &&& pf.sign.signers@.len() >= 1
        &&& pf.sign.signers@[0] == from
    }

    /// Accept or refuse a sync certificate; succeeds exactly on acceptable
    /// ones, and the error names the first check that failed.
    pub fn verify_sync_cert(&self, from: Replica, prop: &SyncCertProposal, pf: &Proof) -> (r:
        Result<(), ProtoError>)
        requires
            self.wf(),
        ensures
            r.is_ok() <==> self.spec_sync_cert_acceptable(from, *prop, *pf),
            r == Err::<(), ProtoError>(ProtoError::WrongLeader) ==> from
                != self.config.spec_leader_of(self.epoch),
            r == Err::<(), ProtoError>(ProtoError::WrongEpoch) ==> prop.data.vote.epoch
                != self.epoch,
            r == Err::<(), ProtoError>(ProtoError::TooLate)
                ==> self.rnd_ctx.stop_accepting_sync_certs,
    {
        if from != self.leader() {
            return Err(ProtoError::WrongLeader);
        }
        if prop.data.vote.epoch != self.epoch {
            return Err(ProtoError::WrongEpoch);
        }
        if self.rnd_ctx.stop_accepting_sync_certs {
            return Err(ProtoError::TooLate);
        }
        let sb = prop.data.vote.signed_bytes();
        if !crate::crypto::bytes_eq(&prop.data.cert.msg, &sb) {
            return Err(ProtoError::InvalidCert);
        }
        let q = self.config.num_faults() + 1;
        if !prop.data.cert.verify(&self.vote_pks, q) {
            return Err(ProtoError::InvalidCert);
        }
        let acc2 = sha256(&sb);
        if !crate::crypto::bytes_eq(&pf.acc, &acc2) {
            return Err(ProtoError::InvalidCert);
        }
        let mut smsg: Vec<u8> = Vec::new();
        enc_u64(&mut smsg, self.epoch);
        append_bytes(&mut smsg, &pf.acc);
        if !crate::crypto::bytes_eq(&pf.sign.msg, &smsg) {
            return Err(ProtoError::InvalidCert);
        }
        if !pf.sign.verify(&self.vote_pks, 1) {
            return Err(ProtoError::InvalidCert);
        }
        if !(pf.sign.signers.len() >= 1 && pf.sign.signers[0] == from) {
            return Err(ProtoError::InvalidCert);
        }
        Ok(())
    }

    /// React to a sync certificate that passed `verify_sync_cert`: deliver
    /// it onward, arm the commit timer two delays out, raise `highest_cert`
    /// if the certified vote is higher, and store the certificate.
    pub fn on_verified_sync_cert(
        &mut self,
        prop: SyncCertProposal,
        pf: Proof,
        ev_queue: &mut EventQueue,
        msg_buf: &mut MsgBuf,
    ) -> (r: Result<(), ProtoError>)
        requires
            old(self).wf(),
            prop.data.vote.height < 0xffff_ffff_0000_0000u64,
        ensures
            final(self).wf(),
            r.is_ok(),
            final(self).rnd_ctx.received_sync_cert_directly == true,
            final(self).rnd_ctx.stop_accepting_sync_certs
                == old(self).rnd_ctx.stop_accepting_sync_certs,
            final(self).epoch == old(self).epoch,
            final(self).committed == old(self).committed,
            // the certificate is delivered onward, broadcast
            final(msg_buf).msgs@.len() == old(msg_buf).msgs@.len() + 1,
            final(msg_buf).msgs@.last().0 == old(self).config.num_nodes,
            (final(msg_buf).msgs@.last().1 matches ProtocolMsg::Deliver(e, b)
                && e == old(self).epoch && b@ == pf.acc@),
            // the commit timer is armed two delays out
            final(ev_queue).spec_timers().len() == old(ev_queue).spec_timers().len() + 1,
            (final(ev_queue).spec_timers().last().1 matches Event::CommitTimeout(e, h) && e
                == old(self).epoch && h@ == prop.data.vote.block_hash@),
            final(ev_queue).spec_ready() == old(ev_queue).spec_ready(),
            (final(ev_queue).spec_timers().last().0 == crate::sched::spec_deadline(
                old(ev_queue).spec_now(),
                (2 * old(self).config.delta) as u64,
            )),
            // highest-cert update rule, lifted exactly: adopt the certified
            // vote's pair when higher, keep the old one otherwise
            spec_higher(
                prop.data.vote.epoch,
                prop.data.vote.height,
                old(self).highest_cert_vote.epoch,
                old(self).highest_cert_vote.height,
            ) ==> {
                &&& final(self).highest_cert_vote.epoch == prop.data.vote.epoch
                &&& final(self).highest_cert_vote.height == prop.data.vote.height
                &&& final(self).highest_cert_vote.block_hash@ == prop.data.vote.block_hash@
                &&& final(self).highest_height == prop.data.vote.height
                &&& crate::wire::cert_view(final(self).highest_cert) == crate::wire::cert_view(
                    prop.data.cert,
                )
            },
            !spec_higher(
                prop.data.vote.epoch,
                prop.data.vote.height,
                old(self).highest_cert_vote.epoch,
                old(self).highest_cert_vote.height,
            ) ==> (final(self).highest_cert_vote == old(self).highest_cert_vote
                && final(self).highest_cert == old(self).highest_cert
                && final(self).highest_height == old(self).highest_height),
            Context::spec_highest_monotone(*old(self), *final(self)),
            // the accepted vote and certificate are what is stored
            final(self).sync_cert_store@.len() == old(self).sync_cert_store@.len() + 1,
            final(self).sync_cert_store@.last() == (prop.data.vote, prop.data.cert),
    {
        let acc2 = clone_bytes(&pf.acc);
        msg_buf.push_back((self.config.num_nodes, ProtocolMsg::Deliver(self.epoch, acc2)));
        let bh = clone_bytes(&prop.data.vote.block_hash);
        ev_queue.add_timeout(
            Event::CommitTimeout(self.epoch, bh),
            2 * self.config.delta,
        );
        let v2 = prop.data.vote.clone_vote();
        let c2 = prop.data.cert.clone_cert();
        self.update_highest_cert(v2, c2);
        self.sync_cert_store.push((prop.data.vote, prop.data.cert));
        self.rnd_ctx.received_sync_cert_directly = true;
        Ok(())
    }

    /// Build, broadcast and loop back a sync certificate over a certified
    /// vote.  What this emits is exactly what `verify_sync_cert` accepts in
    /// this state, which is the completeness half of the sync-cert flow.
    pub fn propose_sync_cert(
        &self,
        v: Vote,
        c: Certificate,
        ev_queue: &mut EventQueue,
        msg_buf: &mut MsgBuf,
    ) -> (r: Result<(), ProtoError>)
        requires
            self.wf(),
            self.config.id == self.config.spec_leader_of(self.epoch),
            v.epoch == self.epoch,
            !self.rnd_ctx.stop_accepting_sync_certs,
            c.msg@ == v.spec_signed_bytes(),
            spec_cert_valid(c, byte_views(self.vote_pks@), self.spec_quorum()),
        ensures
            r.is_ok(),
            final(msg_buf).msgs@.len() == old(msg_buf).msgs@.len() + 1,
            final(msg_buf).msgs@.last().0 == self.config.num_nodes,
            (final(msg_buf).msgs@.last().1 matches ProtocolMsg::SyncCert(prop, pf)
                && self.spec_sync_cert_acceptable(self.config.id, prop, pf)
                && crate::wire::vote_view(prop.data.vote) == crate::wire::vote_view(v)
                && crate::wire::cert_view(prop.data.cert) == crate::wire::cert_view(c)),
            final(ev_queue).spec_ready().len() == old(ev_queue).spec_ready().len() + 1,
            (final(ev_queue).spec_ready().last() matches Event::Message(from, m) && from
                == self.config.id && (m matches ProtocolMsg::SyncCert(prop, pf)
                && self.spec_sync_cert_acceptable(self.config.id, prop, pf)
                && crate::wire::vote_view(prop.data.vote) == crate::wire::vote_view(v)
                && crate::wire::cert_view(prop.data.cert) == crate::wire::cert_view(c))),
            final(ev_queue).spec_timers() == old(ev_queue).spec_timers(),
    {
        let sb = v.signed_bytes();
        let acc = sha256(&sb);
        let mut smsg: Vec<u8> = Vec::new();
        enc_u64(&mut smsg, self.epoch);
        append_bytes(&mut smsg, &acc);
        let sig = ed_sign(&self.my_vote_sk, &smsg);
        let mut signers: Vec<Replica> = Vec::new();
        signers.push(self.config.id);
        let mut sigs: Vec<Vec<u8>> = Vec::new();
        sigs.push(sig);
        let smsg2 = clone_bytes(&smsg);
        let sign = Certificate { msg: smsg, signers, sigs };
        let sign2 = sign.clone_cert();
        let acc2 = clone_bytes(&acc);
        let v2 = v.clone_vote();
        let c2 = c.clone_cert();
        let prop = SyncCertProposal { data: SyncCertData { vote: v, cert: c } };
        let pf = Proof { acc, sign };
        let prop2 = SyncCertProposal { data: SyncCertData { vote: v2, cert: c2 } };
        let pf2 = Proof { acc: acc2, sign: sign2 };
        proof {
            assert(byte_views(self.vote_pks@)[self.config.id as int] == self.vote_pks@[self.config.id as int]@);
            assert(spec_cert_valid(pf.sign, byte_views(self.vote_pks@), 1));
            assert(self.spec_sync_cert_acceptable(self.config.id, prop, pf));
            assert(pf2.sign.msg@ == smsg2@);
            assert(spec_cert_valid(pf2.sign, byte_views(self.vote_pks@), 1));
            assert(spec_cert_valid(prop2.data.cert, byte_views(self.vote_pks@), self.spec_quorum()));
            assert(self.spec_sync_cert_acceptable(self.config.id, prop2, pf2));
        }
        let m = self.new_sync_cert_msg(prop, pf);
        msg_buf.push_back(m);
        ev_queue.add_event(Event::Message(self.config.id, ProtocolMsg::SyncCert(prop2, pf2)));
        Ok(())
    }

    /// Assemble and broadcast this epoch's proposal from the collected
    /// dealings; fails exactly when the collected set is not an acceptable
    /// aggregation input (fewer than `t + 1` distinct dealers, or a
    /// malformed dealing).
    pub fn do_propose(&mut self, ev_queue: &mut EventQueue, msg_buf: &mut MsgBuf) -> (r: Result<
        (),
        ProtoError,
    >)
        requires
            old(self).wf(),
        ensures
            final(self).wf(),
            r.is_ok() <==> (old(self).current_block_hash is None
                && old(self).pvss_ctx.spec_agg_input_ok(
                old(self).pvss_indices@,
                old(self).pvss_shares@,
            )),
            final(self).epoch == old(self).epoch,
            Context::spec_highest_monotone(*old(self), *final(self)),
            final(self).highest_cert_vote == old(self).highest_cert_vote,
            final(self).committed == old(self).committed,
            r.is_ok() ==> {
                &&& final(self).rnd_ctx.proposed_this_epoch == true
                &&& final(msg_buf).msgs@.len() == old(msg_buf).msgs@.len() + 2
                &&& final(msg_buf).msgs@[old(msg_buf).msgs@.len() as int].0 == old(self).config.num_nodes
                &&& (final(msg_buf).msgs@[old(msg_buf).msgs@.len() as int].1 matches
                    ProtocolMsg::Proposal(e, b, _sig) && e == old(self).epoch && b.height == old(self).highest_height + 1 && b.parent_hash@ == old(self).highest_cert_vote.block_hash@ && old(self).pvss_ctx.spec_agg_correct(
                    old(self).pvss_indices@,
                    old(self).pvss_shares@,
                    b.aggregate,
                    b.decomposition,
                ))
                &&& final(msg_buf).msgs@.last().0 == old(self).config.num_nodes
                &&& (final(msg_buf).msgs@.last().1 matches ProtocolMsg::Vote(v) && v.epoch == old(self).epoch && v.voter == old(self).config.id)
                &&& final(self).current_block_hash is Some
                &&& final(self).current_agg is Some
            },
            !r.is_ok() ==> final(msg_buf).msgs@ == old(msg_buf).msgs@,
            final(ev_queue).spec_timers() == old(ev_queue).spec_timers(),
            final(ev_queue).spec_now() == old(ev_queue).spec_now(),
            !r.is_ok() ==> final(ev_queue).spec_ready() == old(ev_queue).spec_ready(),
            final(self).config == old(self).config,
            final(self).pvss_ctx == old(self).pvss_ctx,
            final(self).my_vote_sk == old(self).my_vote_sk,
            final(self).vote_pks == old(self).vote_pks,
            final(self).epoch_timer == old(self).epoch_timer,
            final(self).last_leader == old(self).last_leader,
            final(self).last_leader_epoch == old(self).last_leader_epoch,
            final(self).highest_cert == old(self).highest_cert,
            final(self).highest_height == old(self).highest_height,
            final(self).pvss_shares == old(self).pvss_shares,
            final(self).pvss_indices == old(self).pvss_indices,
            final(self).sync_cert_store == old(self).sync_cert_store,
            final(self).decryption_shares == old(self).decryption_shares,
            final(self).rnd_ctx.stop_accepting_sync_certs
                == old(self).rnd_ctx.stop_accepting_sync_certs,
            final(self).rnd_ctx.received_sync_cert_directly
                == old(self).rnd_ctx.received_sync_cert_directly,
            final(self).rnd_ctx.committed_this_epoch == old(self).rnd_ctx.committed_this_epoch,
            final(self).beacons == old(self).beacons,
            final(self).votes_received == old(self).votes_received,
            final(self).equivocation_seen == old(self).equivocation_seen,
            !r.is_ok() ==> *final(self) == *old(self),
    {
        if self.current_block_hash.is_some() {
            return Err(ProtoError::NotReady);
        }
        let (agg, decomp) = match self.pvss_ctx.aggregate(&self.pvss_indices, &self.pvss_shares) {
            Ok(x) => x,
            Err(_) => {
                return Err(ProtoError::NotReady);
            },
        };
        let parent = clone_bytes(&self.highest_cert_vote.block_hash);
        let agg2 = agg.clone();
        let block = crate::msg::Block {
            parent_hash: parent,
            height: self.highest_height + 1,
            payload: Vec::new(),
            aggregate: agg,
            decomposition: decomp,
        };
        let mut bbytes: Vec<u8> = Vec::new();
        crate::wire::enc_block(&mut bbytes, &block);
        let h = sha256(&bbytes);
        let mut smsg: Vec<u8> = Vec::new();
        enc_u64(&mut smsg, self.epoch);
        append_bytes(&mut smsg, &h);
        let sig = ed_sign(&self.my_vote_sk, &smsg);
        self.current_block_hash = Some(clone_bytes(&h));
        self.current_agg = Some(agg2);
        self.rnd_ctx.proposed_this_epoch = true;
        let e = self.epoch;
        let from = self.config.id;
        let height = block.height;
        msg_buf.push_back((self.config.num_nodes, ProtocolMsg::Proposal(e, block, sig)));
        // the leader's own vote, broadcast and looped back to be counted
        let vsig = ed_sign(&self.my_vote_sk, &smsg);
        let v = Vote {
            epoch: e,
            block_hash: clone_bytes(&h),
            height,
            voter: from,
            signature: vsig,
        };
        let v2 = v.clone_vote();
        msg_buf.push_back((self.config.num_nodes, ProtocolMsg::Vote(v)));
        ev_queue.add_event(Event::Message(from, ProtocolMsg::Vote(v2)));
        Ok(())
    }

    /// Enter the next epoch: reset the round, arm the epoch's timers, send
    /// a fresh dealing and a status report to the new leader, and, as
    /// leader, either propose at once or wait two delays for dealings.
    pub fn new_epoch(&mut self, dq: &mut EventQueue, msg_buf: &mut MsgBuf)
        requires
            old(self).wf(),
            old(self).epoch < 0x0400_0000u64,
        ensures
            final(self).wf(),
            final(self).epoch == old(self).epoch + 1,
            final(self).epoch_timer == old(self).epoch_timer + 11 * old(self).config.delta,
            final(self).last_leader == old(self).config.spec_leader_of((old(self).epoch + 1) as u64),
            final(self).rnd_ctx.stop_accepting_sync_certs == false,
            final(self).rnd_ctx.received_sync_cert_directly == false,
            final(self).rnd_ctx.committed_this_epoch == false,
            final(self).highest_cert_vote == old(self).highest_cert_vote,
            final(self).highest_height == old(self).highest_height,
            Context::spec_highest_monotone(*old(self), *final(self)),
            final(self).committed == old(self).committed,
            // the epoch clock: EpochEnd, ProposeTimeout and the sync-cert
            // cutoff are always armed
            final(dq).spec_timers().len() >= old(dq).spec_timers().len() + 3,
            final(dq).spec_timers()[old(dq).spec_timers().len() as int] == (
                (
                    crate::sched::spec_deadline(
                        old(dq).spec_now(),
                        (11 * old(self).config.delta) as u64,
                    ),
                    Event::EpochEnd,
                )
            ),
            final(dq).spec_timers()[old(dq).spec_timers().len() as int + 1] == (
                (
                    crate::sched::spec_deadline(
                        old(dq).spec_now(),
                        (4 * old(self).config.delta) as u64,
                    ),
                    Event::ProposeTimeout,
                )
            ),
            (final(dq).spec_timers()[old(dq).spec_timers().len() as int + 2].1 matches
                Event::StopAcceptingSyncCerts(e) && e == old(self).epoch + 1),
            // everything that outlives an epoch is untouched
            final(self).config == old(self).config,
            final(self).pvss_ctx == old(self).pvss_ctx,
            final(self).my_vote_sk == old(self).my_vote_sk,
            final(self).vote_pks == old(self).vote_pks,
            final(self).highest_cert == old(self).highest_cert,
            final(self).beacons == old(self).beacons,
            // a non-leader sends its dealing and status to the new leader
            final(self).last_leader != final(self).config.id ==> {
                &&& final(msg_buf).msgs@.len() == old(msg_buf).msgs@.len() + 2
                &&& final(msg_buf).msgs@[old(msg_buf).msgs@.len() as int].0 == final(self).last_leader
                &&& (final(msg_buf).msgs@[old(msg_buf).msgs@.len() as int].1 matches
                    ProtocolMsg::RawEpochPVSSSharing(p) && p.wf(old(self).pvss_ctx.spec_n()))
                &&& final(msg_buf).msgs@.last().0 == final(self).last_leader
                &&& (final(msg_buf).msgs@.last().1 matches ProtocolMsg::RawStatus(e, h, c) && e
                    == old(self).epoch && h == old(self).highest_height
                    && c.msg@ == old(self).highest_cert.msg@)
                &&& final(self).pvss_shares@.len() == 0
            },
            // the leader queues its own dealing for the coming proposal and
            // either proposes at once or arms the propose timer
            final(self).last_leader == final(self).config.id ==> {
                &&& final(self).pvss_indices@.len() == 1
                &&& final(self).pvss_indices@[0] == final(self).config.id
                &&& final(self).pvss_shares@.len() == 1
                &&& final(self).pvss_shares@[0].wf(old(self).pvss_ctx.spec_n())
                &&& final(self).last_leader_epoch == old(self).epoch + 1
                &&& (final(self).rnd_ctx.proposed_this_epoch || (final(dq).spec_timers().len()
                    > old(dq).spec_timers().len() + 3 && final(dq).spec_timers().last() == (
                    (
                        crate::sched::spec_deadline(
                            old(dq).spec_now(),
                            (2 * old(self).config.delta) as u64,
                        ),
                        Event::Propose,
                    )
                )))
                &&& (old(self).highest_height < old(self).epoch
                    ==> !final(self).rnd_ctx.proposed_this_epoch)
            },
    {
        proof {
            lemma_timer_headroom(self.epoch, self.epoch_timer);
        }
        self.epoch_reset();
        self.epoch = self.epoch + 1;
        self.epoch_timer = self.epoch_timer + 11 * self.config.delta;
        dq.add_timeout(Event::EpochEnd, 11 * self.config.delta);
        dq.add_timeout(Event::ProposeTimeout, 4 * self.config.delta);
        dq.add_timeout(Event::StopAcceptingSyncCerts(self.epoch), 7 * self.config.delta);
        let ghost t0 = old(dq).spec_timers();
        proof {
            assert(dq.spec_timers()[t0.len() as int] == dq.spec_timers().drop_last().drop_last()[t0.len() as int]);
            assert(dq.spec_timers()[t0.len() as int + 1] == dq.spec_timers().drop_last()[t0.len() as int + 1]);
        }
        self.last_leader = self.leader();
        let pvec = self.pvss_ctx.generate_shares();
        if self.last_leader != self.config.id {
            msg_buf.push_back((self.last_leader, ProtocolMsg::RawEpochPVSSSharing(pvec)));
            let c2 = self.highest_cert.clone_cert();
            msg_buf.push_back(
                (
                    self.last_leader,
                    ProtocolMsg::RawStatus(self.epoch - 1, self.highest_height, c2),
                ),
            );
            return ;
        }
        self.last_leader_epoch = self.epoch;
        self.pvss_shares.push(pvec);
        self.pvss_indices.push(self.config.id);
        if self.highest_height < self.epoch - 1 {
            dq.add_timeout(Event::Propose, 2 * self.config.delta);
            proof {
                assert(dq.spec_timers()[t0.len() as int] == dq.spec_timers().drop_last()[t0.len() as int]);
                assert(dq.spec_timers()[t0.len() as int + 1] == dq.spec_timers().drop_last()[t0.len() as int + 1]);
                assert(dq.spec_timers()[t0.len() as int + 2] == dq.spec_timers().drop_last()[t0.len() as int + 2]);
            }
            return ;
        }
        match self.do_propose(dq, msg_buf) {
            Ok(()) => {},
            Err(_) => {
                dq.add_timeout(Event::Propose, 2 * self.config.delta);
                proof {
                    assert(dq.spec_timers()[t0.len() as int] == dq.spec_timers().drop_last()[t0.len() as int]);
                    assert(dq.spec_timers()[t0.len() as int + 1] == dq.spec_timers().drop_last()[t0.len() as int + 1]);
                    assert(dq.spec_timers()[t0.len() as int + 2] == dq.spec_timers().drop_last()[t0.len() as int + 2]);
                }
            },
        }
    }

    /// Store a decryption share in its slot.
    fn store_share(shares: &mut Vec<Option<Decryption>>, i: usize, d: Decryption)
        requires
            i < old(shares)@.len(),
        ensures
            final(shares)@.len() == old(shares)@.len(),
            final(shares)@[i as int] == Some(d),
            forall|j: int|
                0 <= j < old(shares)@.len() && j != i ==> final(shares)@[j] == old(shares)@[j],
    {
        let slot = &mut shares[i];
        *slot = Some(d);
    }

    /// The leader collects a dealing for the coming proposal: verified,
    /// from a new in-range dealer.
    pub fn on_pvss_sharing(&mut self, from: Replica, pvec: PVSSVec) -> (r: Result<
        (),
        ProtoError,
    >)
        requires
            old(self).wf(),
        ensures
            final(self).wf(),
            final(self).epoch == old(self).epoch,
            final(self).highest_cert_vote == old(self).highest_cert_vote,
            final(self).committed == old(self).committed,
            Context::spec_highest_monotone(*old(self), *final(self)),
            r.is_ok() ==> final(self).pvss_shares@.len() == old(self).pvss_shares@.len() + 1
                && final(self).pvss_indices@.len() == old(self).pvss_indices@.len() + 1
                && final(self).pvss_indices@.last() == from && final(self).pvss_shares@.last()
                == pvec && pvec.wf(
                old(self).pvss_ctx.spec_n(),
            ) && old(self).pvss_ctx.spec_all_dleq_ok(pvec) && from < old(self).config.num_nodes
                && !old(self).pvss_indices@.contains(from),
            !r.is_ok() ==> *final(self) == *old(self),
            // the deterministic refusals, exactly
            (r == Err::<(), ProtoError>(ProtoError::WrongLeader)) <==> old(self).config.id != old(self).config.spec_leader_of(old(self).epoch),
            old(self).config.id == old(self).config.spec_leader_of(old(self).epoch) ==> ((r
                == Err::<(), ProtoError>(ProtoError::NotReady)) <==> (from < old(self).config.num_nodes && old(self).pvss_indices@.contains(from))),
            (old(self).config.id == old(self).config.spec_leader_of(old(self).epoch) && from
                < old(self).config.num_nodes && !old(self).pvss_indices@.contains(from) && (
            !pvec.wf(old(self).pvss_ctx.spec_n()) || !old(self).pvss_ctx.spec_all_dleq_ok(pvec)))
                ==> r == Err::<(), ProtoError>(ProtoError::InvalidCert),
            // when every deterministic check passes, only the randomized
            // polynomial test can still refuse
            (old(self).config.id == old(self).config.spec_leader_of(old(self).epoch) && from
                < old(self).config.num_nodes && !old(self).pvss_indices@.contains(from)
                && pvec.wf(old(self).pvss_ctx.spec_n()) && old(self).pvss_ctx.spec_all_dleq_ok(
                pvec,
            )) ==> (r.is_ok() || r == Err::<(), ProtoError>(ProtoError::InvalidCert)),
    {
        if self.config.id != self.leader() {
            return Err(ProtoError::WrongLeader);
        }
        if from >= self.config.num_nodes {
            return Err(ProtoError::InvalidCert);
        }
        let mut i: usize = 0;
        let k = self.pvss_indices.len();
        while i < k
            invariant
                i <= k,
                k == self.pvss_indices@.len(),
                *self == *old(self),
                self.wf(),
                self.config.id == self.config.spec_leader_of(self.epoch),
                from < self.config.num_nodes,
                forall|j: int| 0 <= j < i ==> self.pvss_indices@[j] != from,
            decreases k - i,
        {
            if self.pvss_indices[i] == from {
                proof {
                    assert(self.pvss_indices@.contains(from));
                }
                return Err(ProtoError::NotReady);
            }
            i += 1;
        }
        proof {
            assert(!self.pvss_indices@.contains(from));
        }
        match self.pvss_ctx.verify_sharing(&pvec) {
            Ok(()) => {},
            Err(_) => {
                return Err(ProtoError::InvalidCert);
            },
        }
        self.pvss_shares.push(pvec);
        self.pvss_indices.push(from);
        Ok(())
    }

    /// What a status report must carry to be learned from: a certificate
    /// at vote quorum whose message is `epoch || block hash`, with a height
    /// the tick counters can hold.
    pub open spec fn spec_status_acceptable(self, h: Height, cert: Certificate) -> bool {
        &&& h < 0xffff_ffff_0000_0000u64
        &&& spec_cert_valid(cert, byte_views(self.vote_pks@), self.spec_quorum())
        &&& crate::codec::spec_dec_u64(cert.msg@) is Some
    }

    /// Learn a peer's highest certificate from a status report: accept
    /// exactly the quorum-certified, decodable ones, and adopt the
    /// certified `(epoch, height)` pair when it is lexicographically
    /// higher, keeping the old one otherwise.
    pub fn on_status(&mut self, from: Replica, h: crate::config::Height, cert: Certificate) -> (r:
        Result<(), ProtoError>)
        requires
            old(self).wf(),
        ensures
            final(self).wf(),
            final(self).epoch == old(self).epoch,
            final(self).committed == old(self).committed,
            Context::spec_highest_monotone(*old(self), *final(self)),
            r.is_ok() <==> (h == 0 || old(self).spec_status_acceptable(h, cert)),
            h == 0 ==> *final(self) == *old(self),
            !r.is_ok() ==> *final(self) == *old(self) && r == Err::<(), ProtoError>(
                ProtoError::InvalidCert,
            ),
            (r.is_ok() && h > 0) ==> (crate::codec::spec_dec_u64(cert.msg@) matches Some((ve, rest))
                && (spec_higher(
                ve,
                h,
                old(self).highest_cert_vote.epoch,
                old(self).highest_cert_vote.height,
            ) ==> {
                &&& final(self).highest_cert_vote.epoch == ve
                &&& final(self).highest_cert_vote.height == h
                &&& final(self).highest_cert_vote.block_hash@ == rest
                &&& final(self).highest_cert_vote.voter == from
                &&& final(self).highest_height == h
                &&& final(self).highest_cert == cert
            }) && (!spec_higher(
                ve,
                h,
                old(self).highest_cert_vote.epoch,
                old(self).highest_cert_vote.height,
            ) ==> (final(self).highest_cert_vote == old(self).highest_cert_vote
                && final(self).highest_cert == old(self).highest_cert
                && final(self).highest_height == old(self).highest_height))),
    {
        if h == 0 {
            // a genesis-level status carries nothing to learn
            return Ok(());
        }
        if h >= 0xffff_ffff_0000_0000u64 {
            return Err(ProtoError::InvalidCert);
        }
        let q = self.config.num_faults() + 1;
        if !cert.verify(&self.vote_pks, q) {
            return Err(ProtoError::InvalidCert);
        }
        // the certified message is `epoch || block hash`
        let (vepoch, p) = match crate::codec::dec_u64(&cert.msg, 0) {
            Some(x) => x,
            None => {
                proof {
                    assert(cert.msg@.skip(0) =~= cert.msg@);
                }
                return Err(ProtoError::InvalidCert);
            },
        };
        proof {
            assert(cert.msg@.skip(0) =~= cert.msg@);
        }
        let mut hash: Vec<u8> = Vec::new();
        let mut i: usize = p;
        while i < cert.msg.len()
            invariant
                p <= i <= cert.msg@.len(),
                hash@.len() == i - p,
                forall|j: int| 0 <= j < i - p ==> hash@[j] == cert.msg@[j + p],
            decreases cert.msg@.len() - i,
        {
            hash.push(cert.msg[i]);
            i += 1;
        }
        proof {
            assert(hash@ =~= cert.msg@.skip(p as int));
        }
        let v = Vote {
            epoch: vepoch,
            block_hash: hash,
            height: h,
            voter: from,
            signature: Vec::new(),
        };
        self.update_highest_cert(v, cert);
        Ok(())
    }

    /// The content hash of a proposed block.
    pub open spec fn spec_proposal_hash(block: crate::msg::Block) -> Seq<u8> {
        spec_sha256(crate::wire::spec_enc_block(crate::wire::block_view(block)))
    }

    /// A proposal that passes the sender checks: right epoch, from the
    /// leader, bounded height, and the leader's signature over the block's
    /// hash.
    pub open spec fn spec_proposal_signed(
        self,
        from: Replica,
        e: Epoch,
        block: crate::msg::Block,
        sig: Seq<u8>,
    ) -> bool {
        &&& e == self.epoch
        &&& from == self.config.spec_leader_of(self.epoch)
        &&& block.height < 0xffff_ffff_0000_0000u64
        &&& crate::crypto::spec_ed_valid(
            byte_views(self.vote_pks@)[from as int],
            spec_enc_u64(e) + Self::spec_proposal_hash(block),
            sig,
        )
    }

    /// A proposal this replica votes for: properly signed, the first of
    /// its epoch, extending the highest certified block, with a
    /// well-formed aggregate and a valid decomposition.  Only the
    /// randomized polynomial test is not captured here.
    pub open spec fn spec_proposal_acceptable(
        self,
        from: Replica,
        e: Epoch,
        block: crate::msg::Block,
        sig: Seq<u8>,
    ) -> bool {
        &&& self.spec_proposal_signed(from, e, block, sig)
        &&& self.current_block_hash is None
        &&& block.parent_hash@ == self.highest_cert_vote.block_hash@
        &&& block.height == self.highest_height + 1
        &&& block.aggregate.wf(self.pvss_ctx.spec_n())
        &&& self.pvss_ctx.spec_decomp_valid(block.aggregate, block.decomposition)
    }

    /// Accept or refuse the leader's proposal; on acceptance record the
    /// block, broadcast a vote for it and arm the vote timeout at six
    /// delays into the epoch.  A second, different proposal in the same
    /// epoch marks the leader as equivocating and draws no vote.
    pub fn on_proposal(
        &mut self,
        from: Replica,
        e: Epoch,
        block: crate::msg::Block,
        sig: Vec<u8>,
        ev_queue: &mut EventQueue,
        msg_buf: &mut MsgBuf,
    ) -> (r: Result<(), ProtoError>)
        requires
            old(self).wf(),
        ensures
            final(self).wf(),
            final(self).epoch == old(self).epoch,
            final(self).committed == old(self).committed,
            Context::spec_highest_monotone(*old(self), *final(self)),
            // acceptance, exactly up to the randomized polynomial test
            r.is_ok() ==> old(self).spec_proposal_acceptable(from, e, block, sig@),
            old(self).spec_proposal_acceptable(from, e, block, sig@) ==> (r.is_ok() || r
                == Err::<(), ProtoError>(ProtoError::InvalidCert)),
            (r == Err::<(), ProtoError>(ProtoError::WrongEpoch)) <==> e != old(self).epoch,
            e == old(self).epoch ==> ((r == Err::<(), ProtoError>(ProtoError::WrongLeader)) <==>
                from != old(self).config.spec_leader_of(old(self).epoch)),
            // equivocation is recorded exactly when a validly signed
            // proposal conflicts with the block already held
            final(self).equivocation_seen == (old(self).equivocation_seen
                || (old(self).spec_proposal_signed(from, e, block, sig@)
                && (old(self).current_block_hash matches Some(p)
                && p@ != Self::spec_proposal_hash(block)))),
            (old(self).spec_proposal_signed(from, e, block, sig@)
                && (old(self).current_block_hash matches Some(p)
                && p@ == Self::spec_proposal_hash(block))) ==> r == Err::<(), ProtoError>(
                ProtoError::NotReady,
            ),
            r.is_ok() ==> {
                &&& (final(self).current_block_hash matches Some(cb) && cb@
                    == Self::spec_proposal_hash(block))
                &&& final(self).current_agg == Some(block.aggregate)
                &&& final(msg_buf).msgs@.len() == old(msg_buf).msgs@.len() + 1
                &&& final(msg_buf).msgs@.last().0 == old(self).config.num_nodes
                &&& (final(msg_buf).msgs@.last().1 matches ProtocolMsg::Vote(v) && v.epoch == e
                    && v.voter == old(self).config.id && v.height == block.height
                    && v.block_hash@ == Self::spec_proposal_hash(block)
                    && crate::crypto::spec_ed_valid(
                    byte_views(old(self).vote_pks@)[old(self).config.id as int],
                    v.spec_signed_bytes(),
                    v.signature@,
                ))
                &&& final(ev_queue).spec_ready().len() == old(ev_queue).spec_ready().len() + 1
                &&& (final(ev_queue).spec_ready().last() matches Event::Message(lb, m) && lb
                    == old(self).config.id && (m matches ProtocolMsg::Vote(v2) && v2.block_hash@
                    == Self::spec_proposal_hash(block) && v2.epoch == e))
                &&& final(ev_queue).spec_timers().len() == old(ev_queue).spec_timers().len() + 1
                &&& (final(ev_queue).spec_timers().last().1 matches Event::VoteTimeout(vh) && vh@
                    == Self::spec_proposal_hash(block))
                &&& final(ev_queue).spec_timers().last().0 == crate::sched::spec_deadline(
                    old(ev_queue).spec_now(),
                    ({
                        let six = if old(self).epoch_timer > 5 * old(self).config.delta {
                            (old(self).epoch_timer - 5 * old(self).config.delta) as u64
                        } else {
                            0u64
                        };
                        if six > old(ev_queue).spec_now() {
                            (six - old(ev_queue).spec_now()) as u64
                        } else {
                            0u64
                        }
                    }),
                )
            },
            !r.is_ok() ==> (final(msg_buf).msgs@ == old(msg_buf).msgs@
                && final(self).current_block_hash == old(self).current_block_hash
                && final(self).current_agg == old(self).current_agg),
    {
        if e != self.epoch {
            return Err(ProtoError::WrongEpoch);
        }
        if from != self.leader() {
            return Err(ProtoError::WrongLeader);
        }
        if block.height >= 0xffff_ffff_0000_0000u64 {
            return Err(ProtoError::InvalidCert);
        }
        let mut bbytes: Vec<u8> = Vec::new();
        crate::wire::enc_block(&mut bbytes, &block);
        let h = sha256(&bbytes);
        let mut smsg: Vec<u8> = Vec::new();
        enc_u64(&mut smsg, e);
        append_bytes(&mut smsg, &h);
        if !crate::crypto::ed_verify(&self.vote_pks[from], &smsg, &sig) {
            return Err(ProtoError::InvalidCert);
        }
        match &self.current_block_hash {
            Some(prev) => {
                if !crate::crypto::bytes_eq(prev, &h) {
                    // two different validly signed proposals: equivocation
                    self.equivocation_seen = true;
                    return Err(ProtoError::InvalidCert);
                }
                // the same proposal again draws no second vote
                return Err(ProtoError::NotReady);
            },
            None => {},
        }
        if !(crate::crypto::bytes_eq(&block.parent_hash, &self.highest_cert_vote.block_hash)
            && block.height == self.highest_height + 1) {
            return Err(ProtoError::InvalidCert);
        }
        match self.pvss_ctx.pverify(&block.aggregate) {
            Ok(()) => {},
            Err(_) => {
                return Err(ProtoError::InvalidCert);
            },
        }
        match self.pvss_ctx.decomp_verify(&block.aggregate, &block.decomposition) {
            Ok(()) => {},
            Err(_) => {
                return Err(ProtoError::InvalidCert);
            },
        }
        // accept: remember the block, vote for it
        self.current_block_hash = Some(clone_bytes(&h));
        self.current_agg = Some(block.aggregate);
        let mut vmsg: Vec<u8> = Vec::new();
        enc_u64(&mut vmsg, e);
        append_bytes(&mut vmsg, &h);
        let vsig = ed_sign(&self.my_vote_sk, &vmsg);
        let v = Vote {
            epoch: e,
            block_hash: clone_bytes(&h),
            height: block.height,
            voter: self.config.id,
            signature: vsig,
        };
        let v2 = v.clone_vote();
        msg_buf.push_back((self.config.num_nodes, ProtocolMsg::Vote(v)));
        ev_queue.add_event(Event::Message(self.config.id, ProtocolMsg::Vote(v2)));
        // vote timeout at six delays after the epoch's start
        let six = {
            let d5 = 5 * self.config.delta;
            if self.epoch_timer > d5 {
                self.epoch_timer - d5
            } else {
                0
            }
        };
        let now = ev_queue.current_time();
        let delay = if six > now {
            six - now
        } else {
            0
        };
        ev_queue.add_timeout(Event::VoteTimeout(clone_bytes(&h)), delay);
        Ok(())
    }

    /// A vote this replica collects: for the current epoch and the block
    /// it holds, validly signed by a new in-range voter.
    pub open spec fn spec_vote_acceptable(self, v: Vote) -> bool {
        &&& v.epoch == self.epoch
        &&& v.voter < self.config.num_nodes
        &&& (self.current_block_hash matches Some(h) && h@ == v.block_hash@)
        &&& crate::crypto::spec_ed_valid(
            byte_views(self.vote_pks@)[v.voter as int],
            v.spec_signed_bytes(),
            v.signature@,
        )
        &&& (forall|j: int|
            0 <= j < self.votes_received@.len() ==> (#[trigger] self.votes_received@[j]).voter
                != v.voter)
    }

    /// Collect a vote; as leader, once `f + 1` votes for this epoch's
    /// block are in hand, form the certificate and send the sync
    /// certificate.  Exactly the acceptable votes are collected, and the
    /// leader's duty at quorum is discharged.
    pub fn on_vote(&mut self, v: Vote, ev_queue: &mut EventQueue, msg_buf: &mut MsgBuf) -> (r:
        Result<(), ProtoError>)
        requires
            old(self).wf(),
        ensures
            final(self).wf(),
            final(self).epoch == old(self).epoch,
            final(self).committed == old(self).committed,
            Context::spec_highest_monotone(*old(self), *final(self)),
            r.is_ok() <==> old(self).spec_vote_acceptable(v),
            r.is_ok() ==> final(self).votes_received@.len() == old(self).votes_received@.len() + 1
                && final(self).votes_received@.last() == v,
            !r.is_ok() ==> *final(self) == *old(self) && final(msg_buf).msgs@ == old(msg_buf).msgs@,
            // the leader's duty: the quorum-completing vote makes it send
            // the sync certificate over this vote, acceptable as sent
            (r.is_ok() && old(self).config.id == old(self).config.spec_leader_of(old(self).epoch)
                && old(self).votes_received@.len() + 1 == old(self).spec_quorum() && !old(self).rnd_ctx.stop_accepting_sync_certs) ==> {
                &&& final(msg_buf).msgs@.len() == old(msg_buf).msgs@.len() + 1
                &&& final(msg_buf).msgs@.last().0 == old(self).config.num_nodes
                &&& (final(msg_buf).msgs@.last().1 matches ProtocolMsg::SyncCert(prop, pf)
                    && old(self).spec_sync_cert_acceptable(old(self).config.id, prop, pf)
                    && crate::wire::vote_view(prop.data.vote) == crate::wire::vote_view(v))
            },
            // otherwise a collected vote sends nothing yet
            (r.is_ok() && !(old(self).config.id == old(self).config.spec_leader_of(
                old(self).epoch,
            ) && old(self).votes_received@.len() + 1 == old(self).spec_quorum() && !old(self).rnd_ctx.stop_accepting_sync_certs)) ==> final(msg_buf).msgs@ == old(msg_buf).msgs@,
    {
        if v.epoch != self.epoch {
            return Err(ProtoError::WrongEpoch);
        }
        if v.voter >= self.config.num_nodes {
            return Err(ProtoError::InvalidCert);
        }
        let matches_block = match &self.current_block_hash {
            Some(h) => crate::crypto::bytes_eq(h, &v.block_hash),
            None => false,
        };
        if !matches_block {
            return Err(ProtoError::NotReady);
        }
        let sb = v.signed_bytes();
        if !crate::crypto::ed_verify(&self.vote_pks[v.voter], &sb, &v.signature) {
            return Err(ProtoError::InvalidCert);
        }
        let k = self.votes_received.len();
        let mut i: usize = 0;
        while i < k
            invariant
                i <= k,
                k == self.votes_received@.len(),
                *self == *old(self),
                self.wf(),
                forall|j: int| 0 <= j < i ==> self.votes_received@[j].voter != v.voter,
            decreases k - i,
        {
            if self.votes_received[i].voter == v.voter {
                return Err(ProtoError::NotReady);
            }
            i += 1;
        }
        proof {
            assert(byte_views(self.vote_pks@)[v.voter as int] == self.vote_pks@[v.voter as int]@);
        }
        let v2 = v.clone_vote();
        self.votes_received.push(v);
        proof {
            assert(self.wf());
        }
        let q = self.config.num_faults() + 1;
        if self.config.id == self.leader() && self.votes_received.len() == q
            && !self.rnd_ctx.stop_accepting_sync_certs {
            // assemble the vote certificate over the common signed bytes
            let ghost ch = self.current_block_hash->Some_0@;
            let mut signers: Vec<Replica> = Vec::new();
            let mut sigs: Vec<Vec<u8>> = Vec::new();
            let m = self.votes_received.len();
            let mut j: usize = 0;
            while j < m
                invariant
                    j <= m,
                    m == self.votes_received@.len(),
                    self.wf(),
                    self.current_block_hash matches Some(cur) && cur@ == ch,
                    signers@.len() == j,
                    sigs@.len() == j,
                    forall|q2: int|
                        0 <= q2 < j ==> (#[trigger] signers@[q2])
                            == self.votes_received@[q2].voter,
                    forall|q2: int|
                        0 <= q2 < j ==> (#[trigger] sigs@[q2])@
                            == self.votes_received@[q2].signature@,
                decreases m - j,
            {
                signers.push(self.votes_received[j].voter);
                sigs.push(clone_bytes(&self.votes_received[j].signature));
                j += 1;
            }
            let cert = Certificate { msg: v2.signed_bytes(), signers, sigs };
            proof {
                assert forall|j2: int| 0 <= j2 < cert.signers@.len() implies
                    crate::crypto::spec_ed_valid(
                        byte_views(self.vote_pks@)[(#[trigger] cert.signers@[j2]) as int],
                        cert.msg@,
                        cert.sigs@[j2]@,
                    ) by {
                    let w = self.votes_received@[j2];
                    assert(self.spec_vote_entry_ok(w));
                    assert(w.spec_signed_bytes() =~= cert.msg@);
                }
                assert(spec_cert_valid(cert, byte_views(self.vote_pks@), self.spec_quorum()));
            }
            if cert.verify(&self.vote_pks, q) {
                let _ = self.propose_sync_cert(v2, cert, ev_queue, msg_buf);
            }
        }
        Ok(())
    }

    /// The late-vote fallback: if no sync certificate has arrived for the
    /// block by six delays, send the synchronous vote once more.
    pub fn on_vote_timeout(&mut self, h: Vec<u8>, msg_buf: &mut MsgBuf) -> (r: Result<
        (),
        ProtoError,
    >)
        requires
            old(self).wf(),
        ensures
            final(self).wf(),
            *final(self) == *old(self),
            Context::spec_highest_monotone(*old(self), *final(self)),
            // nothing more to do once the sync certificate arrived in time
            old(self).rnd_ctx.received_sync_cert_directly ==> (r.is_ok()
                && final(msg_buf).msgs@ == old(msg_buf).msgs@),
            // otherwise the synchronous vote goes out exactly when the
            // timeout names the block this replica holds
            !old(self).rnd_ctx.received_sync_cert_directly ==> ((r.is_ok() <==> (old(self).current_block_hash matches Some(cur) && cur@ == h@)) && (r.is_ok() ==> {
                &&& final(msg_buf).msgs@.len() == old(msg_buf).msgs@.len() + 1
                &&& final(msg_buf).msgs@.last().0 == old(self).config.num_nodes
                &&& (final(msg_buf).msgs@.last().1 matches ProtocolMsg::Vote(v) && v.epoch == old(self).epoch && v.voter == old(self).config.id && v.block_hash@ == h@
                    && crate::crypto::spec_ed_valid(
                    byte_views(old(self).vote_pks@)[old(self).config.id as int],
                    v.spec_signed_bytes(),
                    v.signature@,
                ))
            }) && (!r.is_ok() ==> final(msg_buf).msgs@ == old(msg_buf).msgs@)),
    {
        if self.rnd_ctx.received_sync_cert_directly {
            return Ok(());
        }
        let matches_block = match &self.current_block_hash {
            Some(cur) => crate::crypto::bytes_eq(cur, &h),
            None => false,
        };
        if !matches_block {
            return Err(ProtoError::NotReady);
        }
        let mut vmsg: Vec<u8> = Vec::new();
        enc_u64(&mut vmsg, self.epoch);
        append_bytes(&mut vmsg, &h);
        let vsig = ed_sign(&self.my_vote_sk, &vmsg);
        let v = Vote {
            epoch: self.epoch,
            block_hash: h,
            height: self.highest_height,
            voter: self.config.id,
            signature: vsig,
        };
        msg_buf.push_back((self.config.num_nodes, ProtocolMsg::Vote(v)));
        Ok(())
    }

    /// The commit rule: commit the epoch's block exactly when the commit
    /// timer belongs to this epoch and block, a sync certificate was
    /// received directly and in time, no equivocation was observed, and
    /// nothing was committed yet this epoch.  On commit, issue this
    /// replica's decryption share.
    pub fn on_commit_timeout(&mut self, e: Epoch, h: Vec<u8>, msg_buf: &mut MsgBuf) -> (r: Result<
        (),
        ProtoError,
    >)
        requires
            old(self).wf(),
        ensures
            final(self).wf(),
            final(self).epoch == old(self).epoch,
            Context::spec_highest_monotone(*old(self), *final(self)),
            r.is_ok() <==> {
                &&& e == old(self).epoch
                &&& !old(self).equivocation_seen
                &&& (old(self).current_block_hash matches Some(cur) && cur@ == h@)
                &&& old(self).rnd_ctx.received_sync_cert_directly
                &&& !old(self).rnd_ctx.committed_this_epoch
            },
            r.is_ok() ==> (final(self).committed@.len() == old(self).committed@.len() + 1
                && final(self).committed@.last().0 == e
                && final(self).committed@.last().1@ == h@
                && final(self).rnd_ctx.committed_this_epoch == true),
            !r.is_ok() ==> (final(self).committed == old(self).committed
                && final(msg_buf).msgs@ == old(msg_buf).msgs@),
            // on commit, this replica's own decryption share goes out
            // whenever its slot of the aggregate decrypts
            old(self).current_agg matches Some(agg) ==> ((r.is_ok() && old(self).config.id
                < agg.encs@.len() && crate::crypto::spec_g1_ok(
                agg.encs@[old(self).config.id as int]@,
            ) && agg.encs@[old(self).config.id as int]@.len() == crate::crypto::G1_BYTES
                && !crate::crypto::spec_fr_is_zero(old(self).pvss_ctx.spec_sk())) ==> {
                &&& final(msg_buf).msgs@.len() == old(msg_buf).msgs@.len() + 1
                &&& final(msg_buf).msgs@.last().0 == old(self).config.num_nodes
                &&& (final(msg_buf).msgs@.last().1 matches ProtocolMsg::DecryptionShare(e2, d)
                    && e2 == e && d.dec@ == crate::crypto::spec_g1_mul(
                    agg.encs@[old(self).config.id as int]@,
                    crate::crypto::spec_fr_inv(old(self).pvss_ctx.spec_sk()),
                ))
            }),
            r.is_ok() ==> (final(msg_buf).msgs@.len() == old(msg_buf).msgs@.len()
                || final(msg_buf).msgs@.len() == old(msg_buf).msgs@.len() + 1),
    {
        if e != self.epoch {
            return Err(ProtoError::WrongEpoch);
        }
        if self.equivocation_seen {
            return Err(ProtoError::InvalidCert);
        }
        let matches_block = match &self.current_block_hash {
            Some(cur) => crate::crypto::bytes_eq(cur, &h),
            None => false,
        };
        if !matches_block {
            return Err(ProtoError::NotReady);
        }
        if !self.rnd_ctx.received_sync_cert_directly {
            return Err(ProtoError::NotReady);
        }
        if self.rnd_ctx.committed_this_epoch {
            return Err(ProtoError::NotReady);
        }
        self.committed.push((e, clone_bytes(&h)));
        self.rnd_ctx.committed_this_epoch = true;
        // beacon phase: issue this replica's decryption share
        let id = self.config.id;
        let share = match &self.current_agg {
            Some(agg) => {
                if id < agg.encs.len() {
                    match self.pvss_ctx.decrypt_share(&agg.encs[id]) {
                        Ok(d) => Some(d),
                        Err(_) => None,
                    }
                } else {
                    None
                }
            },
            None => None,
        };
        match share {
            Some(d) => {
                let d2 = Decryption {
                    dec: clone_bytes(&d.dec),
                    dleq_proof: crate::pvss::clone_dleq(&d.dleq_proof),
                };
                if id < self.decryption_shares.len() {
                    Self::store_share(&mut self.decryption_shares, id, d2);
                }
                msg_buf.push_back(
                    (self.config.num_nodes, ProtocolMsg::DecryptionShare(e, d)),
                );
            },
            None => {},
        }
        Ok(())
    }

    /// What a decryption share must satisfy to be stored: right epoch,
    /// in-range sender, an aggregate on hand, and the share's DLEQ proof
    /// verifying against that sender's slot of it.
    pub open spec fn spec_share_acceptable(self, from: Replica, e: Epoch, d: Decryption) -> bool {
        &&& e == self.epoch
        &&& from < self.config.num_nodes
        &&& self.current_agg matches Some(agg) && from < agg.encs@.len()
            && crate::crypto::spec_g1_ok(d.dec@) && crate::crypto::spec_g1_ok(agg.encs@[from as int]@)
            && crate::crypto::spec_fr_ok(d.dleq_proof.challenge@)
            && crate::crypto::spec_fr_ok(d.dleq_proof.response@) && crate::pvss::spec_dleq_ok(
            self.pvss_ctx.spec_g1(),
            self.pvss_ctx.spec_pk(from as int),
            d.dec@,
            agg.encs@[from as int]@,
            d.dleq_proof.challenge@,
            d.dleq_proof.response@,
        )
    }

    /// Collect a decryption share; with `t + 1` of them, reconstruct and
    /// publish the epoch's beacon.  Exactly the acceptable shares are
    /// stored; only the reconstruction step (whose field inversions the
    /// contracts cannot rule out failing) may still refuse afterwards.
    pub fn on_decryption_share(
        &mut self,
        from: Replica,
        e: Epoch,
        d: Decryption,
        msg_buf: &mut MsgBuf,
    ) -> (r: Result<Option<crate::pvss::Beacon>, ProtoError>)
        requires
            old(self).wf(),
        ensures
            final(self).wf(),
            final(self).epoch == old(self).epoch,
            final(self).committed == old(self).committed,
            Context::spec_highest_monotone(*old(self), *final(self)),
            r.is_ok() ==> old(self).spec_share_acceptable(from, e, d),
            old(self).spec_share_acceptable(from, e, d) ==> (r.is_ok() || r == Err::<
                Option<crate::pvss::Beacon>,
                ProtoError,
            >(ProtoError::NotReady)),
            (old(self).spec_share_acceptable(from, e, d) && from < old(self).decryption_shares@.len()) ==> final(self).decryption_shares@[from as int] == Some(d),
            (r == Err::<Option<crate::pvss::Beacon>, ProtoError>(ProtoError::WrongEpoch)) <==> e
                != old(self).epoch,
            (e == old(self).epoch && from >= old(self).config.num_nodes) ==> r == Err::<
                Option<crate::pvss::Beacon>,
                ProtoError,
            >(ProtoError::InvalidCert),
            (e == old(self).epoch && from < old(self).config.num_nodes && old(self).current_agg is None) ==> r == Err::<Option<crate::pvss::Beacon>, ProtoError>(
                ProtoError::NotReady,
            ),
            // a reconstructed beacon is published and logged
            r matches Ok(Some(b)) ==> {
                &&& final(self).beacons@.len() == old(self).beacons@.len() + 1
                &&& final(self).beacons@.last().0 == e
                &&& final(self).beacons@.last().1@ == b.value@
                &&& final(msg_buf).msgs@.len() == old(msg_buf).msgs@.len() + 1
                &&& final(msg_buf).msgs@.last().0 == old(self).config.num_nodes
                &&& (final(msg_buf).msgs@.last().1 matches ProtocolMsg::Beacon(e2, v) && e2 == e
                    && v@ == b.value@)
                &&& b.beacon@ == crate::crypto::spec_pairing(b.value@, old(self).pvss_ctx.spec_h2())
            },
    {
        if e != self.epoch {
            return Err(ProtoError::WrongEpoch);
        }
        if from >= self.config.num_nodes {
            return Err(ProtoError::InvalidCert);
        }
        let ok = match &self.current_agg {
            Some(agg) => {
                if from < agg.encs.len() {
                    self.pvss_ctx.verify_share(from, &d.dec, &agg.encs[from], &d.dleq_proof)
                } else {
                    false
                }
            },
            None => {
                return Err(ProtoError::NotReady);
            },
        };
        if !ok {
            return Err(ProtoError::InvalidCert);
        }
        if from < self.decryption_shares.len() {
            Self::store_share(&mut self.decryption_shares, from, d);
        }
        let mut count: usize = 0;
        let n = self.decryption_shares.len();
        let mut i: usize = 0;
        while i < n
            invariant
                i <= n,
                count <= i,
                n == self.decryption_shares@.len(),
            decreases n - i,
        {
            if self.decryption_shares[i].is_some() {
                count += 1;
            }
            i += 1;
        }
        // at most one beacon per epoch
        let kb = self.beacons.len();
        let mut bi: usize = 0;
        while bi < kb
            invariant
                bi <= kb,
                kb == self.beacons@.len(),
                self.wf(),
                self.epoch == old(self).epoch,
                self.committed == old(self).committed,
                self.highest_cert_vote == old(self).highest_cert_vote,
                old(self).spec_share_acceptable(from, e, d),
                from < old(self).decryption_shares@.len()
                    ==> self.decryption_shares@[from as int] == Some(d),
            decreases kb - bi,
        {
            if self.beacons[bi].0 == e {
                return Ok(None);
            }
            bi += 1;
        }
        let t = self.config.num_faults();
        if count >= t + 1 {
            match self.pvss_ctx.reconstruct(&self.decryption_shares) {
                Ok(b) => {
                    self.beacons.push((e, clone_bytes(&b.value)));
                    msg_buf.push_back(
                        (self.config.num_nodes, ProtocolMsg::Beacon(e, clone_bytes(&b.value))),
                    );
                    return Ok(Some(b));
                },
                Err(_) => {
                    return Err(ProtoError::NotReady);
                },
            }
        }
        Ok(None)
    }

    /// Dispatch one event to its handler.  The epoch only ever moves
    /// forward, by at most one step, and the tracked highest certificate
    /// never goes down.
    pub fn on_event(&mut self, ev: Event, dq: &mut EventQueue, msg_buf: &mut MsgBuf) -> (r:
        Result<(), ProtoError>)
        requires
            old(self).wf(),
            old(self).epoch < 0x0400_0000u64,
        ensures
            final(self).wf(),
            final(self).epoch == old(self).epoch || final(self).epoch == old(self).epoch + 1,
            Context::spec_highest_monotone(*old(self), *final(self)),
            // each event is delegated to its handler
            ({
                match ev {
                    Event::Propose => r.is_ok() && ((old(self).current_block_hash is None && old(self).pvss_ctx.spec_agg_input_ok(old(self).pvss_indices@, old(self).pvss_shares@))
                        ==> final(self).rnd_ctx.proposed_this_epoch) && (!(old(self).current_block_hash is None && old(self).pvss_ctx.spec_agg_input_ok(
                        old(self).pvss_indices@,
                        old(self).pvss_shares@,
                    )) ==> *final(self) == *old(self)),
                    Event::EpochEnd => r.is_ok() && final(self).epoch == old(self).epoch + 1,
                    Event::ProposeTimeout => r.is_ok() && *final(self) == *old(self),
                    Event::VoteTimeout(h2) => (old(self).rnd_ctx.received_sync_cert_directly
                        ==> r.is_ok()) && (!old(self).rnd_ctx.received_sync_cert_directly ==> (
                    r.is_ok() <==> (old(self).current_block_hash matches Some(cur) && cur@
                        == h2@))),
                    Event::CommitTimeout(e2, h2) => (r.is_ok() <==> {
                        &&& e2 == old(self).epoch
                        &&& !old(self).equivocation_seen
                        &&& (old(self).current_block_hash matches Some(cur) && cur@ == h2@)
                        &&& old(self).rnd_ctx.received_sync_cert_directly
                        &&& !old(self).rnd_ctx.committed_this_epoch
                    }) && (r.is_ok() ==> final(self).committed@.len() == old(self).committed@.len() + 1),
                    Event::StopAcceptingSyncCerts(e2) => (r.is_ok() <==> e2 == old(self).epoch)
                        && (r.is_ok() ==> final(self).rnd_ctx.stop_accepting_sync_certs),
                    Event::Message(from, m) => match m {
                        ProtocolMsg::RawEpochPVSSSharing(_) => (r == Err::<(), ProtoError>(
                            ProtoError::WrongLeader,
                        ) <==> old(self).config.id != old(self).config.spec_leader_of(
                            old(self).epoch,
                        )) && (r.is_ok() ==> final(self).pvss_shares@.len() == old(self).pvss_shares@.len() + 1),
                        ProtocolMsg::RawStatus(_, h2, c) => r.is_ok() <==> (h2 == 0 || old(self).spec_status_acceptable(h2, c)),
                        ProtocolMsg::Proposal(e2, b, s2) => (r.is_ok() ==> old(self).spec_proposal_acceptable(from, e2, b, s2@)) && (old(self).spec_proposal_acceptable(from, e2, b, s2@) ==> (r.is_ok() || r
                            == Err::<(), ProtoError>(ProtoError::InvalidCert))),
                        ProtocolMsg::Vote(v) => r.is_ok() <==> old(self).spec_vote_acceptable(v),
                        ProtocolMsg::SyncCert(prop, pf) => prop.data.vote.height
                            < 0xffff_ffff_0000_0000u64 ==> ((r.is_ok() <==> old(self).spec_sync_cert_acceptable(from, prop, pf)) && (r.is_ok() ==> final(self).rnd_ctx.received_sync_cert_directly)),
                        ProtocolMsg::Deliver(_, _) => r.is_ok() && *final(self) == *old(self),
                        ProtocolMsg::DecryptionShare(e2, d) => r.is_ok() ==> old(self).spec_share_acceptable(from, e2, d),
                        ProtocolMsg::Beacon(_, _) => r.is_ok() && *final(self) == *old(self),
                    },
                }
            }),
    {
        match ev {
            Event::Propose => {
                let _ = self.do_propose(dq, msg_buf);
                Ok(())
            },
            Event::EpochEnd => {
                self.new_epoch(dq, msg_buf);
                Ok(())
            },
            Event::ProposeTimeout => {
                // nothing further to do: this epoch will not be proposed in
                Ok(())
            },
            Event::VoteTimeout(h) => self.on_vote_timeout(h, msg_buf),
            Event::CommitTimeout(e, h) => self.on_commit_timeout(e, h, msg_buf),
            Event::StopAcceptingSyncCerts(e) => self.stop_accepting_sync_certs(e),
            Event::Message(from, m) => match m {
                ProtocolMsg::RawEpochPVSSSharing(p) => self.on_pvss_sharing(from, p),
                ProtocolMsg::RawStatus(_, h, c) => self.on_status(from, h, c),
                ProtocolMsg::Proposal(e, b, s) => self.on_proposal(from, e, b, s, dq, msg_buf),
                ProtocolMsg::Vote(v) => self.on_vote(v, dq, msg_buf),
                ProtocolMsg::SyncCert(prop, pf) => {
                    if prop.data.vote.height >= 0xffff_ffff_0000_0000u64 {
                        return Err(ProtoError::InvalidCert);
                    }
                    match self.verify_sync_cert(from, &prop, &pf) {
                        Ok(()) => self.on_verified_sync_cert(prop, pf, dq, msg_buf),
                        Err(err) => Err(err),
                    }
                },
                ProtocolMsg::Deliver(_, _) => Ok(()),
                ProtocolMsg::DecryptionShare(e, d) => {
                    match self.on_decryption_share(from, e, d, msg_buf) {
                        Ok(_) => Ok(()),
                        Err(err) => Err(err),
                    }
                },
                ProtocolMsg::Beacon(_, _) => Ok(()),
            },
        }
    }
}

/// The state machine under its protocol name.
pub type OptRandStateMachine = Context;

} // verus!
