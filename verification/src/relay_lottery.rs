//! The relay lottery: which relay forwards the next packet.
//!
//! Relays are drawn at random in proportion to their weight, which follows
//! from reputation, performance and stake. A draw can instead be fixed by a
//! verifiable random function over a seed, so that it can be checked later.
//!
//! Reputation and performance are millionths; a weight of one is
//! `WEIGHT_ONE`.

use crate::clock::unix_now;
use crate::error::MixnodeError;
use crate::fixed::{clamped, product_of, UNIT};
use crate::reputation::{
    all_decayed, NodeReputation, ReputationManager, ReputationStatistics, Stake,
};
use crate::text::{decimal, decimal_string, views};
use crate::wire::{be64, be64_value, push_be64, push_range, read_be64};
use rand::distributions::{Distribution, WeightedError, WeightedIndex};
use rand::thread_rng;
use schnorrkel::vrf::{VRFPreOut, VRFProof};
use schnorrkel::{signing_context, Keypair, PublicKey};
use sha2::{Digest, Sha256};
use vstd::prelude::*;
use vstd::string::{is_ascii_spec_bytes, StringSliceAdditionalSpecFns};

verus! {

/// The weight one.
pub const WEIGHT_ONE: u64 = 100_000_000;

/// The least weight of a relay that may be drawn: a hundredth.
pub const WEIGHT_MIN: u64 = 1_000_000;

/// Most relays a lottery holds.
pub const MAX_RELAYS: usize = 1_000_000_000;

/// Length of a serialised key pair.
pub const KEYPAIR_LEN: usize = 96;

/// Length of the output of the verifiable random function and of a digest.
pub const OUTPUT_LEN: usize = 32;

/// Why a set of weights gives no distribution.
#[derive(Debug, Clone, Copy, PartialEq, Eq, Structural)]
pub enum WeightFault {
    /// There are no weights.
    NoItem,
    /// A weight is invalid.
    InvalidWeight,
    /// Every weight is zero.
    AllWeightsZero,
    /// There are too many weights.
    TooMany,
}

/// A distribution over the indices of a list of weights, each index as
/// likely as its weight is large: a `rand::distributions::WeightedIndex` over
/// `u64`.
#[verifier::external_body]
pub struct WeightTable {
    index: WeightedIndex<u64>,
}

/// The weights that a distribution was built from.
pub uninterp spec fn index_weights(table: WeightTable) -> Seq<u64>;

/// Sum of the weights.
pub open spec fn total_weight(weights: Seq<u64>) -> int
    decreases weights.len(),
{
    if weights.len() == 0 {
        0
    } else {
        total_weight(weights.drop_last()) + weights.last()
    }
}

/// Number of weights above zero.
pub open spec fn positive_count(weights: Seq<u64>) -> int
    decreases weights.len(),
{
    if weights.len() == 0 {
        0
    } else {
        positive_count(weights.drop_last()) + if weights.last() > 0 {
            1int
        } else {
            0int
        }
    }
}

/// Calls `rand::distributions::WeightedIndex::new` on the weights. As its
/// source shows for unsigned weights whose sum does not overflow: no weights
/// give `NoItem`, a sum of zero gives `AllWeightsZero`, anything else a
/// distribution over exactly these weights.
#[verifier::external_body]
fn build_weighted_index(weights: &Vec<u64>) -> (built: Result<WeightTable, WeightFault>)
    requires
        total_weight(weights@) <= u64::MAX,
    ensures
        weights@.len() == 0 ==> built is Err && built->Err_0 == WeightFault::NoItem,
        weights@.len() > 0 && total_weight(weights@) == 0 ==> built is Err && built->Err_0
            == WeightFault::AllWeightsZero,
        weights@.len() > 0 && total_weight(weights@) > 0 ==> built is Ok && index_weights(
            built->Ok_0,
        ) == weights@,
{
    match WeightedIndex::new(weights) {
        Ok(index) => Ok(WeightTable { index }),
        Err(WeightedError::NoItem) => Err(WeightFault::NoItem),
        Err(WeightedError::InvalidWeight) => Err(WeightFault::InvalidWeight),
        Err(WeightedError::AllWeightsZero) => Err(WeightFault::AllWeightsZero),
        Err(WeightedError::TooMany) => Err(WeightFault::TooMany),
    }
}

/// Calls `sample` of `rand::distributions::WeightedIndex` with the thread's
/// generator. Which index comes out is left open; it is the index of one of
/// the weights, and, the weights being whole numbers, never of a zero weight.
#[verifier::external_body]
fn sample_weighted_index(table: &WeightTable) -> (drawn: usize)
    ensures
        drawn < index_weights(*table).len(),
        index_weights(*table)[drawn as int] > 0,
{
    table.index.sample(&mut thread_rng())
}

/// The SHA-256 digest of `data`.
pub uninterp spec fn sha256_digest(data: Seq<u8>) -> Seq<u8>;

/// Calls `sha2::Sha256::digest`. The contract names the digest and states
/// its length, 32 bytes.
#[verifier::external_body]
fn sha256(data: &[u8]) -> (digest: Vec<u8>)
    ensures
        digest@ == sha256_digest(data@),
        digest@.len() == 32,
{
    Sha256::digest(data).to_vec()
}

/// The 32 bytes that the verifiable random function of the key pair `key`
/// gives on `seed` under the signing context `context`, drawn from its
/// result under the label `label`; nothing where `key` is no key pair.
pub uninterp spec fn vrf_output(
    key: Seq<u8>,
    context: Seq<u8>,
    label: Seq<u8>,
    seed: Seq<u8>,
) -> Option<Seq<u8>>;

/// The signing context of the lottery: the bytes of `betanet-relay-lottery`.
pub open spec fn lottery_context() -> Seq<u8> {
    "betanet-relay-lottery".spec_bytes()
}

/// The label under which the lottery draws bytes from a result of the
/// verifiable random function: the bytes of `lottery`.
pub open spec fn output_label() -> Seq<u8> {
    "lottery".spec_bytes()
}

/// The signing context of the lottery.
pub fn context_bytes() -> (bytes: &'static [u8])
    ensures
        bytes@ == lottery_context(),
        bytes@.len() == 21,
{
    proof {
        reveal_strlit("betanet-relay-lottery");
        is_ascii_spec_bytes("betanet-relay-lottery");
    }
    "betanet-relay-lottery".as_bytes()
}

/// The label of the lottery's output bytes.
pub fn label_bytes() -> (bytes: &'static [u8])
    ensures
        bytes@ == output_label(),
        bytes@.len() == 7,
{
    proof {
        reveal_strlit("lottery");
        is_ascii_spec_bytes("lottery");
    }
    "lottery".as_bytes()
}

/// What one evaluation of the verifiable random function hands out.
pub struct VrfEvaluation {
    /// The 32 random bytes.
    pub output: Vec<u8>,
    /// The pre-output (32 bytes) followed by the proof (64 bytes).
    pub proof: Vec<u8>,
}

/// Calls `schnorrkel::Keypair::generate` and `to_bytes`. Nothing is claimed
/// of the key but its length, 96 bytes.
#[verifier::external_body]
fn generate_keypair() -> (key: Vec<u8>)
    ensures
        key@.len() == 96,
{
    Keypair::generate().to_bytes().to_vec()
}

/// Calls `schnorrkel::Keypair::from_bytes`, `signing_context` on `context`,
/// `vrf_sign` on the seed under that context, and `make_bytes` with `label`
/// on the result. The output is a function of key, context, label and seed,
/// which the contract names; the proof differs from call to call and nothing
/// is claimed of it. The three lengths are those that the transcript
/// underneath takes.
#[verifier::external_body]
fn vrf_evaluate(key: &[u8], context: &[u8], label: &[u8], seed: &[u8]) -> (evaluation: Option<
    VrfEvaluation,
>)
    requires
        context@.len() <= u32::MAX,
        label@.len() <= u32::MAX,
        seed@.len() <= u32::MAX,
    ensures
        match evaluation {
            Some(e) => vrf_output(key@, context@, label@, seed@) == Some(e.output@)
                && e.output@.len() == 32,
            None => vrf_output(key@, context@, label@, seed@) is None,
        },
{
    let keypair = Keypair::from_bytes(key).ok()?;
    let (io, proof, _) = keypair.vrf_sign(signing_context(context).bytes(seed));
    let output: [u8; 32] = io.make_bytes(label);
    let mut proof_bytes = io.to_preout().to_bytes().to_vec();
    proof_bytes.extend_from_slice(&proof.to_bytes());
    Some(VrfEvaluation { output: output.to_vec(), proof: proof_bytes })
}

/// The 32 bytes that the verifiable random function gave on `seed` under
/// the signing context `context`, drawn under the label `label`, as far as
/// `proof` shows it under the public key `public_key`; nothing where the
/// proof does not hold.
pub uninterp spec fn vrf_checked_output(
    public_key: Seq<u8>,
    context: Seq<u8>,
    label: Seq<u8>,
    seed: Seq<u8>,
    proof: Seq<u8>,
) -> Option<Seq<u8>>;

/// Calls `schnorrkel::PublicKey::from_bytes`, `VRFPreOut::from_bytes` on
/// the first 32 bytes of the proof, `VRFProof::from_bytes` on the other 64,
/// `signing_context` on `context`, `vrf_verify` on the seed under that
/// context, and `make_bytes` with `label` on the result. The contract names
/// the outcome: the output where the proof holds, nothing where a part does
/// not read or the proof fails.
#[verifier::external_body]
fn vrf_check(public_key: &[u8], context: &[u8], label: &[u8], seed: &[u8], proof: &[u8]) -> (output:
    Option<Vec<u8>>)
    requires
        context@.len() <= u32::MAX,
        label@.len() <= u32::MAX,
        seed@.len() <= u32::MAX,
        proof@.len() == 96,
    ensures
        match output {
            Some(o) => vrf_checked_output(public_key@, context@, label@, seed@, proof@) == Some(
                o@,
            ) && o@.len() == 32,
            None => vrf_checked_output(public_key@, context@, label@, seed@, proof@) is None,
        },
{
    let public = PublicKey::from_bytes(public_key).ok()?;
    let preout = VRFPreOut::from_bytes(&proof[..32]).ok()?;
    let vrf_proof = VRFProof::from_bytes(&proof[32..]).ok()?;
    let transcript = signing_context(context).bytes(seed);
    let (io, _) = public.vrf_verify(transcript, &preout, &vrf_proof).ok()?;
    let output: [u8; 32] = io.make_bytes(label);
    Some(output.to_vec())
}

/// The weight that follows from reputation, performance and stake: half the
/// reputation, three tenths of the performance and a fifth of the stake
/// score `min(1, ln(stake) / 20)`, held between a hundredth and one. Without
/// a stake it is a hundredth.
pub open spec fn derived_weight(reputation: u64, performance: u64, stake: Stake) -> int {
    if stake.amount == 0 {
        1_000_000
    } else {
        clamped(
            50 * reputation + 30 * performance + (if stake.log >= 20_000_000 {
                20_000_000
            } else {
                stake.log as int
            }),
            1_000_000,
            100_000_000,
        )
    }
}

/// The reputation after a success or a failure: a tenth of the way towards
/// one, or a tenth down, rounded towards where it was.
pub open spec fn learned_reputation(reputation: u64, success: bool) -> int {
    if success {
        if reputation >= 1_000_000 {
            1_000_000
        } else {
            reputation + (1_000_000 - reputation) / 10
        }
    } else {
        reputation - reputation / 10
    }
}

/// Computes the weight of a relay.
pub fn weight_of(reputation: u64, performance: u64, stake: Stake) -> (weight: u64)
    ensures
        weight == derived_weight(reputation, performance, stake),
        WEIGHT_MIN <= weight <= WEIGHT_ONE,
{
    if stake.amount == 0 {
        return WEIGHT_MIN;
    }
    let stake_part: u128 = if stake.log >= 20_000_000 {
        20_000_000
    } else {
        stake.log as u128
    };
    let raw: u128 = 50 * (reputation as u128) + 30 * (performance as u128) + stake_part;
    if raw < WEIGHT_MIN as u128 {
        WEIGHT_MIN
    } else if raw > WEIGHT_ONE as u128 {
        WEIGHT_ONE
    } else {
        raw as u64
    }
}

/// With performance and stake the same, a higher reputation gives a weight
/// at least as high, and a strictly higher one unless both weights rest
/// on the floor of a hundredth or the ceiling of one.
pub proof fn lemma_weight_grows_with_reputation(
    lower: u64,
    higher: u64,
    performance: u64,
    stake: Stake,
)
    requires
        lower < higher,
    ensures
        derived_weight(lower, performance, stake) <= derived_weight(higher, performance, stake),
        stake.amount > 0 && derived_weight(higher, performance, stake) > 1_000_000
            && derived_weight(lower, performance, stake) < 100_000_000 ==> derived_weight(
            lower,
            performance,
            stake,
        ) < derived_weight(higher, performance, stake),
{
}

/// For reputations and performances of at most one, the ceiling is never in
/// the way: a higher reputation gives a strictly higher weight whenever the
/// higher weight is above the floor.
pub proof fn lemma_weight_strictly_grows(lower: u64, higher: u64, performance: u64, stake: Stake)
    requires
        lower < higher <= 1_000_000,
        performance <= 1_000_000,
        stake.amount > 0,
        derived_weight(higher, performance, stake) > 1_000_000,
    ensures
        derived_weight(lower, performance, stake) < derived_weight(higher, performance, stake),
{
}

/// A relay as the lottery sees it.
#[derive(Debug, Clone)]
pub struct WeightedRelay {
    /// The relay's address as text.
    pub address: String,
    /// Reputation in millionths.
    pub reputation: u64,
    /// Performance in millionths.
    pub performance: u64,
    /// The relay's stake.
    pub stake: Stake,
    /// The weight in the lottery; zero for a relay that is not to be drawn.
    pub weight: u64,
}

impl WeightedRelay {
    /// The weight is at most one.
    pub open spec fn wf(self) -> bool {
        self.weight <= WEIGHT_ONE
    }

    /// The relay after a success or a failure.
    pub open spec fn learned(self, success: bool) -> WeightedRelay {
        WeightedRelay {
            reputation: learned_reputation(self.reputation, success) as u64,
            weight: derived_weight(
                learned_reputation(self.reputation, success) as u64,
                self.performance,
                self.stake,
            ) as u64,
            ..self
        }
    }

    /// A relay with the weight that follows from reputation, performance and
    /// stake.
    pub fn new(address: String, reputation: u64, performance: u64, stake: Stake) -> (relay:
        WeightedRelay)
        ensures
            relay == (WeightedRelay {
                address,
                reputation,
                performance,
                stake,
                weight: derived_weight(reputation, performance, stake) as u64,
            }),
            relay.wf(),
            relay.weight >= WEIGHT_MIN,
    {
        let weight = weight_of(reputation, performance, stake);
        WeightedRelay { address, reputation, performance, stake, weight }
    }

    /// A copy of the relay.
    pub fn duplicate(&self) -> (copy: WeightedRelay)
        ensures
            copy == *self,
    {
        WeightedRelay {
            address: self.address.clone(),
            reputation: self.reputation,
            performance: self.performance,
            stake: self.stake,
            weight: self.weight,
        }
    }

    /// Moves the reputation a tenth of the way towards one on a success, a
    /// tenth down on a failure, and derives the weight anew.
    pub fn update_reputation(&mut self, success: bool)
        ensures
            *final(self) == old(self).learned(success),
            final(self).wf(),
            final(self).weight >= WEIGHT_MIN,
            success && old(self).reputation < 1_000_000 ==> final(self).reputation >= old(
                self,
            ).reputation,
            !success ==> final(self).reputation <= old(self).reputation,
    {
        if success {
            if self.reputation >= UNIT {
                self.reputation = UNIT;
            } else {
                self.reputation = self.reputation + (UNIT - self.reputation) / 10;
            }
        } else {
            self.reputation = self.reputation - self.reputation / 10;
        }
        self.weight = weight_of(self.reputation, self.performance, self.stake);
    }
}

/// The record of one draw: enough to check it again.
#[derive(Debug, Clone)]
pub struct LotteryProof {
    /// What the verifiable random function gave as proof, where one was used.
    pub vrf_proof: Option<Vec<u8>>,
    /// The seed of the draw.
    pub seed: Vec<u8>,
    /// The addresses that were drawn.
    pub selected: Vec<String>,
    /// The weights of all relays at the draw.
    pub weights: Vec<u64>,
    /// When the draw was made, in seconds since 1970.
    pub timestamp: u64,
}

impl LotteryProof {
    /// The record is complete: it has a proof, a seed and a selection.
    pub open spec fn complete(self) -> bool {
        self.vrf_proof is Some && self.seed@.len() > 0 && self.selected@.len() > 0
    }

    /// What the verifiable random function gave on the record's seed under
    /// the lottery's signing context and label, as far as the record's proof
    /// shows it under `public_key`; nothing where
    /// the record is not complete, its proof is not 96 bytes long, its seed
    /// is too long, or the proof does not hold.
    pub open spec fn proven_output(self, public_key: Seq<u8>) -> Option<Seq<u8>> {
        if self.complete() && self.vrf_proof->Some_0@.len() == 96 && self.seed@.len() <= u32::MAX {
            vrf_checked_output(
                public_key,
                lottery_context(),
                output_label(),
                self.seed@,
                self.vrf_proof->Some_0@,
            )
        } else {
            None
        }
    }

    /// The output that the proof shows under `vrf_public_key`.
    pub fn output_under(&self, vrf_public_key: &[u8; 32]) -> (output: Option<Vec<u8>>)
        ensures
            match output {
                Some(o) => self.proven_output(vrf_public_key@) == Some(o@) && o@.len() == 32,
                None => self.proven_output(vrf_public_key@) is None,
            },
    {
        match &self.vrf_proof {
            Some(proof) => {
                if self.seed.len() == 0 || self.selected.len() == 0 || proof.len() != 96
                    || self.seed.len() > 0xFFFF_FFFF {
                    None
                } else {
                    vrf_check(
                        vrf_public_key.as_slice(),
                        context_bytes(),
                        label_bytes(),
                        self.seed.as_slice(),
                        proof.as_slice(),
                    )
                }
            },
            None => None,
        }
    }

    /// Whether the record is complete and its proof holds under
    /// `vrf_public_key` for its seed.
    pub fn verify(&self, vrf_public_key: &[u8; 32]) -> (checked: Result<bool, MixnodeError>)
        ensures
            checked is Ok,
            checked->Ok_0 == self.proven_output(vrf_public_key@) is Some,
    {
        Ok(self.output_under(vrf_public_key).is_some())
    }
}

/// The weights of the relays, in their order.
pub open spec fn weights_of(relays: Seq<WeightedRelay>) -> Seq<u64> {
    relays.map_values(|r: WeightedRelay| r.weight)
}

/// Index of the last relay at `address`.
pub open spec fn last_index_of(relays: Seq<WeightedRelay>, address: Seq<char>) -> Option<int>
    decreases relays.len(),
{
    if relays.len() == 0 {
        None
    } else if relays.last().address@ == address {
        Some(relays.len() - 1)
    } else {
        last_index_of(relays.drop_last(), address)
    }
}

/// Why no relay can be drawn by weight, where none can: there is no relay,
/// or every weight is zero.
pub open spec fn draw_fault(weights: Seq<u64>) -> Option<Seq<char>> {
    if weights.len() == 0 {
        Some("No relays available for lottery"@)
    } else if total_weight(weights) == 0 {
        Some("Invalid weights: All weights are zero in distribution"@)
    } else {
        None
    }
}

/// `e` is a routing error with the description `text`: what a draw that
/// cannot be made fails with.
pub open spec fn is_routing_error(e: MixnodeError, text: Seq<char>) -> bool {
    e matches MixnodeError::Routing(m) && m@ == text
}

/// What the verifiable random function gives the lottery on `seed`: its
/// output for the key pair under the lottery's signing context and label;
/// nothing without a key pair, for a seed too long to sign, or where the
/// key is no key pair.
pub open spec fn signed_output(key: Option<Seq<u8>>, seed: Seq<u8>) -> Option<Seq<u8>> {
    match key {
        Some(k) => if seed.len() > u32::MAX {
            None
        } else {
            vrf_output(k, lottery_context(), output_label(), seed)
        },
        None => None,
    }
}

/// Every address of `list` is that of a relay with a weight above zero.
pub open spec fn drawn_by_weight(relays: Seq<WeightedRelay>, list: Seq<String>) -> bool {
    forall|k: int|
        0 <= k < list.len() ==> exists|i: int|
            0 <= i < relays.len() && (#[trigger] relays[i]).weight > 0 && relays[i].address@
                == (#[trigger] list[k])@
}

proof fn lemma_total_weight_bound(weights: Seq<u64>, most: u64)
    requires
        forall|i: int| 0 <= i < weights.len() ==> (#[trigger] weights[i]) <= most,
    ensures
        0 <= total_weight(weights) <= weights.len() * most,
        positive_count(weights) == 0 <==> total_weight(weights) == 0,
        0 <= positive_count(weights) <= weights.len(),
    decreases weights.len(),
{
    if weights.len() > 0 {
        let head = weights.drop_last();
        assert forall|i: int| 0 <= i < head.len() implies (#[trigger] head[i]) <= most by {
            assert(head[i] == weights[i]);
        }
        lemma_total_weight_bound(head, most);
        assert(weights.last() == weights[weights.len() - 1]);
        assert(head.len() * most + most == weights.len() * most) by (nonlinear_arith)
            requires
                head.len() + 1 == weights.len(),
        ;
    }
}

proof fn lemma_positive_count_remove(weights: Seq<u64>, i: int)
    requires
        0 <= i < weights.len(),
    ensures
        positive_count(weights.remove(i)) == positive_count(weights) - if weights[i] > 0 {
            1int
        } else {
            0int
        },
    decreases weights.len(),
{
    if i == weights.len() - 1 {
        assert(weights.remove(i) =~= weights.drop_last());
    } else {
        let shorter = weights.remove(i);
        assert(shorter.drop_last() =~= weights.drop_last().remove(i));
        assert(shorter.last() == weights.last());
        lemma_positive_count_remove(weights.drop_last(), i);
        assert(weights.drop_last()[i] == weights[i]);
    }
}

/// The message for a draw of more unique relays than there are.
pub open spec fn too_many_text(count: nat, available: nat) -> Seq<char> {
    "Cannot select "@ + decimal(count) + " unique relays from "@ + decimal(available)
        + " available"@
}

/// What a record of a draw from `relays` on `seed` holds: the seed, the
/// addresses drawn, all weights, and a proof exactly where the verifiable
/// random function was used.
pub open spec fn records_draw(
    proof: LotteryProof,
    seed: Seq<u8>,
    relays: Seq<WeightedRelay>,
    selected: Seq<String>,
    with_vrf: bool,
) -> bool {
    &&& proof.seed@ == seed
    &&& proof.weights@ == weights_of(relays)
    &&& views(proof.selected@) == views(selected)
    &&& proof.vrf_proof is Some <==> with_vrf
}

/// Every address of `list` is the one that the hash of the output and its
/// position selects.
pub open spec fn drawn_by_hash(relays: Seq<WeightedRelay>, output: Seq<u8>, list: Seq<String>) -> bool {
    forall|k: int|
        0 <= k < list.len() ==> (#[trigger] list[k])@ == relays[index_from(
            sha256_digest(derived_input(output, k as u64)),
            relays.len() as int,
        )].address@
}

/// The selection is what `output` gives among `relays`: one address, that
/// of the relay which the output selects, or for every position the address
/// which the hash of the output and the position selects.
pub open spec fn draw_matches(relays: Seq<WeightedRelay>, output: Seq<u8>, selected: Seq<String>) -> bool {
    relays.len() > 0 && ((selected.len() == 1 && selected[0]@ == relays[index_from(
        output,
        relays.len() as int,
    )].address@) || drawn_by_hash(relays, output, selected))
}

/// A record is a true record of a draw from `relays` under `public_key`:
/// its proof holds, its weights are those of the relays, and its selection
/// is what the proven output gives.
pub open spec fn true_record(proof: LotteryProof, relays: Seq<WeightedRelay>, public_key: Seq<u8>) -> bool {
    proof.proven_output(public_key) matches Some(output) && proof.weights@ == weights_of(relays)
        && draw_matches(relays, output, proof.selected@)
}

fn copy_texts(list: &Vec<String>) -> (copy: Vec<String>)
    ensures
        views(copy@) == views(list@),
        copy@.len() == list@.len(),
{
    let mut copy: Vec<String> = Vec::new();
    let mut i: usize = 0;
    while i < list.len()
        invariant
            i <= list@.len(),
            copy@.len() == i,
            forall|j: int| 0 <= j < i ==> (#[trigger] copy@[j])@ == list@[j]@,
        decreases list@.len() - i,
    {
        copy.push(list[i].clone());
        i = i + 1;
    }
    assert(views(copy@) =~= views(list@));
    copy
}

fn fault_text(fault: WeightFault) -> (text: &'static str)
    ensures
        text@ == (match fault {
            WeightFault::NoItem => "Invalid weights: No weights provided in distribution"@,
            WeightFault::InvalidWeight => "Invalid weights: A weight is invalid in distribution"@,
            WeightFault::AllWeightsZero => "Invalid weights: All weights are zero in distribution"@,
            WeightFault::TooMany => "Invalid weights: Too many weights (hit u32::MAX) in distribution"@,
        }),
{
    match fault {
        WeightFault::NoItem => "Invalid weights: No weights provided in distribution",
        WeightFault::InvalidWeight => "Invalid weights: A weight is invalid in distribution",
        WeightFault::AllWeightsZero => "Invalid weights: All weights are zero in distribution",
        WeightFault::TooMany => "Invalid weights: Too many weights (hit u32::MAX) in distribution",
    }
}

/// No index occurs twice in `picks`, and each is that of a relay.
pub open spec fn distinct_picks(picks: Seq<int>, count: int) -> bool {
    &&& forall|k: int| 0 <= k < picks.len() ==> 0 <= #[trigger] picks[k] < count
    &&& forall|a: int, b: int| 0 <= a < b < picks.len() ==> #[trigger] picks[a] != #[trigger] picks[b]
}

/// `list` holds the addresses of the relays at `picks`, in that order, each
/// of a weight above zero.
pub open spec fn addresses_at(relays: Seq<WeightedRelay>, picks: Seq<int>, list: Seq<String>) -> bool {
    &&& list.len() == picks.len()
    &&& forall|k: int|
        0 <= k < picks.len() ==> 0 <= #[trigger] picks[k] < relays.len() && relays[picks[k]].weight
            > 0 && list[k]@ == relays[picks[k]].address@
}

/// No two relays have one address.
pub open spec fn distinct_addresses(relays: Seq<WeightedRelay>) -> bool {
    forall|i: int, j: int|
        0 <= i < j < relays.len() ==> (#[trigger] relays[i]).address@ != (
        #[trigger] relays[j]).address@
}

/// Where no two relays share an address, the addresses of relays drawn
/// without replacement are all different.
pub proof fn lemma_unique_draw_gives_distinct_addresses(
    relays: Seq<WeightedRelay>,
    picks: Seq<int>,
    list: Seq<String>,
)
    requires
        distinct_addresses(relays),
        distinct_picks(picks, relays.len() as int),
        addresses_at(relays, picks, list),
    ensures
        forall|a: int, b: int| 0 <= a < b < list.len() ==> (#[trigger] list[a])@ != (#[trigger] list[b])@,
{
    assert forall|a: int, b: int| 0 <= a < b < list.len() implies (#[trigger] list[a])@ != (
    #[trigger] list[b])@ by {
        let i = picks[a];
        let j = picks[b];
        assert(i != j);
        if i < j {
            assert(relays[i].address@ != relays[j].address@);
        } else {
            assert(relays[j].address@ != relays[i].address@);
        }
    }
}

/// The index that random bytes select among `count` relays: the number in
/// their first eight bytes, most significant first, modulo `count`.
pub open spec fn index_from(bytes: Seq<u8>, count: int) -> int
    recommends
        bytes.len() >= 8,
        count > 0,
{
    be64_value(bytes) as int % count
}

/// The index that random bytes select among `count` relays.
pub fn lottery_index(bytes: &[u8], count: usize) -> (index: usize)
    requires
        bytes@.len() >= 8,
        count > 0,
    ensures
        index == index_from(bytes@, count as int),
        index < count,
{
    let value = read_be64(bytes);
    (value % (count as u64)) as usize
}

/// What is hashed for the draw at `position` of several: the output of the
/// verifiable random function followed by the position in eight bytes, most
/// significant first.
pub open spec fn derived_input(output: Seq<u8>, position: u64) -> Seq<u8> {
    output + be64(position)
}

/// What is hashed for the draw at `position` of several.
pub fn derive_input(output: &[u8], position: u64) -> (input: Vec<u8>)
    ensures
        input@ == derived_input(output@, position),
{
    let mut input: Vec<u8> = Vec::new();
    push_range(&mut input, output, 0, output.len());
    assert(output@.subrange(0, output@.len() as int) =~= output@);
    push_be64(&mut input, position);
    assert(input@ =~= output@ + be64(position));
    input
}

/// The cost of forgery for an attacker who holds `attacker` of a total
/// stake `total`, in millionths: nothing without Sybil resistance or
/// without stake; the attacker's share while it is under 33 hundredths;
/// from there on one over what is left to the others, that remainder taken
/// as at least a hundredth. Rounded down.
pub open spec fn forgery_cost_of(sybil_resistance: bool, total: int, attacker: int) -> int {
    if !sybil_resistance || total <= 0 {
        0
    } else if attacker * 100 < 33 * total {
        attacker * 1_000_000 / total
    } else if (total - attacker) * 100 <= total {
        100_000_000
    } else {
        total * 1_000_000 / (total - attacker)
    }
}

/// The cost of forgery never falls as the attacker's stake grows.
pub proof fn lemma_forgery_cost_is_monotone(
    sybil_resistance: bool,
    total: int,
    smaller: int,
    larger: int,
)
    requires
        0 <= smaller <= larger,
        0 <= total,
    ensures
        forgery_cost_of(sybil_resistance, total, smaller) <= forgery_cost_of(
            sybil_resistance,
            total,
            larger,
        ),
{
    if sybil_resistance && total > 0 {
        let low = forgery_cost_of(sybil_resistance, total, smaller);
        let high = forgery_cost_of(sybil_resistance, total, larger);
        if larger * 100 < 33 * total {
            assert(smaller * 1_000_000 / total <= larger * 1_000_000 / total) by (nonlinear_arith)
                requires
                    0 <= smaller <= larger,
                    total > 0,
            ;
        } else {
            lemma_forgery_cost_above_threshold(total, larger);
            if smaller * 100 < 33 * total {
                assert(smaller * 1_000_000 / total <= 1_000_000) by (nonlinear_arith)
                    requires
                        0 <= smaller,
                        smaller * 100 < 33 * total,
                        total > 0,
                ;
            } else if (total - larger) * 100 <= total {
                if (total - smaller) * 100 > total {
                    assert(total * 1_000_000 / (total - smaller) <= 100_000_000) by (nonlinear_arith)
                        requires
                            (total - smaller) * 100 > total,
                            total > 0,
                    ;
                }
            } else {
                assert(total * 1_000_000 / (total - smaller) <= total * 1_000_000 / (total
                    - larger)) by (nonlinear_arith)
                    requires
                        0 < total - larger <= total - smaller,
                        total > 0,
                ;
            }
        }
    }
}

/// From a share of 33 hundredths on, the cost of forgery is at least one
/// and at most a hundred.
pub proof fn lemma_forgery_cost_above_threshold(total: int, attacker: int)
    requires
        total > 0,
        attacker >= 0,
        attacker * 100 >= 33 * total,
    ensures
        1_000_000 <= forgery_cost_of(true, total, attacker) <= 100_000_000,
{
    if (total - attacker) * 100 > total {
        assert(1_000_000 <= total * 1_000_000 / (total - attacker) <= 100_000_000) by (nonlinear_arith)
            requires
                (total - attacker) * 100 > total,
                total > 0,
                0 < total - attacker <= total,
        ;
    }
}

/// Sum of the stakes of the relays.
pub open spec fn total_stake(relays: Seq<WeightedRelay>) -> int
    decreases relays.len(),
{
    if relays.len() == 0 {
        0
    } else {
        total_stake(relays.drop_last()) + relays.last().stake.amount
    }
}

/// Sum of the reputations of the relays.
pub open spec fn total_reputation(relays: Seq<WeightedRelay>) -> int
    decreases relays.len(),
{
    if relays.len() == 0 {
        0
    } else {
        total_reputation(relays.drop_last()) + relays.last().reputation
    }
}

/// Figures on a lottery.
#[derive(Debug, Clone, Copy, PartialEq, Eq, Structural)]
pub struct LotteryStatistics {
    pub total_relays: usize,
    /// Sum of all stakes; the largest number where the sum is beyond it.
    pub total_stake: u64,
    /// Mean reputation in millionths, rounded down; zero without relays.
    pub avg_reputation: u64,
    /// Mean weight, rounded down; zero without relays.
    pub avg_weight: u64,
    pub sybil_resistance: bool,
    pub min_stake: u64,
}

/// The figures on `relays` under the given settings.
pub open spec fn lottery_statistics(relays: Seq<WeightedRelay>, sybil_resistance: bool, min_stake: u64) -> LotteryStatistics {
    LotteryStatistics {
        total_relays: relays.len() as usize,
        total_stake: if total_stake(relays) > u64::MAX {
            u64::MAX
        } else {
            total_stake(relays) as u64
        },
        avg_reputation: if relays.len() == 0 {
            0
        } else {
            (total_reputation(relays) / (relays.len() as int)) as u64
        },
        avg_weight: if relays.len() == 0 {
            0
        } else {
            (total_weight(weights_of(relays)) / (relays.len() as int)) as u64
        },
        sybil_resistance,
        min_stake,
    }
}

/// The performance that follows from a node's metrics, in millionths:
/// latency score times success rate times uptime, the uptime taken as at
/// most one, rounded down after each product.
pub open spec fn performance_of(node: NodeReputation) -> int {
    let uptime = if node.metrics.uptime > 1_000_000 {
        1_000_000
    } else {
        node.metrics.uptime as int
    };
    (node.metrics.latency_score_of() * node.metrics.forward_rate() / 1_000_000) * uptime
        / 1_000_000
}

/// The relay brought in line with the ledger: unchanged where the ledger
/// does not know its address; with a weight of zero where Sybil resistance
/// is on and the node's stake is under the least stake; else with the
/// node's reputation, performance and stake, and the weight that follows.
pub open spec fn synced(
    relay: WeightedRelay,
    ledger: Map<Seq<char>, NodeReputation>,
    sybil_resistance: bool,
    min_stake: u64,
) -> WeightedRelay {
    if !ledger.contains_key(relay.address@) {
        relay
    } else {
        let node = ledger[relay.address@];
        if sybil_resistance && node.stake.amount < min_stake {
            WeightedRelay { weight: 0, ..relay }
        } else {
            let reputation = crate::reputation::reputation_of(node.reputation_points as int) as u64;
            let performance = performance_of(node) as u64;
            WeightedRelay {
                reputation,
                performance,
                stake: node.stake,
                weight: derived_weight(reputation, performance, node.stake) as u64,
                ..relay
            }
        }
    }
}

/// Every relay of `after` is the one of `before` at its place, brought in
/// line with the ledger.
pub open spec fn all_synced(
    before: Seq<WeightedRelay>,
    after: Seq<WeightedRelay>,
    ledger: Map<Seq<char>, NodeReputation>,
    sybil_resistance: bool,
    min_stake: u64,
) -> bool {
    &&& after.len() == before.len()
    &&& forall|i: int|
        0 <= i < before.len() ==> (#[trigger] after[i]) == synced(
            before[i],
            ledger,
            sybil_resistance,
            min_stake,
        )
}

/// The relays to draw from, and the settings of the draw.
pub struct RelayLottery {
    relays: Vec<WeightedRelay>,
    table: Option<WeightTable>,
    vrf_keypair: Option<Vec<u8>>,
    reputation_manager: Option<ReputationManager>,
    sybil_resistance: bool,
    min_stake: u64,
}

impl RelayLottery {
    /// The relays, in the order in which they were added.
    pub closed spec fn relays(self) -> Seq<WeightedRelay> {
        self.relays@
    }

    /// The key pair of the verifiable random function, serialised.
    pub closed spec fn key(self) -> Option<Seq<u8>> {
        match self.vrf_keypair {
            Some(k) => Some(k@),
            None => None,
        }
    }

    /// The reputation ledger that the lottery synchronises with.
    pub closed spec fn manager(self) -> Option<ReputationManager> {
        self.reputation_manager
    }

    /// Whether relays under the least stake are kept out of the draw.
    pub closed spec fn sybil_resistant(self) -> bool {
        self.sybil_resistance
    }

    /// The least stake of a relay that takes part under Sybil resistance.
    pub closed spec fn least_stake(self) -> u64 {
        self.min_stake
    }

    /// Every weight is at most one, there are at most `MAX_RELAYS` relays, a
    /// cached distribution is over the relays' weights, a key pair has 96
    /// bytes, and the ledger is valid.
    pub closed spec fn wf(self) -> bool {
        &&& self.relays@.len() <= MAX_RELAYS
        &&& forall|i: int| 0 <= i < self.relays@.len() ==> (#[trigger] self.relays@[i]).wf()
        &&& self.table matches Some(t) ==> index_weights(t) == weights_of(self.relays@)
            && draw_fault(weights_of(self.relays@)) is None
        &&& self.vrf_keypair matches Some(k) ==> k@.len() == 96
        &&& self.reputation_manager matches Some(m) ==> m.wf()
    }

    /// Key pair, ledger and settings are those of `other`.
    pub open spec fn same_settings(self, other: RelayLottery) -> bool {
        &&& self.key() == other.key()
        &&& self.manager() == other.manager()
        &&& self.sybil_resistant() == other.sybil_resistant()
        &&& self.least_stake() == other.least_stake()
    }

    /// A lottery without relays, key pair or ledger, and without Sybil resistance.
    pub fn new() -> (lottery: RelayLottery)
        ensures
            lottery.wf(),
            lottery.relays().len() == 0,
            lottery.key() is None,
            lottery.manager() is None,
            !lottery.sybil_resistant(),
            lottery.least_stake() == 0,
    {
        RelayLottery {
            relays: Vec::new(),
            table: None,
            vrf_keypair: None,
            reputation_manager: None,
            sybil_resistance: false,
            min_stake: 0,
        }
    }

    /// A lottery with a fresh key pair, an empty ledger, Sybil resistance
    /// and a least stake of 1000.
    pub fn with_vrf() -> (lottery: RelayLottery)
        ensures
            lottery.wf(),
            lottery.relays().len() == 0,
            lottery.key() is Some,
            lottery.manager() matches Some(m) && m.entries().len() == 0 && m.threshold() == 0,
            lottery.sybil_resistant(),
            lottery.least_stake() == 1000,
    {
        RelayLottery {
            relays: Vec::new(),
            table: None,
            vrf_keypair: Some(generate_keypair()),
            reputation_manager: Some(ReputationManager::default()),
            sybil_resistance: true,
            min_stake: 1000,
        }
    }

    /// A lottery with the given settings; with Sybil resistance it has a
    /// fresh key pair and an empty ledger, without it neither.
    pub fn with_config(sybil_resistance: bool, min_stake: u64) -> (lottery: RelayLottery)
        ensures
            lottery.wf(),
            lottery.relays().len() == 0,
            lottery.key() is Some <==> sybil_resistance,
            sybil_resistance ==> (lottery.manager() matches Some(m) && m.entries().len() == 0
                && m.threshold() == 0),
            !sybil_resistance ==> lottery.manager() is None,
            lottery.sybil_resistant() == sybil_resistance,
            lottery.least_stake() == min_stake,
    {
        RelayLottery {
            relays: Vec::new(),
            table: None,
            vrf_keypair: if sybil_resistance {
                Some(generate_keypair())
            } else {
                None
            },
            reputation_manager: if sybil_resistance {
                Some(ReputationManager::default())
            } else {
                None
            },
            sybil_resistance,
            min_stake,
        }
    }

    /// The public key of the key pair, where there is one: its last 32 bytes.
    pub fn vrf_public_key(&self) -> (public: Option<[u8; 32]>)
        requires
            self.wf(),
        ensures
            match self.key() {
                Some(k) => public is Some && public->Some_0@ == k.subrange(64, 96),
                None => public is None,
            },
    {
        match &self.vrf_keypair {
            Some(k) => {
                let mut public = [0u8; 32];
                let mut i: usize = 0;
                while i < 32
                    invariant
                        i <= 32,
                        k@.len() == 96,
                        forall|j: int| 0 <= j < i ==> public@[j] == k@[64 + j],
                    decreases 32 - i,
                {
                    public[i] = k[64 + i];
                    i = i + 1;
                }
                assert(public@ =~= k@.subrange(64, 96));
                Some(public)
            },
            None => None,
        }
    }

    /// Adds a relay at the end.
    pub fn add_relay(&mut self, relay: WeightedRelay)
        requires
            old(self).wf(),
            relay.wf(),
            old(self).relays().len() < MAX_RELAYS,
        ensures
            final(self).wf(),
            final(self).relays() == old(self).relays().push(relay),
            final(self).same_settings(*old(self)),
    {
        self.relays.push(relay);
        self.table = None;
    }

    fn find_last(&self, address: &str) -> (at: Option<usize>)
        ensures
            match at {
                Some(i) => last_index_of(self.relays@, address@) == Some(i as int) && i
                    < self.relays@.len(),
                None => last_index_of(self.relays@, address@) is None,
            },
    {
        let key = String::from_str(address);
        let mut i: usize = self.relays.len();
        assert(self.relays@.take(i as int) =~= self.relays@);
        while i > 0
            invariant
                i <= self.relays@.len(),
                key@ == address@,
                last_index_of(self.relays@, address@) == last_index_of(
                    self.relays@.take(i as int),
                    address@,
                ),
            decreases i,
        {
            proof {
                let head = self.relays@.take(i as int);
                assert(head.last() == self.relays@[i - 1]);
                assert(head.drop_last() =~= self.relays@.take(i - 1));
            }
            if self.relays[i - 1].address == key {
                return Some(i - 1);
            }
            i = i - 1;
        }
        None
    }

    /// Removes the relay last added at `address`, if there is one.
    pub fn remove_relay(&mut self, address: &str)
        requires
            old(self).wf(),
        ensures
            final(self).wf(),
            final(self).relays() == (match last_index_of(old(self).relays(), address@) {
                Some(i) => old(self).relays().remove(i),
                None => old(self).relays(),
            }),
            final(self).same_settings(*old(self)),
    {
        match self.find_last(address) {
            Some(i) => {
                self.relays.remove(i);
                self.table = None;
            },
            None => {},
        }
    }

    /// Counts a success or a failure of the relay last added at `address`.
    pub fn update_relay_reputation(&mut self, address: &str, success: bool)
        requires
            old(self).wf(),
        ensures
            final(self).wf(),
            final(self).relays() == (match last_index_of(old(self).relays(), address@) {
                Some(i) => old(self).relays().update(i, old(self).relays()[i].learned(success)),
                None => old(self).relays(),
            }),
            final(self).same_settings(*old(self)),
    {
        match self.find_last(address) {
            Some(i) => {
                let mut relay = self.relays[i].duplicate();
                relay.update_reputation(success);
                self.relays[i] = relay;
                self.table = None;
            },
            None => {},
        }
    }

    /// Number of relays.
    pub fn relay_count(&self) -> (count: usize)
        ensures
            count == self.relays().len(),
    {
        self.relays.len()
    }

    /// The relay last added at `address`.
    pub fn get_relay(&self, address: &str) -> (found: Option<&WeightedRelay>)
        ensures
            match last_index_of(self.relays(), address@) {
                Some(i) => found is Some && *found->Some_0 == self.relays()[i],
                None => found is None,
            },
    {
        match self.find_last(address) {
            Some(i) => Some(&self.relays[i]),
            None => None,
        }
    }

    fn current_weights(&self) -> (weights: Vec<u64>)
        ensures
            weights@ == weights_of(self.relays@),
    {
        let mut weights: Vec<u64> = Vec::new();
        let mut i: usize = 0;
        while i < self.relays.len()
            invariant
                i <= self.relays@.len(),
                weights@ == weights_of(self.relays@.take(i as int)),
            decreases self.relays@.len() - i,
        {
            weights.push(self.relays[i].weight);
            i = i + 1;
            assert(weights@ =~= weights_of(self.relays@.take(i as int)));
        }
        assert(self.relays@.take(i as int) =~= self.relays@);
        weights
    }

    fn ensure_weighted_index(&mut self) -> (ready: Result<(), MixnodeError>)
        requires
            old(self).wf(),
        ensures
            final(self).wf(),
            final(self).relays() == old(self).relays(),
            final(self).same_settings(*old(self)),
            match draw_fault(weights_of(old(self).relays())) {
                Some(text) => ready is Err && is_routing_error(ready->Err_0, text),
                None => ready is Ok && final(self).table is Some,
            },
    {
        if self.table.is_none() {
            if self.relays.len() == 0 {
                return Err(
                    MixnodeError::Routing(String::from_str("No relays available for lottery")),
                );
            }
            let weights = self.current_weights();
            proof {
                assert forall|i: int| 0 <= i < weights@.len() implies (#[trigger] weights@[i])
                    <= WEIGHT_ONE by {
                    assert(self.relays@[i].wf());
                }
                lemma_total_weight_bound(weights@, WEIGHT_ONE);
                assert(weights@.len() * WEIGHT_ONE <= MAX_RELAYS * WEIGHT_ONE) by (nonlinear_arith)
                    requires
                        weights@.len() <= MAX_RELAYS,
                ;
            }
            match build_weighted_index(&weights) {
                Ok(table) => {
                    self.table = Some(table);
                },
                Err(fault) => {
                    return Err(MixnodeError::Routing(String::from_str(fault_text(fault))));
                },
            }
        }
        Ok(())
    }

    /// Draws one relay, each as likely as its weight is large.
    pub fn select_relay(&mut self) -> (drawn: Result<&WeightedRelay, MixnodeError>)
        requires
            old(self).wf(),
        ensures
            final(self).wf(),
            final(self).relays() == old(self).relays(),
            final(self).same_settings(*old(self)),
            match draw_fault(weights_of(old(self).relays())) {
                Some(text) => drawn is Err && is_routing_error(drawn->Err_0, text),
                None => drawn is Ok && exists|i: int|
                    0 <= i < old(self).relays().len() && *drawn->Ok_0 == (#[trigger] old(
                        self,
                    ).relays()[i]) && old(self).relays()[i].weight > 0,
            },
    {
        match self.ensure_weighted_index() {
            Err(e) => {
                return Err(e);
            },
            Ok(()) => {},
        }
        let index = match &self.table {
            Some(table) => sample_weighted_index(table),
            None => 0,
        };
        assert(weights_of(self.relays@)[index as int] == self.relays@[index as int].weight);
        Ok(&self.relays[index])
    }

    /// Draws `count` relays, one after the other, each time from all relays.
    pub fn select_relays(&mut self, count: usize) -> (drawn: Result<Vec<String>, MixnodeError>)
        requires
            old(self).wf(),
        ensures
            final(self).wf(),
            final(self).relays() == old(self).relays(),
            final(self).same_settings(*old(self)),
            match draw_fault(weights_of(old(self).relays())) {
                Some(text) => drawn is Err && is_routing_error(drawn->Err_0, text),
                None => drawn is Ok && drawn->Ok_0@.len() == count && drawn_by_weight(
                    old(self).relays(),
                    drawn->Ok_0@,
                ),
            },
    {
        match self.ensure_weighted_index() {
            Err(e) => {
                return Err(e);
            },
            Ok(()) => {},
        }
        let mut selected: Vec<String> = Vec::new();
        let mut done: usize = 0;
        while done < count
            invariant
                done <= count,
                selected@.len() == done,
                self.wf(),
                self.table is Some,
                drawn_by_weight(self.relays@, selected@),
            decreases count - done,
        {
            let index = match &self.table {
                Some(table) => sample_weighted_index(table),
                None => 0,
            };
            assert(weights_of(self.relays@)[index as int] == self.relays@[index as int].weight);
            let ghost before = selected@;
            selected.push(self.relays[index].address.clone());
            proof {
                assert forall|k: int| 0 <= k < selected@.len() implies exists|i: int|
                    0 <= i < self.relays@.len() && (#[trigger] self.relays@[i]).weight > 0
                        && self.relays@[i].address@ == (#[trigger] selected@[k])@ by {
                    if k < before.len() {
                        assert(selected@[k] == before[k]);
                    } else {
                        assert(self.relays@[index as int].weight > 0);
                    }
                }
            }
            done = done + 1;
        }
        Ok(selected)
    }

    /// Draws `count` relays without drawing any twice: each draw is by
    /// weight among the relays not drawn yet.
    pub fn select_unique_relays(&mut self, count: usize) -> (drawn: Result<Vec<String>, MixnodeError>)
        requires
            old(self).wf(),
        ensures
            final(self).wf(),
            final(self).relays() == old(self).relays(),
            final(self).same_settings(*old(self)),
            count > old(self).relays().len() ==> drawn is Err && is_routing_error(
                drawn->Err_0,
                too_many_text(count as nat, old(self).relays().len()),
            ),
            count <= old(self).relays().len() ==> (match draw_fault(
                weights_of(old(self).relays()),
            ) {
                Some(text) => drawn is Err && is_routing_error(drawn->Err_0, text),
                None => if count > positive_count(weights_of(old(self).relays())) {
                    drawn is Err && is_routing_error(
                        drawn->Err_0,
                        "Invalid weights: All weights are zero in distribution"@,
                    )
                } else {
                    drawn is Ok && drawn->Ok_0@.len() == count && exists|picks: Seq<int>|
                        distinct_picks(picks, old(self).relays().len() as int) && #[trigger] addresses_at(
                            old(self).relays(),
                            picks,
                            drawn->Ok_0@,
                        )
                },
            }),
    {
        let n = self.relays.len();
        if count > n {
            let mut message = String::from_str("Cannot select ");
            message.append(decimal_string(count as u64).as_str());
            message.append(" unique relays from ");
            message.append(decimal_string(n as u64).as_str());
            message.append(" available");
            return Err(MixnodeError::Routing(message));
        }
        match self.ensure_weighted_index() {
            Err(e) => {
                return Err(e);
            },
            Ok(()) => {},
        }
        let mut weights = self.current_weights();
        let mut available: Vec<usize> = Vec::new();
        let mut i: usize = 0;
        while i < n
            invariant
                i <= n,
                available@.len() == i,
                forall|k: int| 0 <= k < i ==> #[trigger] available@[k] == k,
            decreases n - i,
        {
            available.push(i);
            i = i + 1;
        }
        let mut selected: Vec<String> = Vec::new();
        let ghost mut picks: Seq<int> = Seq::empty();
        let ghost all = weights@;
        let mut step: usize = 0;
        proof {
            assert forall|k: int| 0 <= k < weights@.len() implies (#[trigger] weights@[k])
                <= WEIGHT_ONE by {
                assert(self.relays@[k].wf());
            }
            lemma_total_weight_bound(all, WEIGHT_ONE);
        }
        while step < count
            invariant
                self.wf(),
                self.relays@ == old(self).relays@,
                self.same_settings(*old(self)),
                draw_fault(all) is None,
                self.relays@.len() == n,
                all == weights_of(self.relays@),
                step <= count <= n,
                step <= positive_count(all),
                available@.len() == n - step,
                weights@.len() == available@.len(),
                forall|k: int|
                    0 <= k < available@.len() ==> (#[trigger] available@[k]) < n && weights@[k]
                        == self.relays@[available@[k] as int].weight,
                forall|k: int| 0 <= k < weights@.len() ==> (#[trigger] weights@[k]) <= WEIGHT_ONE,
                forall|a: int, b: int|
                    0 <= a < b < available@.len() ==> (#[trigger] available@[a]) < (
                    #[trigger] available@[b]),
                distinct_picks(picks, n as int),
                picks.len() == step,
                forall|k: int, j: int|
                    0 <= k < picks.len() && 0 <= j < available@.len() ==> #[trigger] picks[k]
                        != #[trigger] available@[j],
                addresses_at(self.relays@, picks, selected@),
                positive_count(weights@) == positive_count(all) - step,
            decreases count - step,
        {
            proof {
                lemma_total_weight_bound(weights@, WEIGHT_ONE);
                assert(weights@.len() * WEIGHT_ONE <= MAX_RELAYS * WEIGHT_ONE) by (nonlinear_arith)
                    requires
                        weights@.len() <= MAX_RELAYS,
                ;
            }
            match build_weighted_index(&weights) {
                Err(fault) => {
                    return Err(MixnodeError::Routing(String::from_str(fault_text(fault))));
                },
                Ok(table) => {
                    let local = sample_weighted_index(&table);
                    let global = available[local];
                    let ghost old_available = available@;
                    let ghost old_weights = weights@;
                    let ghost old_selected = selected@;
                    let ghost old_picks = picks;
                    selected.push(self.relays[global].address.clone());
                    available.remove(local);
                    weights.remove(local);
                    proof {
                        picks = picks.push(global as int);
                        lemma_positive_count_remove(old_weights, local as int);
                        assert forall|k: int| 0 <= k < available@.len() implies (
                        #[trigger] available@[k]) < n && weights@[k]
                            == self.relays@[available@[k] as int].weight by {
                            if k < local {
                                assert(available@[k] == old_available[k]);
                            } else {
                                assert(available@[k] == old_available[k + 1]);
                            }
                        }
                        assert forall|a: int, b: int| 0 <= a < b < available@.len() implies (
                        #[trigger] available@[a]) < (#[trigger] available@[b]) by {
                            let a0 = if a < local {
                                a
                            } else {
                                a + 1
                            };
                            let b0 = if b < local {
                                b
                            } else {
                                b + 1
                            };
                            assert(available@[a] == old_available[a0]);
                            assert(available@[b] == old_available[b0]);
                        }
                        assert forall|k: int, j: int|
                            0 <= k < picks.len() && 0 <= j < available@.len() implies #[trigger] picks[k]
                            != #[trigger] available@[j] by {
                            let j0 = if j < local {
                                j
                            } else {
                                j + 1
                            };
                            assert(available@[j] == old_available[j0]);
                            if k < old_picks.len() {
                                assert(picks[k] == old_picks[k]);
                            } else {
                                if j0 < local {
                                    assert(old_available[j0] < old_available[local as int]);
                                } else {
                                    assert(old_available[local as int] < old_available[j0]);
                                }
                            }
                        }
                        assert forall|a: int, b: int| 0 <= a < b < picks.len() implies #[trigger] picks[a]
                            != #[trigger] picks[b] by {
                            if b < old_picks.len() {
                                assert(picks[a] == old_picks[a] && picks[b] == old_picks[b]);
                            } else {
                                assert(picks[a] == old_picks[a]);
                                assert(old_picks[a] != old_available[local as int]);
                            }
                        }
                        assert forall|k: int| 0 <= k < picks.len() implies 0 <= #[trigger] picks[k]
                            < self.relays@.len() && self.relays@[picks[k]].weight > 0
                            && selected@[k]@ == self.relays@[picks[k]].address@ by {
                            if k < old_picks.len() {
                                assert(picks[k] == old_picks[k]);
                                assert(selected@[k] == old_selected[k]);
                            }
                        }
                    }
                },
            }
            step = step + 1;
        }
        assert(distinct_picks(picks, n as int) && addresses_at(self.relays@, picks, selected@));
        Ok(selected)
    }

    /// Signs `seed` with the key pair, where there is one that can.
    fn sign(&self, seed: &[u8]) -> (evaluation: Option<VrfEvaluation>)
        ensures
            match evaluation {
                Some(e) => signed_output(self.key(), seed@) == Some(e.output@) && e.output@.len()
                    == 32,
                None => signed_output(self.key(), seed@) is None,
            },
    {
        match &self.vrf_keypair {
            Some(key) => {
                if seed.len() > 0xFFFF_FFFF {
                    None
                } else {
                    vrf_evaluate(key.as_slice(), context_bytes(), label_bytes(), seed)
                }
            },
            None => None,
        }
    }

    /// Draws one relay and records the draw. Where the key pair signs
    /// `seed`, the draw is fixed by the verifiable random function on it;
    /// without a key pair, or where signing fails, it is by weight and the
    /// record has no proof.
    pub fn select_relay_with_proof(&mut self, seed: &[u8]) -> (drawn: Result<
        (String, LotteryProof),
        MixnodeError,
    >)
        requires
            old(self).wf(),
        ensures
            final(self).wf(),
            final(self).relays() == old(self).relays(),
            final(self).same_settings(*old(self)),
            match draw_fault(weights_of(old(self).relays())) {
                Some(text) => drawn is Err && is_routing_error(drawn->Err_0, text),
                None => match signed_output(old(self).key(), seed@) {
                    Some(output) => drawn is Ok && drawn->Ok_0.0@ == old(self).relays()[index_from(
                        output,
                        old(self).relays().len() as int,
                    )].address@ && records_draw(
                        drawn->Ok_0.1,
                        seed@,
                        old(self).relays(),
                        seq![drawn->Ok_0.0],
                        true,
                    ),
                    None => drawn is Ok && drawn_by_weight(
                        old(self).relays(),
                        seq![drawn->Ok_0.0],
                    ) && records_draw(
                        drawn->Ok_0.1,
                        seed@,
                        old(self).relays(),
                        seq![drawn->Ok_0.0],
                        false,
                    ),
                },
            },
    {
        match self.ensure_weighted_index() {
            Err(e) => {
                return Err(e);
            },
            Ok(()) => {},
        }
        let n = self.relays.len();
        let weights = self.current_weights();
        let mut seed_copy: Vec<u8> = Vec::new();
        push_range(&mut seed_copy, seed, 0, seed.len());
        assert(seed_copy@ =~= seed@);
        match self.sign(seed) {
            Some(evaluation) => {
                let index = lottery_index(evaluation.output.as_slice(), n);
                let address = self.relays[index].address.clone();
                let mut selected: Vec<String> = Vec::new();
                selected.push(address.clone());
                assert(views(selected@) =~= views(seq![address]));
                let proof = LotteryProof {
                    vrf_proof: Some(evaluation.proof),
                    seed: seed_copy,
                    selected,
                    weights,
                    timestamp: unix_now(),
                };
                Ok((address, proof))
            },
            None => {
                let index = match &self.table {
                    Some(table) => sample_weighted_index(table),
                    None => 0,
                };
                assert(weights_of(self.relays@)[index as int] == self.relays@[index as int].weight);
                let address = self.relays[index].address.clone();
                let mut selected: Vec<String> = Vec::new();
                selected.push(address.clone());
                assert(views(selected@) =~= views(seq![address]));
                assert(drawn_by_weight(self.relays@, seq![address])) by {
                    assert(self.relays@[index as int].weight > 0);
                }
                let proof = LotteryProof {
                    vrf_proof: None,
                    seed: seed_copy,
                    selected,
                    weights,
                    timestamp: unix_now(),
                };
                Ok((address, proof))
            },
        }
    }

    /// Draws `count` relays and records the draw. Where the key pair signs
    /// `seed`, each draw is fixed by hashing the output of the verifiable
    /// random function on it together with the draw's position; without a
    /// key pair, or where signing fails, the draws are by weight and the
    /// record has no proof.
    pub fn select_relays_with_proof(&mut self, seed: &[u8], count: usize) -> (drawn: Result<
        (Vec<String>, LotteryProof),
        MixnodeError,
    >)
        requires
            old(self).wf(),
        ensures
            final(self).wf(),
            final(self).relays() == old(self).relays(),
            final(self).same_settings(*old(self)),
            match draw_fault(weights_of(old(self).relays())) {
                Some(text) => drawn is Err && is_routing_error(drawn->Err_0, text),
                None => match signed_output(old(self).key(), seed@) {
                    Some(output) => drawn is Ok && drawn->Ok_0.0@.len() == count && drawn_by_hash(
                        old(self).relays(),
                        output,
                        drawn->Ok_0.0@,
                    ) && records_draw(
                        drawn->Ok_0.1,
                        seed@,
                        old(self).relays(),
                        drawn->Ok_0.0@,
                        true,
                    ),
                    None => drawn is Ok && drawn->Ok_0.0@.len() == count && drawn_by_weight(
                        old(self).relays(),
                        drawn->Ok_0.0@,
                    ) && records_draw(
                        drawn->Ok_0.1,
                        seed@,
                        old(self).relays(),
                        drawn->Ok_0.0@,
                        false,
                    ),
                },
            },
    {
        match self.ensure_weighted_index() {
            Err(e) => {
                return Err(e);
            },
            Ok(()) => {},
        }
        let n = self.relays.len();
        let weights = self.current_weights();
        let mut seed_copy: Vec<u8> = Vec::new();
        push_range(&mut seed_copy, seed, 0, seed.len());
        assert(seed_copy@ =~= seed@);
        match self.sign(seed) {
            None => {
                let selected = match self.select_relays(count) {
                    Ok(list) => list,
                    Err(e) => {
                        return Err(e);
                    },
                };
                let proof = LotteryProof {
                    vrf_proof: None,
                    seed: seed_copy,
                    selected: copy_texts(&selected),
                    weights,
                    timestamp: unix_now(),
                };
                Ok((selected, proof))
            },
            Some(evaluation) => {
                let mut selected: Vec<String> = Vec::new();
                let mut i: usize = 0;
                while i < count
                    invariant
                        i <= count,
                        n == self.relays@.len(),
                        n > 0,
                        selected@.len() == i,
                        drawn_by_hash(self.relays@, evaluation.output@, selected@),
                    decreases count - i,
                {
                    let input = derive_input(evaluation.output.as_slice(), i as u64);
                    let digest = sha256(input.as_slice());
                    let index = lottery_index(digest.as_slice(), n);
                    let ghost before = selected@;
                    selected.push(self.relays[index].address.clone());
                    proof {
                        assert forall|k: int| 0 <= k < selected@.len() implies (
                        #[trigger] selected@[k])@ == self.relays@[index_from(
                            sha256_digest(derived_input(evaluation.output@, k as u64)),
                            self.relays@.len() as int,
                        )].address@ by {
                            if k < before.len() {
                                assert(selected@[k] == before[k]);
                            }
                        }
                    }
                    i = i + 1;
                }
                let proof = LotteryProof {
                    vrf_proof: Some(evaluation.proof),
                    seed: seed_copy,
                    selected: copy_texts(&selected),
                    weights,
                    timestamp: unix_now(),
                };
                Ok((selected, proof))
            },
        }
    }

    /// What it costs an attacker with `attacker_stake` to win the lottery at
    /// will, in millionths.
    pub fn cost_of_forgery(&self, attacker_stake: u64) -> (cost: u64)
        requires
            self.wf(),
        ensures
            cost == forgery_cost_of(
                self.sybil_resistant(),
                total_stake(self.relays()),
                attacker_stake as int,
            ),
    {
        if !self.sybil_resistance {
            return 0;
        }
        let total = self.stake_sum();
        if total == 0 {
            return 0;
        }
        let attacker = attacker_stake as u128;
        if attacker * 100 < 33 * total {
            let cost = attacker * 1_000_000 / total;
            assert(cost < 330_000) by (nonlinear_arith)
                requires
                    cost == (attacker * 1_000_000) / (total as int),
                    attacker * 100 < 33 * total,
                    total > 0,
                    attacker >= 0,
            ;
            cost as u64
        } else if attacker >= total || (total - attacker) * 100 <= total {
            100_000_000
        } else {
            let cost = total * 1_000_000 / (total - attacker);
            assert(cost <= 100_000_000) by (nonlinear_arith)
                requires
                    cost == (total * 1_000_000) / ((total - attacker) as int),
                    (total - attacker) * 100 > total,
                    total > 0,
            ;
            cost as u64
        }
    }

    fn stake_sum(&self) -> (total: u128)
        requires
            self.wf(),
        ensures
            total == total_stake(self.relays@),
            total <= MAX_RELAYS * u64::MAX,
    {
        let mut total: u128 = 0;
        let mut i: usize = 0;
        assert(self.relays@.take(0) =~= Seq::<WeightedRelay>::empty());
        while i < self.relays.len()
            invariant
                i <= self.relays@.len() <= MAX_RELAYS,
                total == total_stake(self.relays@.take(i as int)),
                total <= i * u64::MAX,
            decreases self.relays@.len() - i,
        {
            proof {
                let next = self.relays@.take(i + 1);
                assert(next.drop_last() =~= self.relays@.take(i as int));
                assert(next.last() == self.relays@[i as int]);
                assert((i + 1) * u64::MAX == i * u64::MAX + u64::MAX) by (nonlinear_arith);
                assert(i * u64::MAX <= MAX_RELAYS * u64::MAX) by (nonlinear_arith)
                    requires
                        i <= MAX_RELAYS,
                ;
            }
            total = total + self.relays[i].stake.amount as u128;
            i = i + 1;
        }
        assert(self.relays@.take(i as int) =~= self.relays@);
        assert(i * u64::MAX <= MAX_RELAYS * u64::MAX) by (nonlinear_arith)
            requires
                i <= MAX_RELAYS,
        ;
        total
    }

    /// Whether `proof` is a true record of a draw from this lottery: made
    /// with its key, from relays of these weights, with the selection that
    /// the seed gives. A lottery without a key vouches for no record.
    pub fn verify_lottery_proof(&self, proof: &LotteryProof) -> (checked: Result<bool, MixnodeError>)
        requires
            self.wf(),
        ensures
            checked is Ok,
            checked->Ok_0 == (self.key() matches Some(k) && true_record(
                *proof,
                self.relays(),
                k.subrange(64, 96),
            )),
    {
        let key = match self.vrf_public_key() {
            Some(key) => key,
            None => {
                return Ok(false);
            },
        };
        let output = match proof.output_under(&key) {
            Some(output) => output,
            None => {
                return Ok(false);
            },
        };
        let n = self.relays.len();
        if n == 0 || !self.has_weights(&proof.weights) {
            return Ok(false);
        }
        let single = lottery_index(output.as_slice(), n);
        if proof.selected.len() == 1 && proof.selected[0] == self.relays[single].address {
            return Ok(true);
        }
        Ok(self.drawn_by_hash_of(&output, &proof.selected))
    }

    fn has_weights(&self, weights: &Vec<u64>) -> (same: bool)
        ensures
            same == (weights@ == weights_of(self.relays@)),
    {
        let n = self.relays.len();
        if weights.len() != n {
            assert(weights_of(self.relays@).len() == n);
            return false;
        }
        let mut i: usize = 0;
        while i < n
            invariant
                i <= n == self.relays@.len(),
                weights@.len() == n,
                forall|j: int| 0 <= j < i ==> weights@[j] == (#[trigger] self.relays@[j]).weight,
            decreases n - i,
        {
            if weights[i] != self.relays[i].weight {
                assert(weights_of(self.relays@)[i as int] == self.relays@[i as int].weight);
                return false;
            }
            i = i + 1;
        }
        assert(weights@ =~= weights_of(self.relays@));
        true
    }

    fn drawn_by_hash_of(&self, output: &Vec<u8>, selected: &Vec<String>) -> (matches: bool)
        requires
            self.relays@.len() > 0,
        ensures
            matches == drawn_by_hash(self.relays@, output@, selected@),
    {
        let n = self.relays.len();
        let mut k: usize = 0;
        while k < selected.len()
            invariant
                k <= selected@.len(),
                n == self.relays@.len(),
                n > 0,
                forall|j: int|
                    0 <= j < k ==> (#[trigger] selected@[j])@ == self.relays@[index_from(
                        sha256_digest(derived_input(output@, j as u64)),
                        n as int,
                    )].address@,
            decreases selected@.len() - k,
        {
            let digest = sha256(derive_input(output.as_slice(), k as u64).as_slice());
            let index = lottery_index(digest.as_slice(), n);
            if selected[k] != self.relays[index].address {
                assert(selected@[k as int]@ != self.relays@[index_from(
                    sha256_digest(derived_input(output@, k as u64)),
                    n as int,
                )].address@);
                return false;
            }
            k = k + 1;
        }
        true
    }

    /// Puts `manager` in the place of the lottery's ledger and hands out the
    /// ledger that was there.
    pub fn replace_reputation_manager(&mut self, manager: Option<ReputationManager>) -> (previous:
        Option<ReputationManager>)
        requires
            old(self).wf(),
            manager matches Some(m) ==> m.wf(),
        ensures
            final(self).wf(),
            final(self).manager() == manager,
            previous == old(self).manager(),
            previous matches Some(m) ==> m.wf(),
            final(self).relays() == old(self).relays(),
            final(self).key() == old(self).key(),
            final(self).sybil_resistant() == old(self).sybil_resistant(),
            final(self).least_stake() == old(self).least_stake(),
    {
        let previous = self.reputation_manager.take();
        self.reputation_manager = manager;
        previous
    }

    /// Figures on the lottery's ledger, where it has one.
    pub fn get_reputation_statistics(&self) -> (figures: Option<ReputationStatistics>)
        requires
            self.wf(),
        ensures
            figures is Some <==> self.manager() is Some,
            figures matches Some(f) ==> exists|now: u64|
                f == crate::reputation::statistics_of(
                    self.manager()->Some_0.entries(),
                    self.manager()->Some_0.threshold(),
                    now,
                ),
    {
        match &self.reputation_manager {
            Some(manager) => Some(manager.statistics()),
            None => None,
        }
    }

    /// Lets the ledger's points decay as of `now` and brings every relay in
    /// line with the ledger. Without a ledger nothing changes.
    pub fn sync_with_reputation_manager_at(&mut self, now: u64)
        requires
            old(self).wf(),
        ensures
            final(self).wf(),
            final(self).key() == old(self).key(),
            final(self).sybil_resistant() == old(self).sybil_resistant(),
            final(self).least_stake() == old(self).least_stake(),
            match old(self).manager() {
                None => final(self).manager() is None && final(self).relays() == old(
                    self,
                ).relays(),
                Some(before) => final(self).manager() matches Some(after) && all_decayed(
                    before.entries(),
                    after.entries(),
                    now,
                ) && after.threshold() == before.threshold() && all_synced(
                    old(self).relays(),
                    final(self).relays(),
                    after.ledger(),
                    old(self).sybil_resistant(),
                    old(self).least_stake(),
                ),
            },
    {
        let mut manager = match self.reputation_manager.take() {
            Some(m) => m,
            None => {
                return ;
            },
        };
        manager.apply_decay_all_at(now);
        let mut i: usize = 0;
        while i < self.relays.len()
            invariant
                i <= self.relays@.len(),
                self.relays@.len() == old(self).relays@.len(),
                self.relays@.len() <= MAX_RELAYS,
                manager.wf(),
                self.sybil_resistance == old(self).sybil_resistance,
                self.min_stake == old(self).min_stake,
                self.vrf_keypair == old(self).vrf_keypair,
                self.vrf_keypair matches Some(k) ==> k@.len() == 96,
                forall|j: int| 0 <= j < self.relays@.len() ==> (#[trigger] self.relays@[j]).wf(),
                forall|j: int|
                    0 <= j < i ==> (#[trigger] self.relays@[j]) == synced(
                        old(self).relays@[j],
                        manager.ledger(),
                        self.sybil_resistance,
                        self.min_stake,
                    ),
                forall|j: int|
                    i <= j < self.relays@.len() ==> (#[trigger] self.relays@[j]) == old(
                        self,
                    ).relays@[j],
            decreases self.relays@.len() - i,
        {
            match manager.get_reputation(self.relays[i].address.as_str()) {
                Some(node) => {
                    let mut relay = self.relays[i].duplicate();
                    if self.sybil_resistance && node.stake.amount < self.min_stake {
                        relay.weight = 0;
                    } else {
                        let uptime = if node.metrics.uptime > UNIT {
                            UNIT
                        } else {
                            node.metrics.uptime
                        };
                        relay.reputation = node.reputation();
                        relay.performance = product_of(
                            product_of(node.metrics.latency_score(), node.metrics.success_rate()),
                            uptime,
                        );
                        relay.stake = node.stake;
                        relay.weight = weight_of(relay.reputation, relay.performance, relay.stake);
                    }
                    self.relays[i] = relay;
                },
                None => {},
            }
            i = i + 1;
        }
        self.reputation_manager = Some(manager);
        self.table = None;
    }

    /// Lets the ledger's points decay as of the time of the call and brings
    /// every relay in line with the ledger.
    pub fn sync_with_reputation_manager(&mut self)
        requires
            old(self).wf(),
        ensures
            final(self).wf(),
            final(self).key() == old(self).key(),
            final(self).sybil_resistant() == old(self).sybil_resistant(),
            final(self).least_stake() == old(self).least_stake(),
            old(self).manager() is None ==> final(self).manager() is None && final(self).relays()
                == old(self).relays(),
            old(self).manager() matches Some(before) ==> (final(self).manager() matches Some(
                after,
            ) && after.threshold() == before.threshold() && (exists|now: u64| #[trigger]
                all_decayed(before.entries(), after.entries(), now)) && all_synced(
                old(self).relays(),
                final(self).relays(),
                after.ledger(),
                old(self).sybil_resistant(),
                old(self).least_stake(),
            )),
    {
        let now = unix_now();
        self.sync_with_reputation_manager_at(now);
    }

    /// Figures on the lottery.
    pub fn get_statistics(&self) -> (figures: LotteryStatistics)
        requires
            self.wf(),
        ensures
            figures == lottery_statistics(
                self.relays(),
                self.sybil_resistant(),
                self.least_stake(),
            ),
    {
        let n = self.relays.len();
        let stake = self.stake_sum();
        let mut reputation: u128 = 0;
        let mut weight: u128 = 0;
        let mut i: usize = 0;
        assert(self.relays@.take(0) =~= Seq::<WeightedRelay>::empty());
        assert(weights_of(self.relays@.take(0)) =~= Seq::<u64>::empty());
        while i < n
            invariant
                i <= n == self.relays@.len(),
                n <= MAX_RELAYS,
                reputation == total_reputation(self.relays@.take(i as int)),
                weight == total_weight(weights_of(self.relays@.take(i as int))),
                reputation <= i * u64::MAX,
                weight <= i * u64::MAX,
            decreases n - i,
        {
            proof {
                let next = self.relays@.take(i + 1);
                assert(next.drop_last() =~= self.relays@.take(i as int));
                assert(next.last() == self.relays@[i as int]);
                assert(weights_of(next).drop_last() =~= weights_of(self.relays@.take(i as int)));
                assert(weights_of(next).last() == self.relays@[i as int].weight);
                assert((i + 1) * u64::MAX == i * u64::MAX + u64::MAX) by (nonlinear_arith);
                assert(i * u64::MAX <= MAX_RELAYS * u64::MAX) by (nonlinear_arith)
                    requires
                        i <= MAX_RELAYS,
                ;
            }
            reputation = reputation + self.relays[i].reputation as u128;
            weight = weight + self.relays[i].weight as u128;
            i = i + 1;
        }
        assert(self.relays@.take(n as int) =~= self.relays@);
        let (avg_reputation, avg_weight) = if n == 0 {
            (0u64, 0u64)
        } else {
            let r = reputation / (n as u128);
            let w = weight / (n as u128);
            assert(r <= u64::MAX && w <= u64::MAX) by (nonlinear_arith)
                requires
                    r == reputation / (n as u128),
                    w == weight / (n as u128),
                    reputation <= n * u64::MAX,
                    weight <= n * u64::MAX,
                    n > 0,
            ;
            (r as u64, w as u64)
        };
        LotteryStatistics {
            total_relays: n,
            total_stake: if stake > u64::MAX as u128 {
                u64::MAX
            } else {
                stake as u64
            },
            avg_reputation,
            avg_weight,
            sybil_resistance: self.sybil_resistance,
            min_stake: self.min_stake,
        }
    }
}

impl Default for RelayLottery {
    fn default() -> (lottery: RelayLottery)
        ensures
            lottery.wf(),
            lottery.relays().len() == 0,
            lottery.key() is None,
            lottery.manager() is None,
            !lottery.sybil_resistant(),
            lottery.least_stake() == 0,
    {
        RelayLottery::new()
    }
}

} // verus!
