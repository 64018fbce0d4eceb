//! Sortition: whether a candidate may propose a given block.
//!
//! The candidate's identifier and the block's digest seed a ChaCha20
//! generator; one draw below the population size decides. Every peer that
//! knows the three inputs reaches the same verdict.

use rand::{Rng, SeedableRng};
use rand_chacha::ChaChaRng;
use vstd::prelude::*;
use vstd::utf8::encode_utf8;

use crate::utils::{sha256, sha256_digest};

verus! {

/// One candidate in `M` is meant to be elected.
pub const M: u64 = 2;

/// The first draw from `low..high` of a ChaCha20 generator seeded with `seed`.
pub uninterp spec fn chacha_range_draw(seed: Seq<u8>, low: u64, high: u64) -> u64;

/// Trusted: seeds `rand_chacha`'s `ChaChaRng` with `from_seed` and takes one
/// `random_range(low..high)` from it. The generator is deterministic, so the
/// contract names the draw; `rand` documents that it lies in the range and
/// that an empty range panics, which `requires` rules out.
#[verifier::external_body]
fn seeded_range_draw(seed: [u8; 32], low: u64, high: u64) -> (draw: u64)
    requires
        low < high,
    ensures
        draw == chacha_range_draw(seed@, low, high),
        low <= draw < high,
{
    ChaChaRng::from_seed(seed).random_range(low..high)
}

/// The draw that the text `seed` determines in `l..r`.
pub open spec fn deterministic_random(seed: Seq<char>, l: u64, r: u64) -> u64 {
    chacha_range_draw(sha256(encode_utf8(seed)), l, r)
}

fn get_deterministic_random(seed: &str, l: u64, r: u64) -> (draw: u64)
    requires
        l < r,
    ensures
        draw == deterministic_random(seed@, l, r),
        l <= draw < r,
{
    let hash = sha256_digest(seed.as_bytes());
    seeded_range_draw(hash, l, r)
}

/// The largest draw that still elects: the population divided by `M`,
/// rounded up.
pub open spec fn election_threshold(total_nodes: u64) -> int {
    (total_nodes + M - 1) / (M as int)
}

/// Whether `draw` elects among `total_nodes` candidates.
pub open spec fn draw_elects(draw: u64, total_nodes: u64) -> bool {
    draw <= election_threshold(total_nodes)
}

/// Whether the candidate `id` is elected for the block with digest
/// `block_hash` among `total_nodes` candidates.
pub open spec fn elected(id: Seq<char>, block_hash: Seq<char>, total_nodes: u64) -> bool {
    draw_elects(deterministic_random(id + block_hash, 0, total_nodes), total_nodes)
}

/// Decides an election from its draw.
pub fn draw_is_elected(draw: u64, total_nodes: u64) -> (res: bool)
    ensures
        res == draw_elects(draw, total_nodes),
{
    let threshold = total_nodes / M + (if total_nodes % M == 0 {
        0
    } else {
        1
    });
    draw <= threshold
}

/// Decides whether the candidate `id` may propose the block with digest
/// `block_hash` when `total_nodes` candidates compete.
///
/// An empty population has no draw: callers guard against it.
pub fn is_elected(id: &str, block_hash: &str, total_nodes: u64) -> (res: bool)
    requires
        total_nodes > 0,
    ensures
        res == elected(id@, block_hash@, total_nodes),
        deterministic_random(id@ + block_hash@, 0, total_nodes) < total_nodes,
        total_nodes <= 3 ==> res,
{
    let seed = id.to_owned().concat(block_hash);
    let rn = get_deterministic_random(seed.as_str(), 0, total_nodes);
    proof {
        if total_nodes <= 3 {
            lemma_small_population_always_elects(rn, total_nodes);
        }
    }
    draw_is_elected(rn, total_nodes)
}

/// Decides an election for callers that have not checked the population:
/// `None` where no candidate competes, the verdict of [`is_elected`]
/// otherwise.
pub fn try_is_elected(id: &str, block_hash: &str, total_nodes: u64) -> (res: Option<bool>)
    ensures
        res == if total_nodes == 0 {
            None
        } else {
            Some(elected(id@, block_hash@, total_nodes))
        },
        0 < total_nodes <= 3 ==> res == Some(true),
{
    if total_nodes == 0 {
        None
    } else {
        Some(is_elected(id, block_hash, total_nodes))
    }
}

/// Sortition is a function of its three inputs: equal inputs give equal
/// verdicts.
pub proof fn lemma_election_is_deterministic(
    id_a: Seq<char>,
    hash_a: Seq<char>,
    nodes_a: u64,
    id_b: Seq<char>,
    hash_b: Seq<char>,
    nodes_b: u64,
)
    requires
        id_a == id_b,
        hash_a == hash_b,
        nodes_a == nodes_b,
    ensures
        elected(id_a, hash_a, nodes_a) == elected(id_b, hash_b, nodes_b),
{
}

/// A draw below the population size elects whenever at most three candidates
/// compete: the threshold then reaches every possible draw.
pub proof fn lemma_small_population_always_elects(draw: u64, total_nodes: u64)
    requires
        0 < total_nodes <= 3,
        draw < total_nodes,
    ensures
        draw_elects(draw, total_nodes),
{
}

/// Among more than three candidates the largest possible draw does not elect.
pub proof fn lemma_large_population_can_reject(total_nodes: u64)
    requires
        total_nodes > 3,
    ensures
        !draw_elects((total_nodes - 1) as u64, total_nodes),
{
}

} // verus!
