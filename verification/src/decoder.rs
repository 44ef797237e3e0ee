//! Greedy decoding: from the probabilities of the 256 token ids to a response
//! of at most 32 tokens.

use vstd::prelude::*;
use crate::codec::{positive_part, positive_part_of};

verus! {

/// Number of token ids: one per byte value.
pub const VOCAB_SIZE: usize = 256;

/// Most tokens that one response holds.
pub const MAX_RESPONSE_LEN: usize = 32;

/// The token that ends a response, and the one chosen when no token has a
/// positive score.
pub const END_TOKEN: u8 = 0;

/// The scores of a vector of probabilities given by their bit patterns: the
/// pattern itself for a positive probability, since positive numbers are
/// ordered as their patterns are, and 0 for anything else, which no comparison
/// ever prefers.
pub open spec fn scores_of(probabilities: Seq<u32>) -> Seq<u32> {
    Seq::new(probabilities.len(), |i: int| positive_part_of(probabilities[i]))
}

/// `token` is the greedy choice among `scores`: the first entry that no other
/// entry exceeds, provided that it is positive; token 0 when no entry is
/// positive.
pub open spec fn is_greedy_choice(scores: Seq<u32>, token: int) -> bool {
    if forall|i: int| 0 <= i < scores.len() ==> scores[i] == 0 {
        token == 0
    } else {
        &&& 0 <= token < scores.len()
        &&& forall|i: int| 0 <= i < scores.len() ==> scores[i] <= scores[token]
        &&& forall|i: int| 0 <= i < token ==> scores[i] < scores[token]
    }
}

/// The greedy choice among `scores`.
pub open spec fn greedy_choice(scores: Seq<u32>) -> int {
    choose|token: int| is_greedy_choice(scores, token)
}

/// The response that greedy decoding gives when `token` is the greedy choice at
/// every step: the end token alone, or `token` as often as a response is long.
pub open spec fn response_of(token: u8) -> Seq<u8> {
    if token == END_TOKEN {
        seq![END_TOKEN]
    } else {
        Seq::new(MAX_RESPONSE_LEN as nat, |i: int| token)
    }
}

/// The response that greedy decoding gives for the probabilities of the 256
/// token ids, given by their bit patterns.
pub open spec fn greedy_response(probabilities: Seq<u32>) -> Seq<u8> {
    response_of(greedy_choice(scores_of(probabilities)) as u8)
}

/// Some token is the greedy choice among the first `n` scores; the result is
/// that token.
pub proof fn lemma_greedy_choice_of_prefix(scores: Seq<u32>, n: int) -> (token: int)
    requires
        0 <= n <= scores.len(),
    ensures
        is_greedy_choice(scores.take(n), token),
    decreases n,
{
    if n == 0 {
        0
    } else {
        let before = scores.take(n - 1);
        let now = scores.take(n);
        let earlier = lemma_greedy_choice_of_prefix(scores, n - 1);
        assert forall|i: int| 0 <= i < n - 1 implies now[i] == before[i] by {}
        if forall|i: int| 0 <= i < before.len() ==> before[i] == 0 {
            if now[n - 1] == 0 {
                0
            } else {
                n - 1
            }
        } else if now[n - 1] > before[earlier] {
            assert(now[n - 1] != 0);
            n - 1
        } else {
            let i0 = choose|i: int| 0 <= i < before.len() && before[i] != 0;
            assert(now[i0] != 0);
            earlier
        }
    }
}

/// Every ranking has a greedy choice, and `greedy_choice` names it.
pub proof fn lemma_greedy_choice_exists(scores: Seq<u32>)
    ensures
        is_greedy_choice(scores, greedy_choice(scores)),
{
    let token = lemma_greedy_choice_of_prefix(scores, scores.len() as int);
    assert(scores.take(scores.len() as int) =~= scores);
}

/// No two tokens are both the greedy choice.
pub proof fn lemma_greedy_choice_unique(scores: Seq<u32>, a: int, b: int)
    requires
        is_greedy_choice(scores, a),
        is_greedy_choice(scores, b),
    ensures
        a == b,
{
    if !(forall|i: int| 0 <= i < scores.len() ==> scores[i] == 0) {
        if a < b {
            assert(scores[a] < scores[b]);
            assert(scores[b] <= scores[a]);
        } else if b < a {
            assert(scores[b] < scores[a]);
            assert(scores[a] <= scores[b]);
        }
    }
}

/// A token that is the greedy choice is the one that `greedy_choice` names.
pub proof fn lemma_greedy_choice_is(scores: Seq<u32>, token: int)
    requires
        is_greedy_choice(scores, token),
    ensures
        greedy_choice(scores) == token,
{
    lemma_greedy_choice_unique(scores, greedy_choice(scores), token);
}

/// Among tokens with the highest positive score, the greedy choice is the one
/// with the lowest id.
pub proof fn lemma_ties_go_to_lowest(scores: Seq<u32>, token: int, other: int)
    requires
        is_greedy_choice(scores, token),
        0 <= other < scores.len(),
        scores[other] > 0,
        forall|i: int| 0 <= i < scores.len() ==> scores[i] <= scores[other],
    ensures
        token <= other,
        scores[token] == scores[other],
{
    assert(scores[other] <= scores[token]);
    assert(scores[token] <= scores[other]);
}

/// The most probable token, the lowest id winning a tie; token 0 when no
/// probability is positive. Entry `i` of `probabilities` is the bit pattern of
/// the probability of token `i`.
pub fn argmax(probabilities: &[u32; 256]) -> (token: u8)
    ensures
        is_greedy_choice(scores_of(probabilities@), token as int),
        token as int == greedy_choice(scores_of(probabilities@)),
{
    let ghost scores = scores_of(probabilities@);
    let mut best: u32 = 0;
    let mut token: u8 = 0;
    let mut i: usize = 0;
    while i < VOCAB_SIZE
        invariant
            i <= VOCAB_SIZE,
            probabilities@.len() == VOCAB_SIZE,
            scores == scores_of(probabilities@),
            forall|k: int| 0 <= k < i ==> scores[k] <= best,
            best == 0 ==> token == 0,
            best > 0 ==> {
                &&& token < i
                &&& scores[token as int] == best
                &&& forall|k: int| 0 <= k < token ==> scores[k] < best
            },
        decreases VOCAB_SIZE - i,
    {
        let candidate = positive_part(probabilities[i]);
        if candidate > best {
            best = candidate;
            token = i as u8;
        }
        i += 1;
    }
    proof {
        if best == 0 {
            assert(forall|k: int| 0 <= k < scores.len() ==> scores[k] == 0);
        } else {
            assert(scores[token as int] != 0);
        }
        lemma_greedy_choice_is(scores, token as int);
    }
    token
}

/// Greedy decoding: up to 32 steps, each emitting the most probable token under
/// the same `probabilities`, and stopping right after the end token is emitted.
pub fn generate_response(probabilities: &[u32; 256]) -> (response: Vec<u8>)
    ensures
        response@ == greedy_response(probabilities@),
        1 <= response@.len() <= MAX_RESPONSE_LEN,
        greedy_choice(scores_of(probabilities@)) == END_TOKEN ==> response@ == seq![END_TOKEN],
        forall|i: int|
            0 <= i < response@.len() ==> response@[i] == greedy_choice(scores_of(probabilities@)),
        forall|i: int|
            0 <= i < response@.len() && response@[i] == END_TOKEN ==> i == response@.len() - 1,
{
    let ghost choice = greedy_choice(scores_of(probabilities@));
    let mut response: Vec<u8> = Vec::new();
    let mut step: usize = 0;
    while step < MAX_RESPONSE_LEN
        invariant_except_break
            step <= MAX_RESPONSE_LEN,
            response@.len() == step,
            choice == greedy_choice(scores_of(probabilities@)),
            forall|i: int| 0 <= i < step ==> response@[i] == choice,
            step > 0 ==> 0 < choice < VOCAB_SIZE,
        ensures
            choice == greedy_choice(scores_of(probabilities@)),
            0 <= choice < VOCAB_SIZE,
            response@ =~= greedy_response(probabilities@),
        decreases MAX_RESPONSE_LEN - step,
    {
        let token = argmax(probabilities);
        response.push(token);
        step += 1;
        if token == END_TOKEN {
            break;
        }
    }
    response
}

} // verus!
