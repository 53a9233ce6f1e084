//! Building a challenge around the secret totem, and checking a reported
//! position against it.
//!
//! When the configured pool holds fewer than four decoys, decoys are made
//! up: five distinct candidates are drawn, and the first four that differ
//! from the secret and from each other are kept. Made-up decoys therefore
//! never repeat and never read as the secret.

use vstd::prelude::*;
use vstd::set_lib::lemma_len_subset;
use rand::rngs::StdRng;
use rand::Rng;
use rand::SeedableRng;
use crate::config::{Mode, TotemConfig};
use crate::digits::{format_padded, lemma_padded_injective, padded_decimal};
use crate::words::{lemma_leading_words_distinct, word, word_list, WORD_COUNT};

verus! {

/// Number of decoys shown beside the secret.
pub const DECOY_COUNT: usize = 4;

/// Number of items in a challenge.
pub const ITEM_COUNT: usize = 5;

/// Made-up numeric decoys are drawn below this bound.
pub const NUMBER_RANGE: usize = 1000000;

#[verifier::external_type_specification]
#[verifier::external_body]
pub struct ExStdRng(rand::rngs::StdRng);

/// Relies on rand's `SeedableRng::seed_from_u64` for `StdRng`: a generator
/// whose stream is fixed by the seed.
#[verifier::external_body]
fn seeded_rng(seed: u64) -> StdRng {
    StdRng::seed_from_u64(seed)
}

/// Relies on `rand::seq::index::sample`: exactly `amount` distinct indices
/// from `0..length`, in random order. It panics when `amount > length`.
#[verifier::external_body]
fn sample_indices(rng: &mut StdRng, length: usize, amount: usize) -> (r: Vec<usize>)
    requires
        amount <= length,
    ensures
        r.len() == amount,
        r@.no_duplicates(),
        forall|k: int| 0 <= k < r.len() ==> r[k] < length,
{
    rand::seq::index::sample(rng, length, amount).into_vec()
}

/// Relies on rand's `Rng::random_range` over `0..bound`: a value in that
/// range. It panics when the range is empty.
#[verifier::external_body]
fn random_below(rng: &mut StdRng, bound: usize) -> (r: usize)
    requires
        bound > 0,
    ensures
        r < bound,
{
    rng.random_range(0..bound)
}

/// Keeps, in order, each candidate that is not the secret and not kept
/// already, until four are kept.
pub open spec fn pick_decoys(secret: Seq<char>, cands: Seq<Seq<char>>) -> Seq<Seq<char>>
    decreases cands.len(),
{
    if cands.len() == 0 {
        Seq::empty()
    } else {
        let kept = pick_decoys(secret, cands.drop_last());
        let c = cands.last();
        if kept.len() < DECOY_COUNT && c != secret && !kept.contains(c) {
            kept.push(c)
        } else {
            kept
        }
    }
}

proof fn lemma_pick_decoys(secret: Seq<char>, cands: Seq<Seq<char>>)
    ensures
        pick_decoys(secret, cands).len() <= DECOY_COUNT,
        pick_decoys(secret, cands).no_duplicates(),
        forall|k: int|
            0 <= k < pick_decoys(secret, cands).len() ==> pick_decoys(secret, cands)[k] != secret
                && cands.contains(pick_decoys(secret, cands)[k]),
        pick_decoys(secret, cands).len() < DECOY_COUNT ==> forall|j: int|
            0 <= j < cands.len() ==> cands[j] == secret || pick_decoys(secret, cands).contains(
                cands[j],
            ),
    decreases cands.len(),
{
    if cands.len() > 0 {
        let prev = cands.drop_last();
        lemma_pick_decoys(secret, prev);
        let kept = pick_decoys(secret, prev);
        let c = cands.last();
        assert forall|k: int| 0 <= k < kept.len() implies cands.contains(kept[k]) by {
            let j = choose|j: int| 0 <= j < prev.len() && prev[j] == kept[k];
            assert(cands[j] == kept[k]);
        }
        if kept.len() < DECOY_COUNT && c != secret && !kept.contains(c) {
            let r = kept.push(c);
            assert(cands[cands.len() - 1] == c);
            assert forall|k: int| 0 <= k < r.len() implies cands.contains(r[k]) by {
                if k < kept.len() {
                    assert(r[k] == kept[k]);
                } else {
                    assert(cands[cands.len() - 1] == r[k]);
                }
            }
            assert forall|j: int| 0 <= j < cands.len() && r.len() < DECOY_COUNT implies cands[j]
                == secret || r.contains(cands[j]) by {
                if j < prev.len() {
                    assert(prev[j] == cands[j]);
                    if kept.contains(cands[j]) {
                        let k = choose|k: int| 0 <= k < kept.len() && kept[k] == cands[j];
                        assert(r[k] == cands[j]);
                    }
                } else {
                    assert(r[r.len() - 1] == cands[j]);
                }
            }
        } else {
            assert forall|j: int| 0 <= j < cands.len() && kept.len() < DECOY_COUNT implies cands[j]
                == secret || kept.contains(cands[j]) by {
                if j < prev.len() {
                    assert(prev[j] == cands[j]);
                }
            }
        }
    }
}

/// Where the candidates hold five distinct strings, four decoys are kept.
proof fn lemma_pick_decoys_full(secret: Seq<char>, cands: Seq<Seq<char>>, five: Seq<Seq<char>>)
    requires
        five.len() == ITEM_COUNT,
        five.no_duplicates(),
        forall|k: int| 0 <= k < five.len() ==> cands.contains(five[k]),
    ensures
        pick_decoys(secret, cands).len() == DECOY_COUNT,
{
    lemma_pick_decoys(secret, cands);
    let kept = pick_decoys(secret, cands);
    if kept.len() < DECOY_COUNT {
        let room = kept.to_set().insert(secret);
        assert forall|x: Seq<char>| five.to_set().contains(x) implies room.contains(x) by {
            let k = choose|k: int| 0 <= k < five.len() && five[k] == x;
            let j = choose|j: int| 0 <= j < cands.len() && cands[j] == x;
        }
        five.unique_seq_to_set();
        kept.lemma_cardinality_of_set();
        lemma_len_subset(five.to_set(), room);
    }
}

/// Candidate numeric decoys for drawn numbers.
pub open spec fn number_candidates(draws: Seq<usize>) -> Seq<Seq<char>> {
    draws.map_values(|d: usize| padded_decimal(d as nat))
}

/// Candidate word decoys for drawn word positions, followed by the whole
/// list in order as a fallback.
pub open spec fn word_candidates(draws: Seq<usize>) -> Seq<Seq<char>> {
    draws.map_values(|d: usize| word_list()[d as int]) + word_list()
}

/// Distinct indices, each below `bound`.
pub open spec fn distinct_below(draws: Seq<usize>, bound: int) -> bool {
    &&& draws.no_duplicates()
    &&& forall|k: int| 0 <= k < draws.len() ==> draws[k] < bound
}

/// The configured decoy pool is large enough to take decoys from.
pub open spec fn uses_pool(config: &TotemConfig) -> bool {
    config.pool().len() >= DECOY_COUNT
}

/// Random draws that fit a configuration: four distinct pool positions when
/// the pool is large enough, else five distinct numbers or word positions.
pub open spec fn draws_fit(config: &TotemConfig, draws: Seq<usize>) -> bool {
    if uses_pool(config) {
        draws.len() == DECOY_COUNT && distinct_below(draws, config.pool().len() as int)
    } else {
        draws.len() == ITEM_COUNT && match config.mode {
            Mode::Numbers => distinct_below(draws, NUMBER_RANGE as int),
            Mode::Words => distinct_below(draws, WORD_COUNT as int),
        }
    }
}

/// The decoys that a configuration and its draws give.
pub open spec fn decoys_of(config: &TotemConfig, draws: Seq<usize>) -> Seq<Seq<char>> {
    if uses_pool(config) {
        draws.map_values(|d: usize| config.pool()[d as int])
    } else {
        match config.mode {
            Mode::Numbers => pick_decoys(config.secret(), number_candidates(draws)),
            Mode::Words => pick_decoys(config.secret(), word_candidates(draws)),
        }
    }
}

/// The items of a challenge: the decoys with the secret inserted at
/// `position`.
pub open spec fn challenge_items(config: &TotemConfig, draws: Seq<usize>, position: int) -> Seq<
    Seq<char>,
> {
    decoys_of(config, draws).insert(position, config.secret())
}

fn holds(v: &Vec<String>, s: &String) -> (r: bool)
    ensures
        r == v.deep_view().contains(s@),
{
    let mut i: usize = 0;
    while i < v.len()
        invariant
            i <= v.len(),
            forall|k: int| 0 <= k < i ==> v.deep_view()[k] != s@,
        decreases v.len() - i,
    {
        if v[i] == *s {
            assert(v.deep_view()[i as int] == s@);
            return true;
        }
        i = i + 1;
    }
    false
}

/// Keeps, in order, each candidate that is not the secret and not kept
/// already, until four are kept.
pub fn choose_decoys(secret: &String, candidates: &Vec<String>) -> (r: Vec<String>)
    ensures
        r.deep_view() == pick_decoys(secret@, candidates.deep_view()),
{
    let mut kept: Vec<String> = Vec::new();
    let mut i: usize = 0;
    while i < candidates.len()
        invariant
            i <= candidates.len(),
            kept.deep_view() == pick_decoys(secret@, candidates.deep_view().take(i as int)),
        decreases candidates.len() - i,
    {
        let ghost cands = candidates.deep_view();
        assert(cands.take(i + 1).drop_last() =~= cands.take(i as int));
        assert(cands.take(i + 1).last() == candidates[i as int]@);
        if kept.len() < DECOY_COUNT && candidates[i] != *secret && !holds(&kept, &candidates[i]) {
            let ghost before = kept.deep_view();
            kept.push(candidates[i].clone());
            assert(kept.deep_view() =~= before.push(candidates[i as int]@));
        }
        i = i + 1;
    }
    assert(candidates.deep_view().take(candidates.len() as int) =~= candidates.deep_view());
    kept
}

/// The numeric candidates for drawn numbers, zero-padded.
pub fn numbers_for(draws: &Vec<usize>) -> (r: Vec<String>)
    requires
        forall|k: int| 0 <= k < draws.len() ==> draws[k] < NUMBER_RANGE,
    ensures
        r.deep_view() == number_candidates(draws@),
{
    let mut out: Vec<String> = Vec::new();
    let mut i: usize = 0;
    while i < draws.len()
        invariant
            i <= draws.len(),
            forall|k: int| 0 <= k < draws.len() ==> draws[k] < NUMBER_RANGE,
            out.deep_view() == number_candidates(draws@.take(i as int)),
        decreases draws.len() - i,
    {
        let t = format_padded(draws[i] as u32);
        let ghost before = out.deep_view();
        out.push(t);
        assert(out.deep_view() =~= before.push(t@));
        i = i + 1;
        assert(out.deep_view() =~= number_candidates(draws@.take(i as int)));
    }
    assert(draws@.take(draws.len() as int) =~= draws@);
    out
}

/// The word candidates for drawn word positions, followed by the whole list
/// in order.
pub fn words_for(draws: &Vec<usize>) -> (r: Vec<String>)
    requires
        forall|k: int| 0 <= k < draws.len() ==> draws[k] < WORD_COUNT,
    ensures
        r.deep_view() == word_candidates(draws@),
{
    let mut out: Vec<String> = Vec::new();
    let mut i: usize = 0;
    while i < draws.len()
        invariant
            i <= draws.len(),
            forall|k: int| 0 <= k < draws.len() ==> draws[k] < WORD_COUNT,
            out.deep_view() == draws@.take(i as int).map_values(
                |d: usize| word_list()[d as int],
            ),
        decreases draws.len() - i,
    {
        let t = word(draws[i]).to_owned();
        let ghost before = out.deep_view();
        out.push(t);
        assert(out.deep_view() =~= before.push(t@));
        i = i + 1;
        assert(out.deep_view() =~= draws@.take(i as int).map_values(
            |d: usize| word_list()[d as int],
        ));
    }
    assert(draws@.take(draws.len() as int) =~= draws@);
    let ghost head = out.deep_view();
    let mut j: usize = 0;
    while j < WORD_COUNT
        invariant
            j <= WORD_COUNT,
            out.deep_view() == head + word_list().take(j as int),
        decreases WORD_COUNT - j,
    {
        let t = word(j).to_owned();
        let ghost before = out.deep_view();
        out.push(t);
        assert(out.deep_view() =~= before.push(t@));
        j = j + 1;
        assert(out.deep_view() =~= head + word_list().take(j as int));
    }
    assert(word_list().take(WORD_COUNT as int) =~= word_list());
    out
}

/// The configured decoys at drawn pool positions.
pub fn pool_decoys(config: &TotemConfig, draws: &Vec<usize>) -> (r: Vec<String>)
    requires
        config.wf(),
        forall|k: int| 0 <= k < draws.len() ==> draws[k] < config.pool().len(),
    ensures
        r.deep_view() == draws@.map_values(|d: usize| config.pool()[d as int]),
{
    let mut out: Vec<String> = Vec::new();
    let mut i: usize = 0;
    while i < draws.len()
        invariant
            i <= draws.len(),
            config.wf(),
            forall|k: int| 0 <= k < draws.len() ==> draws[k] < config.pool().len(),
            out.deep_view() == draws@.take(i as int).map_values(
                |d: usize| config.pool()[d as int],
            ),
        decreases draws.len() - i,
    {
        let t = config.totems[draws[i] + 1].clone();
        let ghost before = out.deep_view();
        out.push(t);
        assert(out.deep_view() =~= before.push(t@));
        i = i + 1;
        assert(out.deep_view() =~= draws@.take(i as int).map_values(
            |d: usize| config.pool()[d as int],
        ));
    }
    assert(draws@.take(draws.len() as int) =~= draws@);
    out
}

/// Draws that fit a configuration give exactly four decoys.
pub proof fn lemma_decoy_count(config: &TotemConfig, draws: Seq<usize>)
    requires
        config.wf(),
        draws_fit(config, draws),
    ensures
        decoys_of(config, draws).len() == DECOY_COUNT,
{
    if !uses_pool(config) {
        match config.mode {
            Mode::Numbers => {
                let five = number_candidates(draws);
                assert forall|a: int, b: int| 0 <= a < five.len() && 0 <= b < five.len() && a != b
                    implies five[a] != five[b] by {
                    lemma_padded_injective(draws[a] as nat, draws[b] as nat);
                }
                assert forall|k: int| 0 <= k < five.len() implies five.contains(five[k]) by {}
                lemma_pick_decoys_full(config.secret(), five, five);
            },
            Mode::Words => {
                let cands = word_candidates(draws);
                let five = word_list().take(ITEM_COUNT as int);
                lemma_leading_words_distinct();
                assert forall|k: int| 0 <= k < five.len() implies cands.contains(five[k]) by {
                    assert(cands[ITEM_COUNT + k] == five[k]);
                }
                lemma_pick_decoys_full(config.secret(), cands, five);
            },
        }
    }
}

/// Inserts the secret at `position` among the decoys given by the draws.
pub fn build_challenge(config: &TotemConfig, draws: &Vec<usize>, position: usize) -> (r: Challenge)
    requires
        config.wf(),
        draws_fit(config, draws@),
        position < ITEM_COUNT,
    ensures
        r.items.deep_view() == challenge_items(config, draws@, position as int),
        r.items.len() == ITEM_COUNT,
        r.secret_index == position,
{
    let secret = &config.totems[0];
    let mut decoys = if config.totems.len() - 1 >= DECOY_COUNT {
        pool_decoys(config, draws)
    } else {
        match config.mode {
            Mode::Numbers => choose_decoys(secret, &numbers_for(draws)),
            Mode::Words => choose_decoys(secret, &words_for(draws)),
        }
    };
    proof {
        lemma_decoy_count(config, draws@);
    }
    let ghost before = decoys.deep_view();
    decoys.insert(position, secret.clone());
    assert(decoys.deep_view() =~= before.insert(position as int, config.secret()));
    Challenge { items: decoys, secret_index: position }
}

/// The secret stands at the chosen position, and nowhere else whenever no
/// configured decoy reads as the secret (made-up decoys never do); made-up
/// decoys are moreover pairwise distinct.
pub proof fn lemma_secret_once(config: &TotemConfig, draws: Seq<usize>, position: int)
    requires
        config.wf(),
        draws_fit(config, draws),
        0 <= position < ITEM_COUNT,
    ensures
        challenge_items(config, draws, position).len() == ITEM_COUNT,
        challenge_items(config, draws, position)[position] == config.secret(),
        !uses_pool(config) || config.pool_avoids_secret() ==> forall|j: int|
            0 <= j < ITEM_COUNT && j != position ==> challenge_items(config, draws, position)[j]
                != config.secret(),
        !uses_pool(config) ==> challenge_items(config, draws, position).no_duplicates(),
{
    lemma_decoy_count(config, draws);
    let decoys = decoys_of(config, draws);
    let items = challenge_items(config, draws, position);
    assert forall|j: int| 0 <= j < ITEM_COUNT && j != position implies items[j] == decoys[if j
        < position {
        j
    } else {
        j - 1
    }] by {}
    if uses_pool(config) {
        if config.pool_avoids_secret() {
            assert forall|j: int| 0 <= j < ITEM_COUNT && j != position implies items[j]
                != config.secret() by {
                let k = if j < position {
                    j
                } else {
                    j - 1
                };
                assert(decoys[k] == config.pool()[draws[k] as int]);
            }
        }
    } else {
        let cands = match config.mode {
            Mode::Numbers => number_candidates(draws),
            Mode::Words => word_candidates(draws),
        };
        lemma_pick_decoys(config.secret(), cands);
        assert(decoys == pick_decoys(config.secret(), cands));
        assert forall|a: int, b: int| 0 <= a < items.len() && 0 <= b < items.len() && a != b
            implies items[a] != items[b] by {
            if a != position && b != position {
                let ka = if a < position {
                    a
                } else {
                    a - 1
                };
                let kb = if b < position {
                    b
                } else {
                    b - 1
                };
                assert(decoys[ka] != decoys[kb]);
            }
        }
    }
}

/// With a large enough pool, every decoy is a configured decoy, taken from
/// distinct pool positions.
pub proof fn lemma_pool_decoys(config: &TotemConfig, draws: Seq<usize>, position: int)
    requires
        config.wf(),
        uses_pool(config),
        draws_fit(config, draws),
        0 <= position < ITEM_COUNT,
    ensures
        forall|j: int|
            0 <= j < ITEM_COUNT && j != position ==> config.pool().contains(
                challenge_items(config, draws, position)[j],
            ),
        forall|k: int| 0 <= k < DECOY_COUNT ==> decoys_of(config, draws)[k] == config.pool()[draws[k] as int],
        draws.no_duplicates(),
{
    let items = challenge_items(config, draws, position);
    assert forall|j: int| 0 <= j < ITEM_COUNT && j != position implies config.pool().contains(
        items[j],
    ) by {
        let k = if j < position {
            j
        } else {
            j - 1
        };
        assert(items[j] == config.pool()[draws[k] as int]);
    }
}

/// A challenge generator: owns a configuration and its own random stream.
pub struct ChallengeEngine {
    config: TotemConfig,
    rng: StdRng,
}

impl ChallengeEngine {
    /// The configuration challenges are built from.
    pub closed spec fn config(&self) -> TotemConfig {
        self.config
    }

    /// An engine whose random stream is fixed by `seed`.
    pub fn new(config: TotemConfig, seed: u64) -> (r: ChallengeEngine)
        requires
            config.wf(),
        ensures
            r.config() == config,
    {
        ChallengeEngine { config, rng: seeded_rng(seed) }
    }

    /// An engine that draws from the given generator.
    pub fn with_rng(config: TotemConfig, rng: StdRng) -> (r: ChallengeEngine)
        requires
            config.wf(),
        ensures
            r.config() == config,
    {
        ChallengeEngine { config, rng }
    }

    /// Builds a fresh challenge: four decoys (drawn from the pool when it
    /// holds at least four, else made up to match the mode) with the secret
    /// inserted at a random position.
    pub fn new_challenge(&mut self) -> (r: Challenge)
        requires
            old(self).config().wf(),
        ensures
            final(self).config() == old(self).config(),
            exists|draws: Seq<usize>|
                draws_fit(&old(self).config(), draws) && r.items.deep_view() == challenge_items(
                    &old(self).config(),
                    draws,
                    r.secret_index as int,
                ),
            r.items.len() == ITEM_COUNT,
            r.secret_index < ITEM_COUNT,
            r.items[r.secret_index as int]@ == old(self).config().secret(),
            !uses_pool(&old(self).config()) || old(self).config().pool_avoids_secret() ==> forall|
                j: int,
            |
                0 <= j < ITEM_COUNT && j != r.secret_index ==> r.items[j]@ != old(
                    self,
                ).config().secret(),
            !uses_pool(&old(self).config()) ==> r.items.deep_view().no_duplicates(),
            uses_pool(&old(self).config()) ==> forall|j: int|
                0 <= j < ITEM_COUNT && j != r.secret_index ==> old(self).config().pool().contains(
                    r.items[j]@,
                ),
    {
        let pool_len = self.config.totems.len() - 1;
        let draws = if pool_len >= DECOY_COUNT {
            sample_indices(&mut self.rng, pool_len, DECOY_COUNT)
        } else {
            match self.config.mode {
                Mode::Numbers => sample_indices(&mut self.rng, NUMBER_RANGE, ITEM_COUNT),
                Mode::Words => sample_indices(&mut self.rng, WORD_COUNT, ITEM_COUNT),
            }
        };
        let position = random_below(&mut self.rng, ITEM_COUNT);
        let r = build_challenge(&self.config, &draws, position);
        proof {
            let c = old(self).config();
            let items = challenge_items(&c, draws@, position as int);
            assert(self.config == c);
            lemma_secret_once(&c, draws@, position as int);
            if uses_pool(&c) {
                lemma_pool_decoys(&c, draws@, position as int);
            }
            assert forall|j: int| 0 <= j < ITEM_COUNT implies r.items[j]@ == items[j] by {
                assert(r.items.deep_view()[j] == items[j]);
            }
            if !uses_pool(&c) || c.pool_avoids_secret() {
                assert forall|j: int| 0 <= j < ITEM_COUNT && j != position implies r.items[j]@
                    != c.secret() by {
                    assert(r.items[j]@ == items[j]);
                }
            }
            if uses_pool(&c) {
                assert forall|j: int| 0 <= j < ITEM_COUNT && j != position implies c.pool().contains(
                    r.items[j]@,
                ) by {
                    assert(r.items[j]@ == items[j]);
                }
            }
        }
        r
    }
}

/// Five items shown to the user, with the position of the secret.
#[derive(Debug)]
pub struct Challenge {
    pub items: Vec<String>,
    pub secret_index: usize,
}

impl Challenge {
    /// Whether the reported position is the secret's.
    pub fn verify(&self, reported_index: usize) -> (r: bool)
        ensures
            r == (reported_index == self.secret_index),
    {
        reported_index == self.secret_index
    }
}

} // verus!
