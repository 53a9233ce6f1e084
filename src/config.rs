//! Loading a totem list and classifying it by mode.

use vstd::prelude::*;
use crate::digits::{format_padded, padded_decimal};

verus! {

/// How decoys are made up when the configured pool is too small.
#[derive(Clone, Copy, Debug, PartialEq, Eq, Structural)]
pub enum Mode {
    Words,
    Numbers,
}

/// A loaded totem list. The first totem is the secret, the rest are the
/// configured decoy pool.
#[derive(Clone, Debug)]
pub struct TotemConfig {
    pub mode: Mode,
    pub totems: Vec<String>,
}

/// A raw totem list as stored: either numbers or words.
#[derive(Debug)]
pub enum TotemList {
    Numbers(Vec<u32>),
    Words(Vec<String>),
}

/// Why a totem list could not be loaded.
#[derive(Clone, Copy, Debug, PartialEq, Eq, Structural)]
pub enum ConfigError {
    /// The source is not a list of numbers nor a list of strings.
    Parse,
    /// The list holds no totem, so there is no secret.
    Empty,
}

#[verifier::external_type_specification]
#[verifier::external_body]
pub struct ExJsonError(serde_json::Error);

/// The numbers that a JSON text denotes, when it is an array of `u32`.
pub uninterp spec fn json_numbers(text: Seq<char>) -> Option<Seq<u32>>;

/// The strings that a JSON text denotes, when it is an array of strings.
pub uninterp spec fn json_words(text: Seq<char>) -> Option<Seq<Seq<char>>>;

/// Relies on `serde_json::from_str::<Vec<u32>>`, whose outcome depends on the
/// text alone.
#[verifier::external_body]
fn parse_numbers(text: &str) -> (r: Result<Vec<u32>, serde_json::Error>)
    ensures
        r is Ok <==> json_numbers(text@) is Some,
        r is Ok ==> json_numbers(text@) == Some(r->Ok_0@),
{
    serde_json::from_str::<Vec<u32>>(text)
}

/// Relies on `serde_json::from_str::<Vec<String>>`, whose outcome depends on
/// the text alone.
#[verifier::external_body]
fn parse_words(text: &str) -> (r: Result<Vec<String>, serde_json::Error>)
    ensures
        r is Ok <==> json_words(text@) is Some,
        r is Ok ==> json_words(text@) == Some(r->Ok_0.deep_view()),
{
    serde_json::from_str::<Vec<String>>(text)
}

/// The totems of a list of numbers.
pub open spec fn padded_all(nums: Seq<u32>) -> Seq<Seq<char>> {
    nums.map_values(|n: u32| padded_decimal(n as nat))
}

impl TotemConfig {
    /// A usable configuration holds a secret.
    pub open spec fn wf(&self) -> bool {
        self.totems.len() >= 1
    }

    /// The secret totem.
    pub open spec fn secret(&self) -> Seq<char> {
        self.totems[0]@
    }

    /// The configured decoys: every totem after the secret.
    pub open spec fn pool(&self) -> Seq<Seq<char>> {
        self.totems.deep_view().subrange(1, self.totems.len() as int)
    }

    /// No configured decoy reads as the secret.
    pub open spec fn pool_avoids_secret(&self) -> bool {
        forall|i: int| 0 <= i < self.pool().len() ==> self.pool()[i] != self.secret()
    }

    /// Builds a configuration from a raw list: numbers become zero-padded
    /// totems in `Numbers` mode, words are kept as they are in `Words` mode,
    /// and order is kept. An empty list has no secret and is refused.
    pub fn from_list(list: TotemList) -> (r: Result<TotemConfig, ConfigError>)
        ensures
            r is Err <==> match list {
                TotemList::Numbers(v) => v.len() == 0,
                TotemList::Words(v) => v.len() == 0,
            },
            r is Err ==> r->Err_0 == ConfigError::Empty,
            r is Ok ==> r->Ok_0.wf(),
            r is Ok ==> match list {
                TotemList::Numbers(v) => r->Ok_0.mode == Mode::Numbers
                    && r->Ok_0.totems.deep_view() == padded_all(v@),
                TotemList::Words(v) => r->Ok_0.mode == Mode::Words
                    && r->Ok_0.totems.deep_view() == v.deep_view(),
            },
    {
        match list {
            TotemList::Numbers(nums) => {
                if nums.len() == 0 {
                    return Err(ConfigError::Empty);
                }
                let mut totems: Vec<String> = Vec::new();
                let mut i: usize = 0;
                while i < nums.len()
                    invariant
                        i <= nums.len(),
                        totems.deep_view() == padded_all(nums@.take(i as int)),
                    decreases nums.len() - i,
                {
                    let t = format_padded(nums[i]);
                    let ghost before = totems.deep_view();
                    totems.push(t);
                    assert(totems.deep_view() =~= before.push(t@));
                    i = i + 1;
                    assert(totems.deep_view() =~= padded_all(nums@.take(i as int)));
                }
                assert(nums@.take(nums.len() as int) =~= nums@);
                Ok(TotemConfig { mode: Mode::Numbers, totems })
            },
            TotemList::Words(words) => {
                if words.len() == 0 {
                    return Err(ConfigError::Empty);
                }
                Ok(TotemConfig { mode: Mode::Words, totems: words })
            },
        }
    }

    /// Reads a JSON totem list: an array of numbers is taken as numbers,
    /// otherwise an array of strings as words; anything else is a parse
    /// error, and an empty array is refused as empty.
    pub fn parse(text: &str) -> (r: Result<TotemConfig, ConfigError>)
        ensures
            match json_numbers(text@) {
                Some(nums) => {
                    &&& r is Err <==> nums.len() == 0
                    &&& r is Err ==> r->Err_0 == ConfigError::Empty
                    &&& r is Ok ==> r->Ok_0.mode == Mode::Numbers
                        && r->Ok_0.totems.deep_view() == padded_all(nums)
                },
                None => match json_words(text@) {
                    Some(words) => {
                        &&& r is Err <==> words.len() == 0
                        &&& r is Err ==> r->Err_0 == ConfigError::Empty
                        &&& r is Ok ==> r->Ok_0.mode == Mode::Words
                            && r->Ok_0.totems.deep_view() == words
                    },
                    None => r == Err::<TotemConfig, ConfigError>(ConfigError::Parse),
                },
            },
            r is Ok ==> r->Ok_0.wf(),
    {
        match parse_numbers(text) {
            Ok(nums) => TotemConfig::from_list(TotemList::Numbers(nums)),
            Err(_) => match parse_words(text) {
                Ok(words) => TotemConfig::from_list(TotemList::Words(words)),
                Err(_) => Err(ConfigError::Parse),
            },
        }
    }
}

} // verus!
