//! The built-in word list from which textual decoys are made up.

use vstd::prelude::*;

verus! {

/// Number of words in the built-in list.
pub const WORD_COUNT: usize = 48;

/// The built-in word at position `i`.
pub open spec fn word_str(i: usize) -> &'static str {
    match i {
        0 => "anchor",
        1 => "badger",
        2 => "candle",
        3 => "dolphin",
        4 => "ember",
        5 => "falcon",
        6 => "garden",
        7 => "harbor",
        8 => "island",
        9 => "jungle",
        10 => "kettle",
        11 => "lantern",
        12 => "meadow",
        13 => "nectar",
        14 => "orchid",
        15 => "pebble",
        16 => "quiver",
        17 => "raven",
        18 => "saddle",
        19 => "timber",
        20 => "umbrella",
        21 => "velvet",
        22 => "walnut",
        23 => "yonder",
        24 => "zephyr",
        25 => "acorn",
        26 => "blossom",
        27 => "canyon",
        28 => "desert",
        29 => "feather",
        30 => "glacier",
        31 => "hammock",
        32 => "igloo",
        33 => "jasmine",
        34 => "koala",
        35 => "lagoon",
        36 => "marble",
        37 => "nugget",
        38 => "otter",
        39 => "pepper",
        40 => "quartz",
        41 => "ribbon",
        42 => "summit",
        43 => "tulip",
        44 => "violet",
        45 => "willow",
        46 => "yarrow",
        _ => "zenith",
    }
}

/// The built-in word list, as character sequences.
pub open spec fn word_list() -> Seq<Seq<char>> {
    Seq::new(WORD_COUNT as nat, |i: int| word_str(i as usize)@)
}

/// The built-in word at position `i`.
pub fn word(i: usize) -> (r: &'static str)
    requires
        i < WORD_COUNT,
    ensures
        r@ == word_list()[i as int],
{
    match i {
        0 => "anchor",
        1 => "badger",
        2 => "candle",
        3 => "dolphin",
        4 => "ember",
        5 => "falcon",
        6 => "garden",
        7 => "harbor",
        8 => "island",
        9 => "jungle",
        10 => "kettle",
        11 => "lantern",
        12 => "meadow",
        13 => "nectar",
        14 => "orchid",
        15 => "pebble",
        16 => "quiver",
        17 => "raven",
        18 => "saddle",
        19 => "timber",
        20 => "umbrella",
        21 => "velvet",
        22 => "walnut",
        23 => "yonder",
        24 => "zephyr",
        25 => "acorn",
        26 => "blossom",
        27 => "canyon",
        28 => "desert",
        29 => "feather",
        30 => "glacier",
        31 => "hammock",
        32 => "igloo",
        33 => "jasmine",
        34 => "koala",
        35 => "lagoon",
        36 => "marble",
        37 => "nugget",
        38 => "otter",
        39 => "pepper",
        40 => "quartz",
        41 => "ribbon",
        42 => "summit",
        43 => "tulip",
        44 => "violet",
        45 => "willow",
        46 => "yarrow",
        _ => "zenith",
    }
}

/// The first five words of the list are pairwise distinct.
pub proof fn lemma_leading_words_distinct()
    ensures
        forall|i: int, j: int| 0 <= i < 5 && 0 <= j < 5 && i != j ==> word_list()[i] != word_list()[j],
{
    reveal_strlit("anchor");
    reveal_strlit("badger");
    reveal_strlit("candle");
    reveal_strlit("dolphin");
    reveal_strlit("ember");
    assert(word_list()[0] == "anchor"@);
    assert(word_list()[1] == "badger"@);
    assert(word_list()[2] == "candle"@);
    assert(word_list()[3] == "dolphin"@);
    assert(word_list()[4] == "ember"@);
    assert(word_list()[0][0] != word_list()[1][0]);
    assert(word_list()[0][0] != word_list()[2][0]);
    assert(word_list()[0][0] != word_list()[3][0]);
    assert(word_list()[0][0] != word_list()[4][0]);
    assert(word_list()[1][0] != word_list()[2][0]);
    assert(word_list()[1][0] != word_list()[3][0]);
    assert(word_list()[1][0] != word_list()[4][0]);
    assert(word_list()[2][0] != word_list()[3][0]);
    assert(word_list()[2][0] != word_list()[4][0]);
    assert(word_list()[3][0] != word_list()[4][0]);
}

} // verus!
