use totem::config::{Mode, TotemConfig};
use totem::engine::{build_challenge, choose_decoys, words_for, Challenge, ChallengeEngine};

fn strings(v: &[&str]) -> Vec<String> {
    v.iter().map(|s| s.to_string()).collect()
}

fn config(mode: Mode, totems: &[&str]) -> TotemConfig {
    TotemConfig { mode, totems: strings(totems) }
}

fn check_shape(config: &TotemConfig, c: &Challenge) {
    assert_eq!(c.items.len(), 5);
    assert!(c.secret_index < 5);
    assert_eq!(c.items[c.secret_index], config.totems[0]);
    let count = c.items.iter().filter(|s| **s == config.totems[0]).count();
    assert_eq!(count, 1);
}

fn all_distinct(items: &[String]) -> bool {
    for i in 0..items.len() {
        for j in (i + 1)..items.len() {
            if items[i] == items[j] {
                return false;
            }
        }
    }
    true
}

#[test]
fn secret_appears_once_with_configured_pool() {
    let cfg = config(Mode::Words, &["apple", "banana", "cherry", "date", "fig", "grape"]);
    for seed in 0..200u64 {
        let mut engine = ChallengeEngine::new(cfg.clone(), seed);
        let c = engine.new_challenge();
        check_shape(&cfg, &c);
        for (j, item) in c.items.iter().enumerate() {
            if j != c.secret_index {
                assert!(cfg.totems[1..].contains(item));
            }
        }
        assert!(all_distinct(&c.items));
    }
}

#[test]
fn made_up_number_decoys() {
    let cfg = config(Mode::Numbers, &["000007", "000008"]);
    for seed in 0..200u64 {
        let mut engine = ChallengeEngine::new(cfg.clone(), seed);
        let c = engine.new_challenge();
        check_shape(&cfg, &c);
        assert!(all_distinct(&c.items));
        for item in &c.items {
            assert_eq!(item.len(), 6);
            assert!(item.chars().all(|ch| ch.is_ascii_digit()));
        }
    }
}

#[test]
fn made_up_word_decoys() {
    let cfg = config(Mode::Words, &["anchor"]);
    for seed in 0..200u64 {
        let mut engine = ChallengeEngine::new(cfg.clone(), seed);
        let c = engine.new_challenge();
        check_shape(&cfg, &c);
        assert!(all_distinct(&c.items));
    }
}

#[test]
fn secret_position_is_uniform() {
    let cfg = config(Mode::Words, &["apple", "banana", "cherry", "date", "fig", "grape"]);
    let mut engine = ChallengeEngine::new(cfg, 12345);
    let trials = 5000;
    let mut counts = [0u32; 5];
    for _ in 0..trials {
        counts[engine.new_challenge().secret_index] += 1;
    }
    let expected = trials as f64 / 5.0;
    let chi2: f64 = counts
        .iter()
        .map(|&c| (c as f64 - expected) * (c as f64 - expected) / expected)
        .sum();
    // 18.47 is the 0.001 critical value with four degrees of freedom.
    assert!(chi2 < 18.47, "chi-square {} for {:?}", chi2, counts);
}

#[test]
fn pool_subsets_vary() {
    let cfg = config(Mode::Words, &["apple", "banana", "cherry", "date", "fig", "grape", "kiwi"]);
    let mut engine = ChallengeEngine::new(cfg.clone(), 7);
    let mut seen: Vec<Vec<String>> = Vec::new();
    for _ in 0..100 {
        let c = engine.new_challenge();
        let mut decoys: Vec<String> = c
            .items
            .iter()
            .enumerate()
            .filter(|(j, _)| *j != c.secret_index)
            .map(|(_, s)| s.clone())
            .collect();
        decoys.sort();
        for d in &decoys {
            assert!(cfg.totems[1..].contains(d));
        }
        if !seen.contains(&decoys) {
            seen.push(decoys);
        }
    }
    assert!(seen.len() > 1);
}

#[test]
fn verify_accepts_only_the_secret_index() {
    let c = Challenge { items: strings(&["a", "b", "c", "d", "e"]), secret_index: 3 };
    for i in 0..5 {
        assert_eq!(c.verify(i), i == 3);
    }
    assert!(!c.verify(5));
    assert!(!c.verify(100));
    assert!(!c.verify(usize::MAX));
}

#[test]
fn seeded_engine_is_deterministic() {
    let cfg = config(Mode::Words, &["apple", "banana", "cherry", "date", "fig", "grape"]);
    let mut a = ChallengeEngine::new(cfg.clone(), 2024);
    let mut b = ChallengeEngine::new(cfg.clone(), 2024);
    let ca = a.new_challenge();
    let cb = b.new_challenge();
    assert_eq!(ca.items, cb.items);
    assert_eq!(ca.secret_index, cb.secret_index);
    check_shape(&cfg, &ca);
    assert!(ca.verify(ca.secret_index));
    assert!(!ca.verify((ca.secret_index + 1) % 5));
}

#[test]
fn build_from_pool_draws() {
    let cfg = config(Mode::Numbers, &["s", "p0", "p1", "p2", "p3", "p4"]);
    let c = build_challenge(&cfg, &vec![4, 0, 2, 1], 1);
    assert_eq!(c.items, strings(&["p4", "s", "p0", "p2", "p1"]));
    assert_eq!(c.secret_index, 1);
}

#[test]
fn build_from_number_draws() {
    let cfg = config(Mode::Numbers, &["000007"]);
    let c = build_challenge(&cfg, &vec![1, 2, 3, 4, 5], 2);
    assert_eq!(c.items, strings(&["000001", "000002", "000007", "000003", "000004"]));
    assert_eq!(c.secret_index, 2);
}

#[test]
fn build_skips_number_equal_to_secret() {
    let cfg = config(Mode::Numbers, &["000003", "000009"]);
    let c = build_challenge(&cfg, &vec![1, 2, 3, 4, 999999], 4);
    assert_eq!(c.items, strings(&["000001", "000002", "000004", "999999", "000003"]));
}

#[test]
fn build_skips_word_equal_to_secret() {
    let cfg = config(Mode::Words, &["anchor"]);
    let c = build_challenge(&cfg, &vec![0, 1, 2, 3, 4], 0);
    assert_eq!(c.items, strings(&["anchor", "badger", "candle", "dolphin", "ember"]));
}

#[test]
fn choose_decoys_keeps_first_four_fresh() {
    let secret = "x".to_string();
    let cands = strings(&["a", "x", "a", "b", "c", "b", "d", "e"]);
    assert_eq!(choose_decoys(&secret, &cands), strings(&["a", "b", "c", "d"]));
    let few = strings(&["x", "a", "a"]);
    assert_eq!(choose_decoys(&secret, &few), strings(&["a"]));
}

#[test]
fn word_candidates_end_with_the_list() {
    let cands = words_for(&vec![2, 0]);
    assert_eq!(cands[0], "candle");
    assert_eq!(cands[1], "anchor");
    assert_eq!(cands[2], "anchor");
    assert_eq!(cands.len(), 2 + 48);
    assert_eq!(cands[cands.len() - 1], "zenith");
}
