use hashdial::assign::{assign, assign_nonzero};
use hashdial::common::{Config, ConfigError};
use hashdial::filter::{filter_records, record_len, StreamFilter};
use hashdial::hash::fnv1a;

fn lines(words: &[&str]) -> Vec<Vec<u8>> {
    words.iter().map(|w| w.as_bytes().to_vec()).collect()
}

fn cfg(partition: usize, num_partitions: usize) -> Config {
    Config::new(partition, num_partitions).unwrap()
}

#[test]
fn fnv1a_known_vectors() {
    assert_eq!(fnv1a(b""), 0xcbf29ce484222325);
    assert_eq!(fnv1a(b"a"), 0xaf63dc4c8601ec8c);
    assert_eq!(fnv1a(b"foobar"), 0x85944171f73967e8);
    assert_eq!(fnv1a(b"apple"), 0xf74a62a458befdbf);
}

#[test]
fn assign_exact_values() {
    assert_eq!(assign(b"apple", 2), Ok(1));
    assert_eq!(assign(b"banana", 2), Ok(0));
    assert_eq!(assign(b"foobar", 5), Ok(3));
    assert_eq!(assign(b"", 3), Ok(2));
    assert_eq!(assign_nonzero(b"grape", 3), 0);
}

#[test]
fn assign_is_deterministic() {
    for w in ["apple", "banana", "", "x y z"] {
        for n in 1..10usize {
            assert_eq!(assign(w.as_bytes(), n), assign(w.as_bytes(), n));
            assert_eq!(assign(w.as_bytes(), n), assign(w.to_string().as_bytes(), n));
        }
    }
}

#[test]
fn assign_in_range() {
    for w in ["apple", "banana", "cherry", "date", "", "\u{e9}t\u{e9}"] {
        for n in 1..20usize {
            let p = assign(w.as_bytes(), n).unwrap();
            assert!(p < n);
        }
    }
    assert_eq!(assign(b"anything", 1), Ok(0));
    assert!(assign(b"apple", usize::MAX).unwrap() < usize::MAX);
}

#[test]
fn assign_rejects_zero_partitions() {
    assert_eq!(assign(b"apple", 0), Err(ConfigError::ZeroPartitions));
    assert_eq!(assign(b"", 0), Err(ConfigError::ZeroPartitions));
}

#[test]
fn config_rejects_zero_partitions() {
    assert_eq!(Config::new(0, 0), Err(ConfigError::ZeroPartitions));
    assert_eq!(Config::new(3, 0), Err(ConfigError::ZeroPartitions));
}

#[test]
fn config_rejects_partition_out_of_range() {
    assert_eq!(Config::new(2, 2), Err(ConfigError::PartitionOutOfRange));
    assert_eq!(Config::new(7, 3), Err(ConfigError::PartitionOutOfRange));
}

#[test]
fn config_keeps_partition_and_count_apart() {
    let c = Config::new(3, 5).unwrap();
    assert_eq!(c.partition, 3);
    assert_eq!(c.num_partitions, 5);
}

#[test]
fn config_error_messages_differ() {
    assert_ne!(
        ConfigError::ZeroPartitions.message(),
        ConfigError::PartitionOutOfRange.message()
    );
}

#[test]
fn accepts_matches_assign() {
    let c0 = cfg(0, 2);
    let c1 = cfg(1, 2);
    assert!(c1.accepts(b"apple"));
    assert!(!c0.accepts(b"apple"));
    assert!(c0.accepts(b"banana"));
    assert!(!c1.accepts(b"banana"));
}

#[test]
fn concrete_four_fruits() {
    let input = lines(&["apple", "banana", "cherry", "date"]);
    let out0 = filter_records(&cfg(0, 2), &input);
    let out1 = filter_records(&cfg(1, 2), &input);
    assert_eq!(out0, lines(&["banana", "cherry"]));
    assert_eq!(out1, lines(&["apple", "date"]));
    // Merging the two outputs back by each record's partition restores the input.
    let (mut i0, mut i1) = (0usize, 0usize);
    let mut merged = Vec::new();
    for rec in &input {
        if assign(rec, 2).unwrap() == 0 {
            merged.push(out0[i0].clone());
            i0 += 1;
        } else {
            merged.push(out1[i1].clone());
            i1 += 1;
        }
    }
    assert_eq!(merged, input);
}

#[test]
fn partitions_are_complete_and_disjoint() {
    let input = lines(&[
        "apple", "banana", "cherry", "date", "fig", "grape", "apple", "", "kiwi", "lemon",
    ]);
    for n in 1..6usize {
        let mut all: Vec<Vec<u8>> = Vec::new();
        for p in 0..n {
            all.extend(filter_records(&cfg(p, n), &input));
        }
        assert_eq!(all.len(), input.len());
        let mut a = all.clone();
        let mut b = input.clone();
        a.sort();
        b.sort();
        assert_eq!(a, b);
    }
}

#[test]
fn output_keeps_input_order() {
    let input = lines(&["apple", "banana", "cherry", "date", "fig", "grape", "kiwi"]);
    for p in 0..3usize {
        let out = filter_records(&cfg(p, 3), &input);
        let expected: Vec<Vec<u8>> = input
            .iter()
            .filter(|r| assign(r, 3).unwrap() == p)
            .cloned()
            .collect();
        assert_eq!(out, expected);
    }
}

#[test]
fn rerun_gives_identical_output() {
    let input = lines(&["apple", "banana", "cherry", "date", "fig"]);
    let c = cfg(2, 3);
    assert_eq!(filter_records(&c, &input), filter_records(&c, &input));
}

#[test]
fn empty_input_gives_empty_output() {
    for p in 0..4usize {
        assert!(filter_records(&cfg(p, 4), &Vec::new()).is_empty());
    }
}

#[test]
fn empty_record_is_hashed_like_any_other() {
    let input = lines(&[""]);
    assert_eq!(filter_records(&cfg(2, 3), &input), input);
    assert!(filter_records(&cfg(0, 3), &input).is_empty());
}

#[test]
fn single_record_goes_to_one_partition() {
    let input = lines(&["cherry"]);
    let n = 5usize;
    let mut hits = 0;
    for p in 0..n {
        let out = filter_records(&cfg(p, n), &input);
        if p == 3 {
            assert_eq!(out, input);
            hits += 1;
        } else {
            assert!(out.is_empty());
        }
    }
    assert_eq!(hits, 1);
}

#[test]
fn stream_filter_steps_like_batch() {
    let input = lines(&["apple", "banana", "cherry", "date"]);
    let mut f = StreamFilter::new(cfg(1, 2));
    assert_eq!(f.config(), cfg(1, 2));
    let emitted: Vec<Vec<u8>> = input.iter().filter(|r| f.step(r)).cloned().collect();
    assert_eq!(emitted, lines(&["apple", "date"]));
}

#[test]
fn record_len_strips_terminator() {
    assert_eq!(record_len(b"apple\n"), 5);
    assert_eq!(record_len(b"apple\r\n"), 5);
    assert_eq!(record_len(b"apple"), 5);
    assert_eq!(record_len(b"\n"), 0);
    assert_eq!(record_len(b"\r\n"), 0);
    assert_eq!(record_len(b"\r"), 1);
    assert_eq!(record_len(b""), 0);
    assert_eq!(record_len(b"a\rb\n"), 3);
}
