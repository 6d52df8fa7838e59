use bloom_filter::{BloomFilter, BloomFilterArgs, BloomFilterContainsResponse};

#[test]
fn bloom_filter_does_not_provide_false_negatives() {
    let mut bloom_filter = BloomFilter::new();
    let keys = vec!["Test 1", "Other Test", "What about this long one?"];
    keys.iter().for_each(|&s| bloom_filter.insert(s.as_bytes()));
    keys.iter().for_each(|&s| {
        assert_eq!(
            bloom_filter.contains(s.as_bytes()),
            BloomFilterContainsResponse::Maybe
        )
    });
}

#[test]
fn bloom_filter_empty_provides_no_response() {
    let bloom_filter = BloomFilter::new();
    let keys = vec![
        "This key ain't there",
        "Testing123",
        "What about this key right here?",
    ];
    keys.iter().for_each(|&s| {
        assert_eq!(
            bloom_filter.contains(s.as_bytes()),
            BloomFilterContainsResponse::No
        )
    });
}

#[test]
fn hash_indices_are_deterministic() {
    let filter = BloomFilter::new();
    let other = BloomFilter::new();
    for key in ["", "a", "Test 1", "some much longer key with spaces"] {
        let first = filter.calculate_hash_indices(key.as_bytes());
        let second = filter.calculate_hash_indices(key.as_bytes());
        let elsewhere = other.calculate_hash_indices(key.as_bytes());
        assert_eq!(first, second);
        assert_eq!(first, elsewhere);
    }
}

#[test]
fn hash_indices_stay_within_capacity() {
    for bits in [1, 2, 7, 1024] {
        let filter = BloomFilter::with(BloomFilterArgs { bits });
        for key in ["", "x", "Some key", "Another key entirely"] {
            let indices = filter.calculate_hash_indices(key.as_bytes());
            assert_eq!(indices.len(), 3);
            for idx in indices {
                assert!(idx < bits);
            }
        }
    }
}

#[test]
fn hash_indices_depend_on_the_value() {
    let filter = BloomFilter::new();
    let one = filter.calculate_hash_indices("abc".as_bytes());
    let two = filter.calculate_hash_indices("abd".as_bytes());
    assert_ne!(one, two);
    // Three distinct algorithms: on this key they do not all collide.
    let triple = filter.calculate_hash_indices("Test 1".as_bytes());
    assert!(!(triple[0] == triple[1] && triple[1] == triple[2]));
}

#[test]
fn duplicate_insert_changes_nothing() {
    let probes = ["inserted once", "inserted twice", "never inserted", "", "zz"];
    let mut once = BloomFilter::new();
    let mut twice = BloomFilter::new();
    once.insert("inserted once".as_bytes());
    once.insert("inserted twice".as_bytes());
    twice.insert("inserted once".as_bytes());
    twice.insert("inserted twice".as_bytes());
    twice.insert("inserted twice".as_bytes());
    for probe in probes {
        assert_eq!(
            once.contains(probe.as_bytes()),
            twice.contains(probe.as_bytes())
        );
    }
    assert_eq!(
        twice.contains("inserted twice".as_bytes()),
        BloomFilterContainsResponse::Maybe
    );
}

#[test]
fn maybe_persists_through_later_inserts() {
    let mut filter = BloomFilter::new();
    filter.insert("the first key".as_bytes());
    assert_eq!(
        filter.contains("the first key".as_bytes()),
        BloomFilterContainsResponse::Maybe
    );
    for key in ["second", "third", "fourth", "fifth and last"] {
        filter.insert(key.as_bytes());
        assert_eq!(
            filter.contains("the first key".as_bytes()),
            BloomFilterContainsResponse::Maybe
        );
    }
}

#[test]
fn single_bit_filter_answers_maybe_for_everything() {
    let mut filter = BloomFilter::with(BloomFilterArgs { bits: 1 });
    assert_eq!(
        filter.contains("anything".as_bytes()),
        BloomFilterContainsResponse::No
    );
    filter.insert("just one value".as_bytes());
    for key in ["just one value", "some other value", "", "third"] {
        assert_eq!(
            filter.contains(key.as_bytes()),
            BloomFilterContainsResponse::Maybe
        );
    }
}

#[test]
fn custom_capacity_filter_works() {
    let mut filter = BloomFilter::with(BloomFilterArgs { bits: 64 });
    assert_eq!(
        filter.contains("present".as_bytes()),
        BloomFilterContainsResponse::No
    );
    filter.insert("present".as_bytes());
    assert_eq!(
        filter.contains("present".as_bytes()),
        BloomFilterContainsResponse::Maybe
    );
}

#[test]
fn empty_value_is_a_valid_key() {
    let mut filter = BloomFilter::new();
    assert_eq!(
        filter.contains("".as_bytes()),
        BloomFilterContainsResponse::No
    );
    filter.insert("".as_bytes());
    assert_eq!(
        filter.contains("".as_bytes()),
        BloomFilterContainsResponse::Maybe
    );
}

#[test]
fn default_args_give_the_documented_capacity() {
    let args = BloomFilterArgs::default();
    assert_eq!(args.bits, 1024);
    let filter = BloomFilter::with(args);
    let indices = filter.calculate_hash_indices("probe".as_bytes());
    let from_new = BloomFilter::new().calculate_hash_indices("probe".as_bytes());
    assert_eq!(indices, from_new);
}
