use krampus::derangement::random_derangement;
use krampus::errors::Error;
use rand::rngs::StdRng;
use rand::Rng;
use rand::SeedableRng;

// Ensures that no fixed point are present in the generated vector.
#[test]
fn no_fixed_point() {
    let mut rng = rand::thread_rng();
    let mut draw_rng = StdRng::from_entropy();

    for _ in 0..10000 {
        let size = rng.gen_range(5..10);
        let derangement = random_derangement(size, &mut draw_rng).unwrap();

        // Test that all elements are different than their index.
        let not_found = derangement.iter().enumerate().all(|(i, &p)| i != p);

        assert!(not_found);

        // Ensures that each index is present in the permutation
        let same_sum = derangement
            .iter()
            .enumerate()
            .fold((0, 0), |(ai, ap), (i, &p)| (ai + i, ap + p));

        assert!(same_sum.0 == same_sum.1);
    }
}

#[test]
fn bijection_for_all_small_sizes() {
    let mut rng = StdRng::seed_from_u64(7);
    for n in 2..=200usize {
        let p = random_derangement(n, &mut rng).unwrap();
        assert_eq!(p.len(), n);
        let mut seen = vec![false; n];
        for &v in p.iter() {
            assert!(v < n);
            assert!(!seen[v], "value {} appears twice", v);
            seen[v] = true;
        }
        assert!(seen.iter().all(|&s| s), "some index never appears");
    }
}

#[test]
fn no_fixed_point_for_all_small_sizes() {
    let mut rng = StdRng::seed_from_u64(11);
    for n in 2..=200usize {
        let p = random_derangement(n, &mut rng).unwrap();
        for (i, &v) in p.iter().enumerate() {
            assert_ne!(i, v, "fixed point at position {}", i);
        }
    }
}

#[test]
fn invalid_sizes_fail_immediately() {
    let mut rng = StdRng::seed_from_u64(3);
    assert_eq!(random_derangement(0, &mut rng), Err(Error::InvalidSize));
    assert_eq!(random_derangement(1, &mut rng), Err(Error::InvalidSize));
}

#[test]
fn five_participants_ten_thousand_draws() {
    let mut rng = StdRng::seed_from_u64(2024);
    for _ in 0..10000 {
        let p = random_derangement(5, &mut rng).unwrap();
        assert_eq!(p.len(), 5);
        let mut seen = [false; 5];
        for (i, &v) in p.iter().enumerate() {
            assert!(v < 5);
            assert_ne!(i, v);
            assert!(!seen[v]);
            seen[v] = true;
        }
        assert!(seen.iter().all(|&s| s));
    }
}
