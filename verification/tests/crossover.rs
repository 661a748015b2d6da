use neuro_evolution::{Chromosome, CrossoverMethod, Error, UniformCrossover};
use rand::SeedableRng;
use rand_chacha::ChaCha8Rng;

#[test]
fn uniform_crossover() {
    let mut rng = ChaCha8Rng::from_seed(Default::default());
    let parent_a: Chromosome<f32> = Chromosome::from_vec((1..=100).map(|n| n as f32).collect());
    let parent_b: Chromosome<f32> = Chromosome::from_vec((1..=100).map(|n| -n as f32).collect());
    let child = UniformCrossover
        .crossover(&mut rng, &parent_a, &parent_b)
        .unwrap();

    let diff_a = child
        .iter()
        .zip(parent_a.into_vec())
        .filter(|(c, p)| *c != p)
        .count();
    let diff_b = child
        .iter()
        .zip(parent_b.into_vec())
        .filter(|(c, p)| *c != p)
        .count();
    assert_eq!(diff_a, 49);
    assert_eq!(diff_b, 51);
}

#[test]
fn child_is_as_long_as_its_parents() {
    for len in [0usize, 1, 2, 17, 100] {
        let mut rng = ChaCha8Rng::seed_from_u64(len as u64);
        let parent_a = Chromosome::from_vec(vec![1.0f32; len]);
        let parent_b = Chromosome::from_vec(vec![2.0f32; len]);
        let child = UniformCrossover
            .crossover(&mut rng, &parent_a, &parent_b)
            .unwrap();
        assert_eq!(child.len(), len);
    }
}

#[test]
fn every_gene_comes_from_a_parent_at_the_same_index() {
    let mut rng = ChaCha8Rng::seed_from_u64(7);
    let parent_a: Chromosome<i32> = Chromosome::from_vec((0..64).collect());
    let parent_b: Chromosome<i32> = Chromosome::from_vec((0..64).map(|n| 1000 + n).collect());
    let child = UniformCrossover
        .crossover(&mut rng, &parent_a, &parent_b)
        .unwrap();
    let mut from_a = 0;
    let mut from_b = 0;
    for i in 0..64 {
        assert!(child[i] == parent_a[i] || child[i] == parent_b[i]);
        if child[i] == parent_a[i] {
            from_a += 1;
        } else {
            from_b += 1;
        }
    }
    assert!(from_a > 0);
    assert!(from_b > 0);
}

#[test]
fn same_seed_gives_the_same_child() {
    let parent_a: Chromosome<i32> = Chromosome::from_vec((0..32).collect());
    let parent_b: Chromosome<i32> = Chromosome::from_vec((100..132).collect());
    let mut first = ChaCha8Rng::seed_from_u64(99);
    let mut second = ChaCha8Rng::seed_from_u64(99);
    let one = UniformCrossover
        .crossover(&mut first, &parent_a, &parent_b)
        .unwrap();
    let two = UniformCrossover
        .crossover(&mut second, &parent_a, &parent_b)
        .unwrap();
    assert_eq!(one.into_vec(), two.into_vec());
}

#[test]
fn crossover_refuses_parents_of_unequal_length() {
    let mut rng = ChaCha8Rng::from_seed(Default::default());
    let parent_a = Chromosome::from_vec(vec![1.0f32, 2.0]);
    let parent_b = Chromosome::from_vec(vec![1.0f32, 2.0, 3.0]);
    let child = UniformCrossover.crossover(&mut rng, &parent_a, &parent_b);
    assert!(matches!(child, Err(Error::LengthMismatch)));
    let child = UniformCrossover.crossover(&mut rng, &parent_b, &parent_a);
    assert!(matches!(child, Err(Error::LengthMismatch)));
}

#[test]
fn blend_follows_the_mask() {
    let parent_a = Chromosome::from_vec(vec![1, 2, 3, 4]);
    let parent_b = Chromosome::from_vec(vec![-1, -2, -3, -4]);
    let child = UniformCrossover::blend(&[true, false, false, true], &parent_a, &parent_b).unwrap();
    assert_eq!(child.into_vec(), vec![1, -2, -3, 4]);
    let child = UniformCrossover::blend(&[true; 4], &parent_a, &parent_b).unwrap();
    assert_eq!(child.into_vec(), vec![1, 2, 3, 4]);
    let child = UniformCrossover::blend(&[false; 4], &parent_a, &parent_b).unwrap();
    assert_eq!(child.into_vec(), vec![-1, -2, -3, -4]);
}

#[test]
fn blend_of_nothing_is_nothing() {
    let none: Chromosome<u8> = Chromosome::from_vec(vec![]);
    let other: Chromosome<u8> = Chromosome::from_vec(vec![]);
    let child = UniformCrossover::blend(&[], &none, &other).unwrap();
    assert_eq!(child.len(), 0);
}

#[test]
fn blend_refuses_lengths_that_disagree() {
    let two = Chromosome::from_vec(vec![1, 2]);
    let three = Chromosome::from_vec(vec![1, 2, 3]);
    assert!(matches!(
        UniformCrossover::blend(&[true, false], &two, &three),
        Err(Error::LengthMismatch)
    ));
    assert!(matches!(
        UniformCrossover::blend(&[true, false], &three, &two),
        Err(Error::LengthMismatch)
    ));
    assert!(matches!(
        UniformCrossover::blend(&[true, false, true], &two, &two),
        Err(Error::LengthMismatch)
    ));
    assert!(matches!(
        UniformCrossover::blend(&[true], &two, &two),
        Err(Error::LengthMismatch)
    ));
}
