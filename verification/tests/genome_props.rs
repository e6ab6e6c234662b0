use world_grid::BitCountsMap;
use world_grid::BitSet8;
use world_grid::BitSet8Gene;
use world_grid::FractionGene;
use world_grid::Random;
use world_grid::genome::FRACTION_ONE;

#[test]
fn bitset_bit_operations() {
    let mut bits = BitSet8::new(0b0000_1010);
    assert!(bits.is_bit_set(1));
    assert!(bits.is_bit_set(3));
    assert!(!bits.is_bit_set(0));
    assert_eq!(bits.count_set_bits(), 2);
    bits.set_bit(0);
    assert_eq!(bits.bits, 0b0000_1011);
    bits.flip_bit(3);
    assert_eq!(bits.bits, 0b0000_0011);
    bits.flip_bit(7);
    assert_eq!(bits.bits, 0b1000_0011);
    assert_eq!(bits.count_set_bits(), 3);
}

#[test]
fn bitset_empty_and_matching() {
    let empty = BitSet8::empty();
    assert_eq!(empty.bits, 0);
    let a = BitSet8::new(0b1010_1010);
    assert_eq!(a.count_matching_bits(a), 8);
    let b = BitSet8::new(0b0101_0101);
    assert_eq!(a.count_matching_bits(b), 0);
    let c = BitSet8::new(0b1010_1011);
    assert_eq!(a.count_matching_bits(c), 7);
}

#[test]
fn bitset_nybbles() {
    let bits = BitSet8::new(0xAB);
    assert_eq!(bits.nybbles(), (0xA0, 0xB0));
}

#[test]
fn bitset_random_with_forced_odds() {
    let mut rand = Random::from_seed(1);
    for _ in 0..100 {
        assert_eq!(BitSet8::random(0, 1000, &mut rand).bits, 0x00);
        assert_eq!(BitSet8::random(1000, 1000, &mut rand).bits, 0xff);
    }
}

/// Merging a single genome with mutation probability zero returns the
/// genome unchanged: a single parent is a unanimous vote.
#[test]
fn merge_single_genome_is_identity() {
    for bits in [0x00u8, 0x01, 0b1011_0010, 0xff] {
        let g = BitSet8Gene::new(BitSet8::new(bits));
        let mut with_rand = Some(Random::from_seed(2));
        let merged = BitSet8Gene::merge(&vec![g], &mut with_rand, 0, 1000);
        assert_eq!(merged.value.bits, bits);
        let mut no_rand: Option<Random> = None;
        let merged = BitSet8Gene::merge(&vec![g], &mut no_rand, 0, 1000);
        assert_eq!(merged.value.bits, bits);
    }
}

/// Unanimous bits survive a merge untouched when mutation is off; split
/// bits follow the proportional vote, which can only pick an allele some
/// parent holds.
#[test]
fn merge_keeps_unanimous_bits() {
    let a = BitSet8Gene::new(BitSet8::new(0b1100_0001));
    let b = BitSet8Gene::new(BitSet8::new(0b1100_0010));
    let mut rand = Some(Random::from_seed(3));
    for _ in 0..100 {
        let merged = BitSet8Gene::merge(&vec![a, b], &mut rand, 0, 1000);
        let bits = merged.value.bits;
        assert_eq!(bits & 0b1100_0000, 0b1100_0000, "bits all parents hold stay set");
        assert_eq!(bits & 0b0011_1100, 0, "bits no parent holds stay clear");
    }
}

#[test]
fn merge_without_randomness_needs_identical_parents() {
    let g = BitSet8Gene::new(BitSet8::new(0b0110_0110));
    let mut no_rand: Option<Random> = None;
    let merged = BitSet8Gene::merge(&vec![g, g, g], &mut no_rand, 500, 1000);
    assert_eq!(merged.value.bits, 0b0110_0110);
}

#[test]
fn bit_counts_map_tallies_each_position() {
    let mut counts = BitCountsMap::new();
    counts.increment(&BitSet8::new(0b0000_0011));
    counts.increment(&BitSet8::new(0b0000_0001));
    assert_eq!(counts.ones(0), 2);
    assert_eq!(counts.zeros(0), 0);
    assert_eq!(counts.ones(1), 1);
    assert_eq!(counts.zeros(1), 1);
    assert_eq!(counts.ones(7), 0);
    assert_eq!(counts.zeros(7), 2);
}

#[test]
fn merge_counts_unanimous_votes_are_kept() {
    let mut no_rand: Option<Random> = None;
    assert!(!BitCountsMap::merge_counts(0, 5, &mut no_rand));
    assert!(BitCountsMap::merge_counts(5, 0, &mut no_rand));
    let mut rand = Some(Random::from_seed(8));
    for _ in 0..100 {
        assert!(!BitCountsMap::merge_counts(0, 3, &mut rand));
        assert!(BitCountsMap::merge_counts(3, 0, &mut rand));
    }
}

/// Without a random stream, the merged scalar genome is exactly the
/// arithmetic mean of the parents' values.
#[test]
fn fraction_merge_without_randomness_is_the_mean() {
    let genes = vec![FractionGene::new(200_000), FractionGene::new(400_000)];
    let mut no_rand: Option<Random> = None;
    assert_eq!(FractionGene::merge(&genes, &mut no_rand, 12345).value, 300_000);

    let genes = vec![
        FractionGene::new(100_000),
        FractionGene::new(200_000),
        FractionGene::new(700_000),
    ];
    assert_eq!(FractionGene::merge(&genes, &mut no_rand, 0).value, 333_333);

    let genes = vec![FractionGene::new(987_654)];
    assert_eq!(FractionGene::merge(&genes, &mut no_rand, 0).value, 987_654);
}

/// With a random stream, the merged scalar genome stays within the unit
/// interval whatever the spread.
#[test]
fn fraction_merge_stays_in_unit_interval() {
    let genes = vec![FractionGene::new(900_000), FractionGene::new(1_000_000)];
    let mut rand = Some(Random::from_seed(9));
    for _ in 0..200 {
        let merged = FractionGene::merge(&genes, &mut rand, 300_000);
        assert!(merged.value <= FRACTION_ONE);
    }
}
