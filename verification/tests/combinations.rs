use ggca::combination::{Combination, CombinationGenerator, PairingMode};

fn all(mode: PairingMode, genes: usize, gems: usize) -> Vec<Combination> {
    let mut generator = CombinationGenerator::new(mode, genes, gems);
    let mut found = Vec::new();
    while let Some(combination) = generator.next() {
        found.push(combination);
    }
    assert_eq!(generator.next(), None);
    assert_eq!(generator.next(), None);
    found
}

fn pairs(found: &[Combination]) -> Vec<(usize, usize)> {
    found.iter().map(|c| (c.gene, c.gem)).collect()
}

#[test]
fn all_vs_all_goes_through_the_gems_for_each_gene() {
    let found = all(PairingMode::AllVsAll, 2, 3);
    assert_eq!(pairs(&found), vec![(0, 0), (0, 1), (0, 2), (1, 0), (1, 1), (1, 2)]);
}

#[test]
fn all_vs_all_gives_the_product_of_the_sizes() {
    for genes in 0..7 {
        for gems in 0..7 {
            let found = all(PairingMode::AllVsAll, genes, gems);
            assert_eq!(found.len(), genes * gems);
            let generator = CombinationGenerator::new(PairingMode::AllVsAll, genes, gems);
            assert_eq!(generator.total(), (genes * gems) as u128);
            for gene in 0..genes {
                for gem in 0..gems {
                    assert_eq!(found[gene * gems + gem], Combination { gene, gem });
                }
            }
        }
    }
}

#[test]
fn all_vs_all_with_probes_counts_every_probe_row() {
    let genes = 4;
    let gems = 3;
    let probes = 5;
    let found = all(PairingMode::AllVsAll, genes, gems * probes);
    assert_eq!(found.len(), genes * gems * probes);
    assert_eq!(found.len(), 60);
}

#[test]
fn matched_pairs_each_position_with_itself() {
    let found = all(PairingMode::Matched, 4, 4);
    assert_eq!(pairs(&found), vec![(0, 0), (1, 1), (2, 2), (3, 3)]);
    assert_eq!(CombinationGenerator::new(PairingMode::Matched, 4, 4).total(), 4);
}

#[test]
fn matched_gives_as_many_combinations_as_the_size() {
    for size in 0..10 {
        assert_eq!(all(PairingMode::Matched, size, size).len(), size);
    }
}

#[test]
fn matched_stops_at_the_shorter_dataset() {
    assert_eq!(pairs(&all(PairingMode::Matched, 2, 5)), vec![(0, 0), (1, 1)]);
    assert_eq!(pairs(&all(PairingMode::Matched, 5, 3)), vec![(0, 0), (1, 1), (2, 2)]);
    assert_eq!(CombinationGenerator::new(PairingMode::Matched, 5, 3).total(), 3);
    assert_eq!(CombinationGenerator::new(PairingMode::Matched, 2, 5).total(), 2);
}

#[test]
fn an_empty_dataset_gives_no_combination() {
    assert_eq!(all(PairingMode::AllVsAll, 0, 5), Vec::new());
    assert_eq!(all(PairingMode::AllVsAll, 5, 0), Vec::new());
    assert_eq!(all(PairingMode::AllVsAll, 0, 0), Vec::new());
    assert_eq!(all(PairingMode::Matched, 0, 5), Vec::new());
    assert_eq!(all(PairingMode::Matched, 5, 0), Vec::new());
}

#[test]
fn total_does_not_overflow() {
    let generator = CombinationGenerator::new(PairingMode::AllVsAll, usize::MAX, usize::MAX);
    assert_eq!(generator.total(), (usize::MAX as u128) * (usize::MAX as u128));
    let mut generator = CombinationGenerator::new(PairingMode::AllVsAll, usize::MAX, 2);
    assert_eq!(generator.next(), Some(Combination { gene: 0, gem: 0 }));
    assert_eq!(generator.next(), Some(Combination { gene: 0, gem: 1 }));
    assert_eq!(generator.next(), Some(Combination { gene: 1, gem: 0 }));
}

#[test]
fn total_stays_while_combinations_are_handed_out() {
    let mut generator = CombinationGenerator::new(PairingMode::AllVsAll, 3, 2);
    assert_eq!(generator.total(), 6);
    generator.next();
    generator.next();
    assert_eq!(generator.total(), 6);
}
