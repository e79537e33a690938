//! The combinations of a gene with a GEM that an analysis evaluates.
//!
//! A combination names a gene and a GEM by their positions in the two
//! datasets. Where the GEM dataset is annotated, each of its rows is one probe
//! of a GEM, and a combination names the row.

use vstd::arithmetic::div_mod::lemma_fundamental_div_mod_converse;
use vstd::prelude::*;

verus! {

/// How genes are paired with GEMs.
#[derive(Clone, Copy, Debug, PartialEq, Eq, Structural)]
pub enum PairingMode {
    /// Every gene with every GEM row.
    AllVsAll,
    /// The gene at each position with the GEM row at the same position.
    Matched,
}

/// One pair to correlate: positions in the gene and in the GEM dataset.
#[derive(Clone, Copy, Debug, PartialEq, Eq, Structural)]
pub struct Combination {
    pub gene: usize,
    pub gem: usize,
}

/// The number of combinations of `genes` genes with `gems` GEM rows.
pub open spec fn combination_count(mode: PairingMode, genes: nat, gems: nat) -> nat {
    match mode {
        PairingMode::AllVsAll => genes * gems,
        PairingMode::Matched => if genes <= gems {
            genes
        } else {
            gems
        },
    }
}

/// The combination that comes at place `at`, counted from zero. All against
/// all goes through the GEM rows for the first gene, then for the second, and
/// so on.
pub open spec fn combination_at(mode: PairingMode, gems: nat, at: int) -> Combination {
    match mode {
        PairingMode::AllVsAll => Combination {
            gene: (at / gems as int) as usize,
            gem: (at % gems as int) as usize,
        },
        PairingMode::Matched => Combination { gene: at as usize, gem: at as usize },
    }
}

/// All combinations, in the order in which they are generated.
pub open spec fn combinations(mode: PairingMode, genes: nat, gems: nat) -> Seq<Combination> {
    Seq::new(combination_count(mode, genes, gems), |at: int| combination_at(mode, gems, at))
}

/// All against all gives one combination for each gene and each GEM row: as
/// many as the product of the two sizes, and the pair of gene `gene` and row
/// `gem` at place `gene * gems + gem`.
pub proof fn lemma_all_vs_all_is_product(genes: usize, gems: usize, gene: usize, gem: usize)
    requires
        gene < genes,
        gem < gems,
    ensures
        combinations(PairingMode::AllVsAll, genes as nat, gems as nat).len() == genes * gems,
        0 <= gene * gems + gem < genes * gems,
        combinations(PairingMode::AllVsAll, genes as nat, gems as nat)[gene * gems + gem]
            == (Combination { gene, gem }),
{
    let at = gene * gems + gem;
    assert(0 <= gene * gems + gem < genes * gems) by (nonlinear_arith)
        requires
            0 <= gene < genes,
            0 <= gem < gems,
    ;
    assert(at == gems * gene + gem) by (nonlinear_arith)
        requires
            at == gene * gems + gem,
    ;
    lemma_fundamental_div_mod_converse(at, gems as int, gene as int, gem as int);
}

/// With `probes` annotated probe rows for each of `gems` GEMs, all against all
/// gives `genes * gems * probes` combinations.
pub proof fn lemma_all_vs_all_with_probes(genes: nat, gems: nat, probes: nat)
    ensures
        combinations(PairingMode::AllVsAll, genes, gems * probes).len() == genes * gems * probes,
{
    assert(genes * (gems * probes) == genes * gems * probes) by (nonlinear_arith);
}

/// Matched pairing of two datasets of one size gives as many combinations as
/// that size, the one at each place pairing that position with itself.
pub proof fn lemma_matched_is_diagonal(size: usize, at: usize)
    requires
        at < size,
    ensures
        combinations(PairingMode::Matched, size as nat, size as nat).len() == size,
        combinations(PairingMode::Matched, size as nat, size as nat)[at as int] == (Combination {
            gene: at,
            gem: at,
        }),
{
}

/// Goes through the combinations one by one, holding none of them in memory.
#[derive(Clone, Copy, Debug)]
pub struct CombinationGenerator {
    mode: PairingMode,
    genes: usize,
    gems: usize,
    gene: usize,
    gem: usize,
}

impl CombinationGenerator {
    #[verifier::type_invariant]
    spec fn well_formed(self) -> bool {
        match self.mode {
            PairingMode::AllVsAll => (self.gene < self.genes && self.gem < self.gems) || (self.gene
                == self.genes && self.gem == 0),
            PairingMode::Matched => self.gene == self.gem && self.gene <= self.genes && self.gene
                <= self.gems,
        }
    }

    pub closed spec fn mode(self) -> PairingMode {
        self.mode
    }

    /// Size of the gene dataset.
    pub closed spec fn genes(self) -> nat {
        self.genes as nat
    }

    /// Number of rows of the GEM dataset.
    pub closed spec fn gems(self) -> nat {
        self.gems as nat
    }

    /// How many combinations have been handed out.
    pub closed spec fn emitted(self) -> nat {
        match self.mode {
            PairingMode::AllVsAll => (self.gene * self.gems + self.gem) as nat,
            PairingMode::Matched => self.gene as nat,
        }
    }

    /// All combinations that this generator goes through.
    pub open spec fn all(self) -> Seq<Combination> {
        combinations(self.mode(), self.genes(), self.gems())
    }

    /// A generator at the first combination.
    pub fn new(mode: PairingMode, genes: usize, gems: usize) -> (r: CombinationGenerator)
        ensures
            r.mode() == mode,
            r.genes() == genes,
            r.gems() == gems,
            r.emitted() == 0,
    {
        let empty = genes == 0 || gems == 0;
        let gene = match mode {
            PairingMode::AllVsAll => if empty {
                genes
            } else {
                0
            },
            PairingMode::Matched => 0,
        };
        assert(genes * gems == 0 <==> genes == 0 || gems == 0) by (nonlinear_arith);
        assert(0 * gems + 0 == 0) by (nonlinear_arith);
        CombinationGenerator { mode, genes, gems, gene, gem: 0 }
    }

    /// The number of combinations that the generator goes through in all.
    pub fn total(&self) -> (r: u128)
        ensures
            r == self.all().len(),
    {
        match self.mode {
            PairingMode::AllVsAll => {
                assert(self.genes * self.gems <= 0xFFFF_FFFF_FFFF_FFFF * 0xFFFF_FFFF_FFFF_FFFF)
                    by (nonlinear_arith)
                    requires
                        0 <= self.genes <= 0xFFFF_FFFF_FFFF_FFFF,
                        0 <= self.gems <= 0xFFFF_FFFF_FFFF_FFFF,
                ;
                (self.genes as u128) * (self.gems as u128)
            },
            PairingMode::Matched => if self.genes <= self.gems {
                self.genes as u128
            } else {
                self.gems as u128
            },
        }
    }

    /// The next combination, or `None` once all have been handed out.
    pub fn next(&mut self) -> (r: Option<Combination>)
        ensures
            final(self).mode() == old(self).mode(),
            final(self).genes() == old(self).genes(),
            final(self).gems() == old(self).gems(),
            old(self).emitted() <= old(self).all().len(),
            old(self).emitted() < old(self).all().len() ==> r == Some(
                old(self).all()[old(self).emitted() as int],
            ) && final(self).emitted() == old(self).emitted() + 1,
            old(self).emitted() == old(self).all().len() ==> r is None && final(self).emitted()
                == old(self).emitted(),
    {
        proof {
            use_type_invariant(&*self);
        }
        let mode = self.mode;
        let genes = self.genes;
        let gems = self.gems;
        let gene = self.gene;
        let gem = self.gem;
        match mode {
            PairingMode::AllVsAll => {
                if gene == genes {
                    None
                } else {
                    proof {
                        let at = gene * gems + gem;
                        assert(0 <= gene * gems + gem < genes * gems) by (nonlinear_arith)
                            requires
                                0 <= gene < genes,
                                0 <= gem < gems,
                        ;
                        assert(at == gems * gene + gem) by (nonlinear_arith)
                            requires
                                at == gene * gems + gem,
                        ;
                        lemma_fundamental_div_mod_converse(
                            at,
                            gems as int,
                            gene as int,
                            gem as int,
                        );
                    }
                    if gem + 1 < gems {
                        *self = CombinationGenerator { mode, genes, gems, gene, gem: gem + 1 };
                    } else {
                        assert((gene + 1) * gems + 0 == gene * gems + gem + 1) by (nonlinear_arith)
                            requires
                                gem + 1 == gems,
                        ;
                        *self = CombinationGenerator { mode, genes, gems, gene: gene + 1, gem: 0 };
                    }
                    Some(Combination { gene, gem })
                }
            },
            PairingMode::Matched => {
                if gene < genes && gene < gems {
                    *self = CombinationGenerator {
                        mode,
                        genes,
                        gems,
                        gene: gene + 1,
                        gem: gem + 1,
                    };
                    Some(Combination { gene, gem })
                } else {
                    None
                }
            },
        }
    }
}

} // verus!
