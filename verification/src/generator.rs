pub mod brute_force;
pub mod dictionary;

use vstd::prelude::*;
use crate::errors::CrackError;
use brute_force::BruteForceGenerator;
use dictionary::DictionaryGenerator;

verus! {

/// How the candidate stream is produced. Dictionary and hybrid modes carry
/// the raw wordlist lines; reading them off disk is the caller's business.
#[derive(Debug, Clone)]
pub enum GeneratorMode {
    Dictionary { lines: Vec<String> },
    BruteForce { charset: String, min_length: usize, max_length: usize },
    Hybrid { lines: Vec<String>, append_numbers: bool, append_special: bool },
}

/// An ordered, finite source of candidate passwords.
///
/// `pending()` models the exact sequence of candidates still to come:
/// `next()` pops its head, `reset()` rewinds it to the whole keyspace, and
/// `total_combinations()` reports the keyspace size exactly or `None` when it
/// cannot be counted in 64 bits.
pub trait PasswordGenerator: Sized {
    /// Internal consistency of the generator state.
    spec fn wf(&self) -> bool;

    /// The candidates still to be emitted, in emission order.
    spec fn pending(&self) -> Seq<Seq<char>>;

    /// The whole keyspace, as emitted from a fresh or freshly reset state.
    spec fn full_seq(&self) -> Seq<Seq<char>>;

    /// The keyspace size that `total_combinations` counts.
    spec fn total_count(&self) -> int;

    /// Emit the next candidate, or `None` once the keyspace is exhausted.
    fn next(&mut self) -> (r: Option<String>)
        requires
            old(self).wf(),
        ensures
            final(self).wf(),
            final(self).full_seq() == old(self).full_seq(),
            final(self).total_count() == old(self).total_count(),
            old(self).pending().len() == 0 ==> r is None && final(self).pending()
                == Seq::<Seq<char>>::empty(),
            old(self).pending().len() > 0 ==> {
                &&& r is Some
                &&& (r matches Some(s) ==> s@ == old(self).pending()[0])
                &&& final(self).pending() == old(self).pending().drop_first()
            },
    ;

    /// Rewind to the start of the keyspace.
    fn reset(&mut self)
        requires
            old(self).wf(),
        ensures
            final(self).wf(),
            final(self).full_seq() == old(self).full_seq(),
            final(self).total_count() == old(self).total_count(),
            final(self).pending() == final(self).full_seq(),
    ;

    /// The exact keyspace size, or `None` when it overflows 64 bits.
    fn total_combinations(&self) -> (r: Option<u64>)
        requires
            self.wf(),
        ensures
            r matches Some(t) ==> t == self.total_count(),
            r is None <==> self.total_count() > u64::MAX,
    ;
}

impl PasswordGenerator for BruteForceGenerator {
    open spec fn wf(&self) -> bool {
        BruteForceGenerator::wf(*self)
    }

    open spec fn pending(&self) -> Seq<Seq<char>> {
        BruteForceGenerator::pending(*self)
    }

    open spec fn full_seq(&self) -> Seq<Seq<char>> {
        BruteForceGenerator::full_seq(*self)
    }

    open spec fn total_count(&self) -> int {
        brute_force::spec_total_combinations(
            self.charset@.len() as nat,
            self.min_length as int,
            self.max_length as int,
        )
    }

    fn next(&mut self) -> (r: Option<String>) {
        self.step()
    }

    fn reset(&mut self) {
        self.rewind()
    }

    fn total_combinations(&self) -> (r: Option<u64>) {
        self.count_combinations()
    }
}

impl PasswordGenerator for DictionaryGenerator {
    open spec fn wf(&self) -> bool {
        DictionaryGenerator::wf(*self)
    }

    open spec fn pending(&self) -> Seq<Seq<char>> {
        DictionaryGenerator::pending(*self)
    }

    open spec fn full_seq(&self) -> Seq<Seq<char>> {
        DictionaryGenerator::full_seq(*self)
    }

    open spec fn total_count(&self) -> int {
        self.passwords@.len() as int
    }

    fn next(&mut self) -> (r: Option<String>) {
        if self.current_index < self.passwords.len() {
            let password = self.passwords[self.current_index].clone();
            proof {
                assert(self.passwords.deep_view()[self.current_index as int]
                    == self.passwords@[self.current_index as int]@);
                assert(DictionaryGenerator::pending(*self)[0] == self.passwords.deep_view()[
                    self.current_index as int
                ]);
            }
            self.current_index = self.current_index + 1;
            proof {
                assert(DictionaryGenerator::pending(*self) =~= DictionaryGenerator::pending(
                    *old(self),
                ).drop_first());
            }
            Some(password)
        } else {
            proof {
                assert(DictionaryGenerator::pending(*self) =~= Seq::<Seq<char>>::empty());
            }
            None
        }
    }

    fn reset(&mut self) {
        self.current_index = 0;
        proof {
            assert(DictionaryGenerator::pending(*self) =~= DictionaryGenerator::full_seq(*self));
        }
    }

    fn total_combinations(&self) -> (r: Option<u64>) {
        Some(self.passwords.len() as u64)
    }
}

/// Either concrete generator, as selected by a `GeneratorMode`.
pub enum Generator {
    BruteForce(BruteForceGenerator),
    Dictionary(DictionaryGenerator),
}

impl PasswordGenerator for Generator {
    open spec fn wf(&self) -> bool {
        match self {
            Generator::BruteForce(g) => PasswordGenerator::wf(g),
            Generator::Dictionary(g) => PasswordGenerator::wf(g),
        }
    }

    open spec fn pending(&self) -> Seq<Seq<char>> {
        match self {
            Generator::BruteForce(g) => PasswordGenerator::pending(g),
            Generator::Dictionary(g) => PasswordGenerator::pending(g),
        }
    }

    open spec fn full_seq(&self) -> Seq<Seq<char>> {
        match self {
            Generator::BruteForce(g) => PasswordGenerator::full_seq(g),
            Generator::Dictionary(g) => PasswordGenerator::full_seq(g),
        }
    }

    open spec fn total_count(&self) -> int {
        match self {
            Generator::BruteForce(g) => PasswordGenerator::total_count(g),
            Generator::Dictionary(g) => PasswordGenerator::total_count(g),
        }
    }

    fn next(&mut self) -> (r: Option<String>) {
        match self {
            Generator::BruteForce(g) => g.next(),
            Generator::Dictionary(g) => g.next(),
        }
    }

    fn reset(&mut self) {
        match self {
            Generator::BruteForce(g) => g.reset(),
            Generator::Dictionary(g) => g.reset(),
        }
    }

    fn total_combinations(&self) -> (r: Option<u64>) {
        match self {
            Generator::BruteForce(g) => g.total_combinations(),
            Generator::Dictionary(g) => g.total_combinations(),
        }
    }
}

/// Build the generator a mode calls for. The hybrid mode is not implemented
/// and is excluded by contract.
pub fn create_generator(mode: GeneratorMode) -> (r: Result<Generator, CrackError>)
    requires
        !(mode matches GeneratorMode::Hybrid { .. }),
    ensures
        mode matches GeneratorMode::Dictionary { lines } ==> {
            &&& r is Ok <==> dictionary::spec_dedup(
                dictionary::spec_clean_lines(lines.deep_view()),
            ).len() > 0
            &&& (r matches Ok(g) ==> g matches Generator::Dictionary(d) && d.wf()
                && d.current_index == 0 && d.passwords.deep_view() == dictionary::spec_dedup(
                dictionary::spec_clean_lines(lines.deep_view()),
            ))
            &&& (r is Err ==> r == Err::<Generator, CrackError>(CrackError::EmptyWordlist))
        },
        mode matches GeneratorMode::BruteForce { charset, min_length, max_length } ==> {
            &&& r is Ok <==> charset@.len() >= 1 && min_length <= max_length && max_length <= 20
            &&& (r matches Ok(g) ==> g matches Generator::BruteForce(b) && b.wf() && b.charset@
                == charset@ && b.min_length == min_length && b.max_length == max_length
                && !b.exhausted && BruteForceGenerator::pending(b)
                == BruteForceGenerator::full_seq(b))
            &&& (r is Err ==> (charset@.len() == 0 && r == Err::<Generator, CrackError>(
                CrackError::EmptyCharset,
            )) || (charset@.len() >= 1 && min_length > max_length && r == Err::<
                Generator,
                CrackError,
            >(CrackError::MinLengthExceedsMax)) || (charset@.len() >= 1 && min_length
                <= max_length && max_length > 20 && r == Err::<Generator, CrackError>(
                CrackError::MaxLengthTooLarge,
            )))
        },
{
    match mode {
        GeneratorMode::Dictionary { lines } => {
            match DictionaryGenerator::new(lines) {
                Ok(g) => Ok(Generator::Dictionary(g)),
                Err(e) => Err(e),
            }
        },
        GeneratorMode::BruteForce { charset, min_length, max_length } => {
            match BruteForceGenerator::new(charset, min_length, max_length) {
                Ok(g) => Ok(Generator::BruteForce(g)),
                Err(e) => Err(e),
            }
        },
        GeneratorMode::Hybrid { .. } => vstd::pervasive::unreached(),
    }
}

} // verus!
