use vstd::prelude::*;
use vstd::arithmetic::power::{pow, lemma_pow_adds, lemma_pow1, lemma_pow_positive};
use vstd::string::StrSliceExecFns;
use crate::errors::CrackError;
use crate::utils::push_char;

verus! {

// ---------------------------------------------------------------------------
// The enumeration model: every spec sequence below lists candidate strings in
// the exact order the odometer emits them — all strings of one length in
// lexicographic-by-symbol-index order, shorter lengths before longer ones.
// ---------------------------------------------------------------------------

/// Every tuple of `ts`, with the symbol `c` prepended.
pub open spec fn prepend_all(c: char, ts: Seq<Seq<char>>) -> Seq<Seq<char>> {
    ts.map(|i: int, t: Seq<char>| seq![c] + t)
}

/// All strings of length `len` over `cs`, in odometer order: the first
/// position is the most significant.
pub open spec fn all_tuples(cs: Seq<char>, len: nat) -> Seq<Seq<char>>
    decreases len, 0int, 0int,
{
    if len == 0 {
        seq![Seq::<char>::empty()]
    } else {
        tuples_from(cs, 0, (len - 1) as nat)
    }
}

/// All strings of length `1 + rest` over `cs` whose leading symbol index is
/// at least `from`, in odometer order.
pub open spec fn tuples_from(cs: Seq<char>, from: int, rest: nat) -> Seq<Seq<char>>
    decreases rest, 1int, cs.len() - from,
{
    if from < 0 || from >= cs.len() {
        Seq::empty()
    } else {
        prepend_all(cs[from], all_tuples(cs, rest)) + tuples_from(cs, from + 1, rest)
    }
}

/// Whether every digit of an index vector addresses a symbol of `cs`.
pub open spec fn valid_digits(cs: Seq<char>, ds: Seq<usize>) -> bool {
    forall|i: int| 0 <= i < ds.len() ==> (ds[i] as int) < cs.len()
}

/// The string an index vector denotes: each digit replaced by its symbol.
pub open spec fn spec_render(cs: Seq<char>, ds: Seq<usize>) -> Seq<char> {
    ds.map(|i: int, d: usize| cs[d as int])
}

/// The all-zero index vector of a given length.
pub open spec fn zero_digits(len: nat) -> Seq<usize> {
    Seq::new(len, |i: int| 0usize)
}

/// The strings of length `ds.len()` still to come when the odometer stands at
/// `ds`: the string `ds` itself denotes, then all its successors.
pub open spec fn suffix_tuples(cs: Seq<char>, ds: Seq<usize>) -> Seq<Seq<char>>
    decreases ds.len(),
{
    if ds.len() == 0 {
        seq![Seq::<char>::empty()]
    } else {
        prepend_all(cs[ds[0] as int], suffix_tuples(cs, ds.drop_first())) + tuples_from(
            cs,
            ds[0] + 1,
            (ds.len() - 1) as nat,
        )
    }
}

/// All strings of lengths `from` through `max`, shortest first.
pub open spec fn length_blocks(cs: Seq<char>, from: int, max: int) -> Seq<Seq<char>>
    decreases max + 1 - from,
{
    if from < 0 || from > max {
        Seq::empty()
    } else {
        all_tuples(cs, from as nat) + length_blocks(cs, from + 1, max)
    }
}

/// The exact size of the keyspace: the sum of `clen ^ l` over the lengths
/// `min` through `max`.
pub open spec fn spec_total_combinations(clen: nat, min: int, max: int) -> int
    decreases max + 1 - min,
{
    if min < 0 || min > max {
        0
    } else {
        pow(clen as int, min as nat) + spec_total_combinations(clen, min + 1, max)
    }
}

/// Whether every character of `s` occurs in the charset `cs`.
pub open spec fn chars_in(cs: Seq<char>, s: Seq<char>) -> bool {
    forall|i: int| 0 <= i < s.len() ==> cs.contains(s[i])
}

// ---------------------------------------------------------------------------
// Lemmas about the model
// ---------------------------------------------------------------------------

proof fn lemma_concat_drop_first<A>(a: Seq<A>, b: Seq<A>)
    requires
        a.len() >= 1,
    ensures
        (a + b).drop_first() == a.drop_first() + b,
{
    assert((a + b).drop_first() =~= a.drop_first() + b);
}

proof fn lemma_prepend_all_drop_first(c: char, ts: Seq<Seq<char>>)
    requires
        ts.len() >= 1,
    ensures
        prepend_all(c, ts).drop_first() == prepend_all(c, ts.drop_first()),
{
    assert(prepend_all(c, ts).drop_first() =~= prepend_all(c, ts.drop_first()));
}

proof fn lemma_render_cons(cs: Seq<char>, ds: Seq<usize>)
    requires
        ds.len() >= 1,
    ensures
        spec_render(cs, ds) == seq![cs[ds[0] as int]] + spec_render(cs, ds.drop_first()),
{
    assert(spec_render(cs, ds) =~= seq![cs[ds[0] as int]] + spec_render(cs, ds.drop_first()));
}

/// The string the odometer stands at heads its own suffix.
proof fn lemma_suffix_first(cs: Seq<char>, ds: Seq<usize>)
    requires
        cs.len() >= 1,
        valid_digits(cs, ds),
    ensures
        suffix_tuples(cs, ds).len() >= 1,
        suffix_tuples(cs, ds)[0] == spec_render(cs, ds),
    decreases ds.len(),
{
    if ds.len() == 0 {
        assert(spec_render(cs, ds) =~= Seq::<char>::empty());
    } else {
        lemma_suffix_first(cs, ds.drop_first());
        let rest = suffix_tuples(cs, ds.drop_first());
        assert(prepend_all(cs[ds[0] as int], rest)[0] == seq![cs[ds[0] as int]] + rest[0]);
        lemma_render_cons(cs, ds);
    }
}

/// When every digit is at its maximum, only the string itself remains.
proof fn lemma_suffix_all_max(cs: Seq<char>, ds: Seq<usize>)
    requires
        cs.len() >= 1,
        forall|i: int| 0 <= i < ds.len() ==> ds[i] as int == cs.len() - 1,
    ensures
        suffix_tuples(cs, ds) == seq![spec_render(cs, ds)],
    decreases ds.len(),
{
    if ds.len() == 0 {
        assert(spec_render(cs, ds) =~= Seq::<char>::empty());
        assert(suffix_tuples(cs, ds) =~= seq![spec_render(cs, ds)]);
    } else {
        lemma_suffix_all_max(cs, ds.drop_first());
        lemma_render_cons(cs, ds);
        assert(tuples_from(cs, ds[0] + 1, (ds.len() - 1) as nat) =~= Seq::<Seq<char>>::empty());
        assert(prepend_all(cs[ds[0] as int], seq![spec_render(cs, ds.drop_first())])
            =~= seq![spec_render(cs, ds)]);
        assert(suffix_tuples(cs, ds) =~= seq![spec_render(cs, ds)]);
    }
}

/// From the all-zero index vector the whole length class remains.
proof fn lemma_suffix_zeros(cs: Seq<char>, l: nat)
    requires
        cs.len() >= 1,
    ensures
        suffix_tuples(cs, zero_digits(l)) == all_tuples(cs, l),
    decreases l,
{
    if l == 0 {
        assert(suffix_tuples(cs, zero_digits(l)) =~= all_tuples(cs, l));
    } else {
        lemma_suffix_zeros(cs, (l - 1) as nat);
        assert(zero_digits(l).drop_first() =~= zero_digits((l - 1) as nat));
        assert(suffix_tuples(cs, zero_digits(l)) =~= all_tuples(cs, l));
    }
}

/// One odometer increment drops exactly the first remaining string: `new_ds`
/// raises the digit at `k` by one and clears everything after it, all of
/// which stood at the maximum.
proof fn lemma_suffix_increment(cs: Seq<char>, old_ds: Seq<usize>, new_ds: Seq<usize>, k: int)
    requires
        cs.len() >= 1,
        valid_digits(cs, old_ds),
        0 <= k < old_ds.len(),
        (old_ds[k] as int) < cs.len() - 1,
        forall|j: int| k < j < old_ds.len() ==> old_ds[j] as int == cs.len() - 1,
        new_ds.len() == old_ds.len(),
        forall|j: int| 0 <= j < k ==> new_ds[j] == old_ds[j],
        new_ds[k] as int == old_ds[k] + 1,
        forall|j: int| k < j < new_ds.len() ==> new_ds[j] == 0,
    ensures
        suffix_tuples(cs, new_ds) == suffix_tuples(cs, old_ds).drop_first(),
    decreases k,
{
    let m = (old_ds.len() - 1) as nat;
    if k == 0 {
        lemma_suffix_all_max(cs, old_ds.drop_first());
        lemma_suffix_zeros(cs, m);
        assert(new_ds.drop_first() =~= zero_digits(m));
        assert(prepend_all(
            cs[old_ds[0] as int],
            seq![spec_render(cs, old_ds.drop_first())],
        ).len() == 1);
        // dropping the single remaining string of the old leading symbol
        // leaves the blocks of the following symbols
        assert(suffix_tuples(cs, old_ds).drop_first() =~= tuples_from(cs, old_ds[0] + 1, m));
        // the new suffix is exactly those blocks, unfolded once
        assert(suffix_tuples(cs, new_ds) == prepend_all(cs[new_ds[0] as int], all_tuples(cs, m))
            + tuples_from(cs, new_ds[0] + 1, m));
        assert(tuples_from(cs, old_ds[0] + 1, m) == prepend_all(
            cs[old_ds[0] + 1],
            all_tuples(cs, m),
        ) + tuples_from(cs, old_ds[0] + 2, m));
    } else {
        lemma_suffix_increment(cs, old_ds.drop_first(), new_ds.drop_first(), k - 1);
        lemma_suffix_first(cs, old_ds.drop_first());
        lemma_prepend_all_drop_first(cs[old_ds[0] as int], suffix_tuples(cs, old_ds.drop_first()));
        lemma_concat_drop_first(
            prepend_all(cs[old_ds[0] as int], suffix_tuples(cs, old_ds.drop_first())),
            tuples_from(cs, old_ds[0] + 1, m),
        );
        assert(new_ds[0] == old_ds[0]);
        assert(suffix_tuples(cs, new_ds) == suffix_tuples(cs, old_ds).drop_first());
    }
}

/// Any string of suitable length over the charset occurs in its length class:
/// helper walking to the block of the leading symbol.
proof fn lemma_tuples_from_complete(cs: Seq<char>, from: int, rest: nat, j: int, t: Seq<char>)
    requires
        0 <= from <= j < cs.len(),
        all_tuples(cs, rest).contains(t),
    ensures
        tuples_from(cs, from, rest).contains(seq![cs[j]] + t),
    decreases j - from,
{
    let block = prepend_all(cs[from], all_tuples(cs, rest));
    if j == from {
        let i = choose|i: int|
            0 <= i < all_tuples(cs, rest).len() && all_tuples(cs, rest)[i] == t;
        assert(block[i] == seq![cs[j]] + t);
        assert(tuples_from(cs, from, rest)[i] == seq![cs[j]] + t);
    } else {
        lemma_tuples_from_complete(cs, from + 1, rest, j, t);
        let tail = tuples_from(cs, from + 1, rest);
        let i = choose|i: int| 0 <= i < tail.len() && tail[i] == seq![cs[j]] + t;
        assert(tuples_from(cs, from, rest)[block.len() + i] == seq![cs[j]] + t);
    }
}

/// Every string over the charset occurs in the class of its own length.
pub proof fn lemma_all_tuples_complete(cs: Seq<char>, s: Seq<char>)
    requires
        cs.len() >= 1,
        chars_in(cs, s),
    ensures
        all_tuples(cs, s.len()).contains(s),
    decreases s.len(),
{
    if s.len() == 0 {
        assert(all_tuples(cs, 0)[0] == s);
    } else {
        assert(chars_in(cs, s.drop_first()));
        lemma_all_tuples_complete(cs, s.drop_first());
        let j = choose|j: int| 0 <= j < cs.len() && cs[j] == s[0];
        lemma_tuples_from_complete(cs, 0, (s.len() - 1) as nat, j, s.drop_first());
        assert(seq![cs[j]] + s.drop_first() =~= s);
    }
}

/// Every string over the charset with a length inside the bounds occurs in
/// the keyspace enumeration.
pub proof fn lemma_length_blocks_complete(cs: Seq<char>, from: int, max: int, s: Seq<char>)
    requires
        cs.len() >= 1,
        chars_in(cs, s),
        0 <= from <= s.len() <= max,
    ensures
        length_blocks(cs, from, max).contains(s),
    decreases max + 1 - from,
{
    let block = all_tuples(cs, from as nat);
    if from == s.len() {
        lemma_all_tuples_complete(cs, s);
        let i = choose|i: int| 0 <= i < block.len() && block[i] == s;
        assert(length_blocks(cs, from, max)[i] == s);
    } else {
        lemma_length_blocks_complete(cs, from + 1, max, s);
        let tail = length_blocks(cs, from + 1, max);
        let i = choose|i: int| 0 <= i < tail.len() && tail[i] == s;
        assert(length_blocks(cs, from, max)[block.len() + i] == s);
    }
}

/// Every string in a length class block is a string over the charset of the
/// block's length.
proof fn lemma_tuples_from_sound(cs: Seq<char>, from: int, rest: nat, k: int)
    requires
        0 <= from,
        0 <= k < tuples_from(cs, from, rest).len(),
    ensures
        tuples_from(cs, from, rest)[k].len() == 1 + rest,
        chars_in(cs, tuples_from(cs, from, rest)[k]),
    decreases rest, 1int, cs.len() - from,
{
    let block = prepend_all(cs[from], all_tuples(cs, rest));
    if k < block.len() {
        lemma_all_tuples_sound(cs, rest, k);
        assert(cs.contains(cs[from]));
        assert(tuples_from(cs, from, rest)[k] == seq![cs[from]] + all_tuples(cs, rest)[k]);
        assert forall|i: int| 0 <= i < tuples_from(cs, from, rest)[k].len() implies cs.contains(
            #[trigger] tuples_from(cs, from, rest)[k][i],
        ) by {
            if i > 0 {
                assert(tuples_from(cs, from, rest)[k][i] == all_tuples(cs, rest)[k][i - 1]);
            }
        }
    } else {
        lemma_tuples_from_sound(cs, from + 1, rest, k - block.len());
        assert(tuples_from(cs, from, rest)[k] == tuples_from(cs, from + 1, rest)[k - block.len()]);
    }
}

/// Every string in a length class has that length, over the charset.
pub proof fn lemma_all_tuples_sound(cs: Seq<char>, len: nat, k: int)
    requires
        0 <= k < all_tuples(cs, len).len(),
    ensures
        all_tuples(cs, len)[k].len() == len,
        chars_in(cs, all_tuples(cs, len)[k]),
    decreases len, 0int, 0int,
{
    if len == 0 {
        assert(all_tuples(cs, len)[0] == Seq::<char>::empty());
    } else {
        lemma_tuples_from_sound(cs, 0, (len - 1) as nat, k);
    }
}

/// Every enumerated candidate lies in the keyspace: its length is inside the
/// bounds and its characters come from the charset.
pub proof fn lemma_length_blocks_sound(cs: Seq<char>, from: int, max: int, k: int)
    requires
        0 <= from,
        0 <= k < length_blocks(cs, from, max).len(),
    ensures
        from <= length_blocks(cs, from, max)[k].len() <= max,
        chars_in(cs, length_blocks(cs, from, max)[k]),
    decreases max + 1 - from,
{
    let block = all_tuples(cs, from as nat);
    if k < block.len() {
        lemma_all_tuples_sound(cs, from as nat, k);
        assert(length_blocks(cs, from, max)[k] == block[k]);
    } else {
        lemma_length_blocks_sound(cs, from + 1, max, k - block.len());
        assert(length_blocks(cs, from, max)[k] == length_blocks(cs, from + 1, max)[k
            - block.len()]);
    }
}

/// The block of one leading symbol holds one string for every shorter tuple.
proof fn lemma_tuples_from_len(cs: Seq<char>, from: int, rest: nat)
    requires
        0 <= from <= cs.len(),
    ensures
        tuples_from(cs, from, rest).len() == (cs.len() - from) * all_tuples(cs, rest).len(),
    decreases cs.len() - from,
{
    let a = all_tuples(cs, rest).len() as int;
    let n = cs.len() - from;
    if from == cs.len() {
        assert(0int * a == 0) by (nonlinear_arith);
    } else {
        lemma_tuples_from_len(cs, from + 1, rest);
        assert(n * a == a + (n - 1) * a) by (nonlinear_arith);
    }
}

/// A length class holds exactly `clen ^ len` strings.
pub proof fn lemma_all_tuples_len(cs: Seq<char>, len: nat)
    ensures
        all_tuples(cs, len).len() == pow(cs.len() as int, len),
    decreases len,
{
    reveal(pow);
    if len == 0 {
    } else {
        lemma_all_tuples_len(cs, (len - 1) as nat);
        lemma_tuples_from_len(cs, 0, (len - 1) as nat);
    }
}

/// Law: for a generator that enumerates at least one length, the exact
/// combination count equals the length of the keyspace enumeration.
pub proof fn lemma_total_counts_keyspace(g: BruteForceGenerator)
    requires
        g.wf(),
        1 <= g.min_length,
    ensures
        g.full_seq().len() == spec_total_combinations(
            g.charset@.len() as nat,
            g.min_length as int,
            g.max_length as int,
        ),
{
    lemma_length_blocks_len(g.charset@, g.min_length as int, g.max_length as int);
}

/// The keyspace enumeration is exactly as long as the combination count.
pub proof fn lemma_length_blocks_len(cs: Seq<char>, from: int, max: int)
    ensures
        length_blocks(cs, from, max).len() == spec_total_combinations(cs.len() as nat, from, max),
    decreases max + 1 - from,
{
    if from < 0 || from > max {
    } else {
        lemma_all_tuples_len(cs, from as nat);
        lemma_length_blocks_len(cs, from + 1, max);
    }
}

// ---------------------------------------------------------------------------
// The generator
// ---------------------------------------------------------------------------

/// Odometer-style enumerator of all strings over a charset, shortest first.
pub struct BruteForceGenerator {
    pub charset: Vec<char>,
    pub current_length: usize,
    pub min_length: usize,
    pub max_length: usize,
    pub current_indices: Vec<usize>,
    pub exhausted: bool,
}

impl BruteForceGenerator {
    /// Internal consistency of the odometer state.
    pub open spec fn wf(self) -> bool {
        &&& 1 <= self.charset@.len()
        &&& self.min_length <= self.max_length <= 20
        &&& (!self.exhausted ==> {
            &&& self.min_length <= self.current_length <= self.max_length
            &&& self.current_indices@.len() == self.current_length
            &&& valid_digits(self.charset@, self.current_indices@)
        })
    }

    /// The candidates this generator will still emit, in order.
    pub open spec fn pending(self) -> Seq<Seq<char>> {
        if self.exhausted || self.current_length == 0 {
            Seq::empty()
        } else {
            suffix_tuples(self.charset@, self.current_indices@) + length_blocks(
                self.charset@,
                self.current_length + 1,
                self.max_length as int,
            )
        }
    }

    /// The whole keyspace, as emitted from a fresh or freshly reset state.
    /// A zero minimum length makes the enumeration stop at once.
    pub open spec fn full_seq(self) -> Seq<Seq<char>> {
        if self.min_length == 0 {
            Seq::empty()
        } else {
            length_blocks(self.charset@, self.min_length as int, self.max_length as int)
        }
    }

    /// Build a generator over the symbols of `charset`, enumerating lengths
    /// `min_length` through `max_length`. The charset must be non-empty, the
    /// bounds ordered, and the maximum at most 20.
    pub fn new(charset: String, min_length: usize, max_length: usize) -> (r: Result<
        BruteForceGenerator,
        CrackError,
    >)
        ensures
            r is Ok <==> charset@.len() >= 1 && min_length <= max_length && max_length <= 20,
            charset@.len() == 0 ==> r == Err::<BruteForceGenerator, CrackError>(
                CrackError::EmptyCharset,
            ),
            charset@.len() >= 1 && min_length > max_length ==> r == Err::<
                BruteForceGenerator,
                CrackError,
            >(CrackError::MinLengthExceedsMax),
            charset@.len() >= 1 && min_length <= max_length && max_length > 20 ==> r == Err::<
                BruteForceGenerator,
                CrackError,
            >(CrackError::MaxLengthTooLarge),
            r matches Ok(g) ==> {
                &&& g.wf()
                &&& g.charset@ == charset@
                &&& g.min_length == min_length
                &&& g.max_length == max_length
                &&& !g.exhausted
                &&& g.pending() == g.full_seq()
            },
    {
        if charset.as_str().is_empty() {
            return Err(CrackError::EmptyCharset);
        }
        if min_length > max_length {
            return Err(CrackError::MinLengthExceedsMax);
        }
        if max_length > 20 {
            return Err(CrackError::MaxLengthTooLarge);
        }
        let cs = string_to_chars(&charset);
        let indices = zero_index_vec(min_length);
        let g = BruteForceGenerator {
            charset: cs,
            current_length: min_length,
            min_length,
            max_length,
            current_indices: indices,
            exhausted: false,
        };
        proof {
            if min_length > 0 {
                lemma_suffix_zeros(g.charset@, min_length as nat);
                assert(g.pending() =~= g.full_seq());
            }
        }
        Ok(g)
    }

    /// Advance the odometer by one: clear trailing maxed digits and raise the
    /// first digit below the maximum; report failure when every digit was
    /// already at the maximum, leaving the vector all zero.
    fn increment_indices(&mut self) -> (r: bool)
        requires
            old(self).wf(),
            !old(self).exhausted,
            old(self).current_length >= 1,
        ensures
            final(self).charset == old(self).charset,
            final(self).current_length == old(self).current_length,
            final(self).min_length == old(self).min_length,
            final(self).max_length == old(self).max_length,
            final(self).exhausted == old(self).exhausted,
            final(self).current_indices@.len() == old(self).current_indices@.len(),
            valid_digits(final(self).charset@, final(self).current_indices@),
            r ==> suffix_tuples(final(self).charset@, final(self).current_indices@)
                == suffix_tuples(old(self).charset@, old(self).current_indices@).drop_first(),
            !r ==> final(self).current_indices@ == zero_digits(
                old(self).current_indices@.len() as nat,
            ) && suffix_tuples(old(self).charset@, old(self).current_indices@) == seq![
                spec_render(old(self).charset@, old(self).current_indices@),
            ],
    {
        let ghost old_ds = old(self).current_indices@;
        let charset_len = self.charset.len();
        let mut i: usize = self.current_length;
        proof {
            assert(self.current_indices@ =~= old_ds.take(i as int) + zero_digits(
                (old_ds.len() - i) as nat,
            ));
        }
        while i > 0
            invariant
                i <= self.current_length,
                self.charset == old(self).charset,
                self.current_length == old(self).current_length,
                self.min_length == old(self).min_length,
                self.max_length == old(self).max_length,
                self.exhausted == old(self).exhausted,
                charset_len == self.charset@.len(),
                old(self).wf(),
                !old(self).exhausted,
                old(self).current_length >= 1,
                old_ds == old(self).current_indices@,
                old_ds.len() == self.current_length,
                self.current_indices@ == old_ds.take(i as int) + zero_digits(
                    (old_ds.len() - i) as nat,
                ),
                forall|j: int| i <= j < old_ds.len() ==> old_ds[j] as int == charset_len - 1,
            decreases i,
        {
            let idx = i - 1;
            let d = self.current_indices[idx];
            if d < charset_len - 1 {
                let ghost pre = self.current_indices@;
                self.current_indices[idx] = d + 1;
                proof {
                    assert(d == old_ds[idx as int]);
                    assert(self.current_indices@ == pre.update(idx as int, (d + 1) as usize));
                    assert forall|j: int| idx < j < self.current_indices@.len() implies self
                        .current_indices@[j] == 0 by {
                        assert(pre[j] == 0);
                    }
                    assert forall|j: int| 0 <= j < idx implies self.current_indices@[j]
                        == old_ds[j] by {
                        assert(pre[j] == old_ds[j]);
                    }
                    assert(valid_digits(self.charset@, self.current_indices@));
                    lemma_suffix_increment(
                        self.charset@,
                        old_ds,
                        self.current_indices@,
                        idx as int,
                    );
                }
                return true;
            } else {
                let ghost pre = self.current_indices@;
                self.current_indices[idx] = 0;
                proof {
                    assert(self.current_indices@ =~= old_ds.take(idx as int) + zero_digits(
                        (old_ds.len() - idx) as nat,
                    ));
                    assert(old_ds[idx as int] as int == charset_len - 1);
                }
            }
            i = idx;
        }
        proof {
            assert(self.current_indices@ =~= zero_digits(old_ds.len() as nat));
            lemma_suffix_all_max(self.charset@, old_ds);
        }
        false
    }

    /// Render the string the odometer currently stands at.
    fn indices_to_string(&self) -> (r: String)
        requires
            self.wf(),
            valid_digits(self.charset@, self.current_indices@),
        ensures
            r@ == spec_render(self.charset@, self.current_indices@),
    {
        let mut s = String::new();
        let mut i: usize = 0;
        while i < self.current_indices.len()
            invariant
                self.wf(),
                valid_digits(self.charset@, self.current_indices@),
                i <= self.current_indices@.len(),
                s@ == spec_render(self.charset@, self.current_indices@.take(i as int)),
            decreases self.current_indices@.len() - i,
        {
            let c = self.charset[self.current_indices[i]];
            push_char(&mut s, c);
            proof {
                assert(spec_render(self.charset@, self.current_indices@.take(i + 1))
                    =~= spec_render(self.charset@, self.current_indices@.take(i as int)).push(c));
            }
            i = i + 1;
        }
        proof {
            assert(self.current_indices@.take(self.current_indices@.len() as int)
                =~= self.current_indices@);
        }
        s
    }

    /// Emit the current candidate and advance; `None` once the keyspace is
    /// exhausted, permanently until a reset.
    pub(crate) fn step(&mut self) -> (r: Option<String>)
        requires
            old(self).wf(),
        ensures
            final(self).wf(),
            final(self).charset == old(self).charset,
            final(self).min_length == old(self).min_length,
            final(self).max_length == old(self).max_length,
            old(self).pending().len() == 0 ==> r is None && final(self).pending()
                == Seq::<Seq<char>>::empty(),
            old(self).pending().len() > 0 ==> {
                &&& r is Some
                &&& (r matches Some(s) ==> s@ == old(self).pending()[0])
                &&& final(self).pending() == old(self).pending().drop_first()
            },
    {
        if self.exhausted {
            return None;
        }
        if self.current_length == 0 {
            self.exhausted = true;
            return None;
        }
        proof {
            lemma_suffix_first(self.charset@, self.current_indices@);
        }
        let password = self.indices_to_string();
        let ghost old_suffix = suffix_tuples(self.charset@, self.current_indices@);
        let ghost old_pending = self.pending();
        if !self.increment_indices() {
            self.current_length = self.current_length + 1;
            if self.current_length > self.max_length {
                self.exhausted = true;
                proof {
                    assert(old_pending.drop_first() =~= Seq::<Seq<char>>::empty());
                }
            } else {
                let indices = zero_index_vec(self.current_length);
                self.current_indices = indices;
                proof {
                    lemma_suffix_zeros(self.charset@, self.current_length as nat);
                    assert(old_pending.drop_first() =~= self.pending());
                }
            }
        } else {
            proof {
                lemma_concat_drop_first(
                    old_suffix,
                    length_blocks(
                        self.charset@,
                        self.current_length + 1,
                        self.max_length as int,
                    ),
                );
            }
        }
        Some(password)
    }

    /// Rewind to the first candidate of the minimum length.
    pub(crate) fn rewind(&mut self)
        requires
            old(self).wf(),
        ensures
            final(self).wf(),
            final(self).charset == old(self).charset,
            final(self).min_length == old(self).min_length,
            final(self).max_length == old(self).max_length,
            final(self).pending() == final(self).full_seq(),
    {
        self.current_length = self.min_length;
        let indices = zero_index_vec(self.min_length);
        self.current_indices = indices;
        self.exhausted = false;
        proof {
            if self.min_length > 0 {
                lemma_suffix_zeros(self.charset@, self.min_length as nat);
                assert(self.pending() =~= self.full_seq());
            }
        }
    }

    /// The exact keyspace size, or `None` when it does not fit in 64 bits;
    /// the count is never silently truncated.
    pub(crate) fn count_combinations(&self) -> (r: Option<u64>)
        requires
            self.wf(),
        ensures
            r matches Some(t) ==> t == spec_total_combinations(
                self.charset@.len() as nat,
                self.min_length as int,
                self.max_length as int,
            ),
            r is None <==> spec_total_combinations(
                self.charset@.len() as nat,
                self.min_length as int,
                self.max_length as int,
            ) > u64::MAX,
    {
        let charset_len = self.charset.len() as u64;
        let mut total: u64 = 0;
        let mut length = self.min_length;
        let ghost clen = self.charset@.len() as nat;
        let ghost min = self.min_length as int;
        let ghost max = self.max_length as int;
        while length <= self.max_length
            invariant
                self.wf(),
                min <= length as int <= max + 1,
                charset_len == clen,
                clen == self.charset@.len() as nat,
                clen >= 1,
                min == self.min_length as int,
                max == self.max_length as int,
                total == spec_total_combinations(clen, min, length - 1),
                spec_total_combinations(clen, min, length - 1) <= u64::MAX,
            decreases max + 1 - length,
        {
            let combinations = match checked_pow_u64(charset_len, length) {
                Some(c) => c,
                None => {
                    proof {
                        lemma_total_lower_bound(clen, min, length as int, max);
                        assert(pow(clen as int, (length as int) as nat) > u64::MAX);
                        assert(spec_total_combinations(clen, min, length - 1) >= 0);
                        assert(spec_total_combinations(
                            self.charset@.len() as nat,
                            self.min_length as int,
                            self.max_length as int,
                        ) > u64::MAX);
                    }
                    return None;
                },
            };
            let new_total = match total.checked_add(combinations) {
                Some(t) => t,
                None => {
                    proof {
                        lemma_total_lower_bound(clen, min, length as int, max);
                        assert(total + combinations > u64::MAX);
                        assert(combinations == pow(clen as int, (length as int) as nat));
                        assert(spec_total_combinations(
                            self.charset@.len() as nat,
                            self.min_length as int,
                            self.max_length as int,
                        ) > u64::MAX);
                    }
                    return None;
                },
            };
            proof {
                lemma_total_snoc(clen, min, length as int);
            }
            total = new_total;
            length = length + 1;
        }
        Some(total)
    }
}

/// The combination count over a length range is at least the count of any
/// single length inside it plus the count of the lengths before it.
proof fn lemma_total_split(clen: nat, min: int, mid: int, max: int)
    requires
        0 <= min <= mid,
    ensures
        mid <= max + 1 ==> spec_total_combinations(clen, min, max) == spec_total_combinations(
            clen,
            min,
            mid - 1,
        ) + spec_total_combinations(clen, mid, max),
    decreases mid - min,
{
    if min < mid {
        lemma_total_split(clen, min + 1, mid, max);
    }
}

/// Counts of combination sums are non-negative, and any single in-range
/// length's count bounds the whole sum from below.
proof fn lemma_total_nonneg(clen: nat, min: int, max: int)
    requires
        clen >= 1,
    ensures
        spec_total_combinations(clen, min, max) >= 0,
    decreases max + 1 - min,
{
    if min >= 0 && min <= max {
        lemma_pow_positive(clen as int, min as nat);
        lemma_total_nonneg(clen, min + 1, max);
    }
}

/// The whole sum dominates the term of any single length inside the range.
proof fn lemma_total_lower_bound(clen: nat, min: int, mid: int, max: int)
    requires
        clen >= 1,
        0 <= min <= mid <= max,
    ensures
        spec_total_combinations(clen, min, max) >= pow(clen as int, mid as nat)
            + spec_total_combinations(clen, min, mid - 1),
    decreases max - mid,
{
    lemma_total_split(clen, min, mid, max);
    lemma_total_split(clen, mid, mid + 1, max);
    lemma_total_nonneg(clen, mid + 1, max);
}

/// Extending a combination sum by one more length appends one power term.
proof fn lemma_total_snoc(clen: nat, min: int, mid: int)
    requires
        0 <= min <= mid,
    ensures
        spec_total_combinations(clen, min, mid) == spec_total_combinations(clen, min, mid - 1)
            + pow(clen as int, mid as nat),
    decreases mid - min,
{
    if min < mid {
        lemma_total_snoc(clen, min + 1, mid);
    } else {
        reveal_with_fuel(spec_total_combinations, 3);
    }
}

/// `base ^ exp` with overflow detection, by repeated checked multiplication.
fn checked_pow_u64(base: u64, exp: usize) -> (r: Option<u64>)
    requires
        base >= 1,
    ensures
        r matches Some(p) ==> p == pow(base as int, exp as nat) && pow(base as int, exp as nat)
            <= u64::MAX,
        r is None ==> pow(base as int, exp as nat) > u64::MAX,
{
    proof {
        reveal(pow);
    }
    let mut p: u64 = 1;
    let mut k: usize = 0;
    while k < exp
        invariant
            base >= 1,
            k <= exp,
            p == pow(base as int, k as nat),
            p >= 1,
        decreases exp - k,
    {
        p = match p.checked_mul(base) {
            Some(next) => next,
            None => {
                proof {
                    lemma_pow_positive(base as int, k as nat);
                    lemma_pow_adds(base as int, k as nat, 1);
                    lemma_pow1(base as int);
                    assert(pow(base as int, (k + 1) as nat) == pow(base as int, k as nat) * (
                    base as int));
                    if ((k + 1) as nat) < (exp as nat) {
                        lemma_pow_strictly_increases_or_eq(base as nat, (k + 1) as nat, exp as nat);
                    }
                }
                return None;
            },
        };
        proof {
            lemma_pow_adds(base as int, k as nat, 1);
            lemma_pow1(base as int);
            assert(pow(base as int, (k + 1) as nat) == pow(base as int, k as nat) * (base as int));
            lemma_pow_positive(base as int, (k + 1) as nat);
        }
        k = k + 1;
    }
    Some(p)
}

/// Powers of a positive base never shrink as the exponent grows.
proof fn lemma_pow_strictly_increases_or_eq(b: nat, e1: nat, e2: nat)
    requires
        b >= 1,
        e1 <= e2,
    ensures
        pow(b as int, e1) <= pow(b as int, e2),
    decreases e2 - e1,
{
    if e1 < e2 {
        lemma_pow_strictly_increases_or_eq(b, e1, (e2 - 1) as nat);
        lemma_pow_positive(b as int, (e2 - 1) as nat);
        lemma_pow_adds(b as int, (e2 - 1) as nat, 1);
        lemma_pow1(b as int);
        assert(pow(b as int, e2) == pow(b as int, (e2 - 1) as nat) * (b as int));
        assert((b as int) * pow(b as int, (e2 - 1) as nat) >= pow(b as int, (e2 - 1) as nat)) by (
        nonlinear_arith)
            requires
                b >= 1,
                pow(b as int, (e2 - 1) as nat) >= 1,
        ;
    }
}

/// Collect the characters of a string into a vector.
fn string_to_chars(s: &String) -> (r: Vec<char>)
    ensures
        r@ == s@,
{
    let mut v: Vec<char> = Vec::new();
    let n = s.as_str().unicode_len();
    let mut i: usize = 0;
    while i < n
        invariant
            n == s@.len(),
            i <= n,
            v@ == s@.take(i as int),
        decreases n - i,
    {
        let c = s.as_str().get_char(i);
        v.push(c);
        proof {
            assert(s@.take(i + 1) =~= s@.take(i as int).push(c));
        }
        i = i + 1;
    }
    proof {
        assert(s@.take(n as int) =~= s@);
    }
    v
}

/// A vector of `len` zero digits.
fn zero_index_vec(len: usize) -> (r: Vec<usize>)
    ensures
        r@ == zero_digits(len as nat),
{
    let mut v: Vec<usize> = Vec::new();
    let mut i: usize = 0;
    while i < len
        invariant
            i <= len,
            v@ =~= zero_digits(i as nat),
        decreases len - i,
    {
        v.push(0);
        proof {
            assert(v@ =~= zero_digits((i + 1) as nat));
        }
        i = i + 1;
    }
    proof {
        assert(v@ =~= zero_digits(len as nat));
    }
    v
}

} // verus!
