use vstd::prelude::*;
use vstd::string::StrSliceExecFns;
use crate::formats::DocumentCracker;
use crate::generator::PasswordGenerator;
use crate::generator::brute_force::BruteForceGenerator;
use crate::generator::brute_force;

verus! {

/// Candidates handed from the generator to the workers in one unit.
pub const BASE_BATCH_SIZE: usize = 500;

/// Shared search bookkeeping: a monotonic attempts counter and a set-once
/// found-password slot. Once a password is recorded, later successes can
/// never overwrite it: the first success wins.
pub struct SearchState {
    pub attempts: u64,
    pub found_password: Option<String>,
}

impl SearchState {
    /// Whether a password has been found.
    pub open spec fn found(self) -> bool {
        self.found_password is Some
    }

    /// Fresh state: nothing tried, nothing found.
    pub fn new() -> (r: SearchState)
        ensures
            r.attempts == 0,
            r.found_password is None,
    {
        SearchState { attempts: 0, found_password: None }
    }

    /// Count one verification attempt.
    pub fn record_attempt(&mut self)
        requires
            old(self).attempts < u64::MAX,
        ensures
            final(self).attempts == old(self).attempts + 1,
            final(self).found_password == old(self).found_password,
    {
        self.attempts = self.attempts + 1;
    }

    /// Record a success: the password is stored exactly once, and a slot
    /// already holding one is never overwritten.
    pub fn record_success(&mut self, password: String)
        ensures
            final(self).attempts == old(self).attempts,
            final(self).found(),
            old(self).found() ==> final(self).found_password == old(self).found_password,
            !old(self).found() ==> final(self).found_password == Some(password),
    {
        if self.found_password.is_none() {
            self.found_password = Some(password);
        }
    }
}

/// What a completed run reports: the found password, if any, and how many
/// candidates were tried.
pub struct SearchOutcome {
    pub password: Option<String>,
    pub attempts: u64,
}

/// The view of an optional password.
pub open spec fn spec_password_view(password: Option<String>) -> Option<Seq<char>> {
    match password {
        Option::Some(pw) => Option::Some(pw@),
        Option::None => Option::None,
    }
}

/// What a completed search over candidate sequence `p` reports: a found
/// password is the first candidate the target accepts, counted attempts
/// include it and everything before it; no password means every candidate
/// was tried and none was accepted.
pub open spec fn spec_search_outcome<T: DocumentCracker>(
    p: Seq<Seq<char>>,
    target: T,
    password: Option<Seq<char>>,
    attempts: u64,
) -> bool {
    match password {
        Option::Some(pw) => {
            &&& 1 <= attempts <= p.len()
            &&& pw == p[attempts - 1]
            &&& target.accepts(pw)
            &&& forall|k: int| 0 <= k < attempts - 1 ==> !target.accepts(p[k])
        },
        Option::None => {
            &&& attempts == p.len()
            &&& forall|k: int| 0 <= k < p.len() ==> !target.accepts(p[k])
        },
    }
}

/// Pull up to `batch_size` candidates from the generator, in order. A batch
/// shorter than requested means the generator is exhausted.
pub fn fill_batch<G: PasswordGenerator>(generator: &mut G, batch_size: usize) -> (batch: Vec<
    String,
>)
    requires
        old(generator).wf(),
    ensures
        final(generator).wf(),
        final(generator).full_seq() == old(generator).full_seq(),
        final(generator).total_count() == old(generator).total_count(),
        batch@.len() <= batch_size,
        batch@.len() <= old(generator).pending().len(),
        batch.deep_view() == old(generator).pending().take(batch@.len() as int),
        final(generator).pending() == old(generator).pending().skip(batch@.len() as int),
        batch@.len() < batch_size ==> final(generator).pending().len() == 0,
{
    let mut batch: Vec<String> = Vec::new();
    let mut n: usize = 0;
    while n < batch_size
        invariant
            generator.wf(),
            generator.full_seq() == old(generator).full_seq(),
            generator.total_count() == old(generator).total_count(),
            n == batch@.len(),
            n <= batch_size,
            n <= old(generator).pending().len(),
            batch.deep_view() == old(generator).pending().take(n as int),
            generator.pending() == old(generator).pending().skip(n as int),
        decreases batch_size - n,
    {
        let ghost p = old(generator).pending();
        match generator.next() {
            Some(pw) => {
                proof {
                    assert(p.skip(n as int)[0] == p[n as int]);
                    assert(p.skip(n as int).drop_first() =~= p.skip(n + 1));
                }
                let ghost pushed = pw@;
                batch.push(pw);
                proof {
                    assert(batch.deep_view() =~= p.take(n as int).push(pushed));
                    assert(p.take(n + 1) =~= p.take(n as int).push(p[n as int]));
                }
            },
            None => {
                proof {
                    assert(p.skip(n as int).len() == 0);
                }
                return batch;
            },
        }
        n = n + 1;
    }
    batch
}

/// Relies on `num_cpus::get`: it reports at least one logical CPU.
#[verifier::external_body]
fn logical_cpu_count() -> (n: usize)
    ensures
        n >= 1,
{
    num_cpus::get()
}

/// Relies on `num_cpus::get_physical`: it reports at least one physical core.
#[verifier::external_body]
fn physical_cpu_count() -> (n: usize)
    ensures
        n >= 1,
{
    num_cpus::get_physical()
}

/// Whether two strings hold the same characters.
fn str_eq(a: &str, b: &str) -> (r: bool)
    ensures
        r == (a@ == b@),
{
    let n = a.unicode_len();
    let m = b.unicode_len();
    if n != m {
        proof {
            assert(a@ != b@);
        }
        return false;
    }
    let mut i: usize = 0;
    while i < n
        invariant
            n == a@.len(),
            n == b@.len(),
            i <= n,
            forall|k: int| 0 <= k < i ==> a@[k] == b@[k],
        decreases n - i,
    {
        if a.get_char(i) != b.get_char(i) {
            return false;
        }
        i = i + 1;
    }
    proof {
        assert(a@ =~= b@);
    }
    true
}

/// Whether a performance mode names the balanced policy; anything else,
/// including no mode at all, selects the aggressive default.
pub open spec fn spec_balanced_mode(performance_mode: Option<&str>) -> bool {
    match performance_mode {
        Option::Some(m) => m@ == "balanced"@,
        Option::None => false,
    }
}

/// Pick the worker count: an explicit request wins; otherwise the balanced
/// mode leaves one physical core to the system (at least one worker), and
/// the aggressive default takes every logical core.
pub fn resolve_thread_count(
    requested: Option<usize>,
    performance_mode: Option<&str>,
    logical: usize,
    physical: usize,
) -> (r: usize)
    requires
        logical >= 1,
        physical >= 1,
    ensures
        requested matches Some(n) ==> r == n,
        requested is None && spec_balanced_mode(performance_mode) ==> r == (if physical - 1 >= 1 {
            (physical - 1) as int
        } else {
            1int
        }),
        requested is None && !spec_balanced_mode(performance_mode) ==> r == logical,
{
    match requested {
        Some(n) => n,
        None => {
            let balanced = match performance_mode {
                Some(m) => str_eq(m, "balanced"),
                None => false,
            };
            if balanced {
                if physical - 1 >= 1 {
                    physical - 1
                } else {
                    1
                }
            } else {
                logical
            }
        },
    }
}

/// The search engine: a verification target, a candidate generator, and the
/// shared search state, probing candidates in generator order in batches of
/// `BASE_BATCH_SIZE` until a candidate is accepted or the keyspace runs out.
pub struct CrackerEngine<T: DocumentCracker, G: PasswordGenerator> {
    pub document: T,
    pub generator: G,
    pub thread_count: usize,
    pub state: SearchState,
}

impl<T: DocumentCracker, G: PasswordGenerator> CrackerEngine<T, G> {
    /// Assemble an engine. The worker count comes from the explicit request
    /// if any, otherwise from the hardware: all logical cores by default,
    /// physical cores minus one (at least one) in balanced mode.
    pub fn new(
        document: T,
        generator: G,
        thread_count: Option<usize>,
        performance_mode: Option<&str>,
    ) -> (r: CrackerEngine<T, G>)
        ensures
            r.document == document,
            r.generator == generator,
            r.state.attempts == 0,
            r.state.found_password is None,
            thread_count matches Some(n) ==> r.thread_count == n,
            thread_count is None ==> r.thread_count >= 1,
    {
        let logical = logical_cpu_count();
        let physical = physical_cpu_count();
        let resolved = resolve_thread_count(thread_count, performance_mode, logical, physical);
        CrackerEngine { document, generator, thread_count: resolved, state: SearchState::new() }
    }

    /// Run the search to completion: pull candidates in batches, count one
    /// attempt per candidate, and stop at the first accepted candidate or
    /// when the keyspace is exhausted. The outcome reports the first
    /// accepted candidate in generator order, or that every candidate was
    /// tried and rejected.
    pub fn crack(&mut self) -> (r: SearchOutcome)
        requires
            old(self).generator.wf(),
            old(self).state.attempts == 0,
            old(self).state.found_password is None,
            old(self).generator.pending().len() <= u64::MAX,
        ensures
            final(self).generator.wf(),
            final(self).document == old(self).document,
            final(self).state.attempts == r.attempts,
            final(self).state.found_password == r.password,
            spec_search_outcome(
                old(self).generator.pending(),
                old(self).document,
                spec_password_view(r.password),
                r.attempts,
            ),
    {
        let ghost p = old(self).generator.pending();
        let mut exhausted = false;
        while !exhausted
            invariant
                self.generator.wf(),
                self.document == old(self).document,
                self.state.found_password is None,
                p == old(self).generator.pending(),
                p.len() <= u64::MAX,
                self.state.attempts <= p.len(),
                self.generator.pending() == p.skip(self.state.attempts as int),
                forall|k: int|
                    0 <= k < self.state.attempts ==> !old(self).document.accepts(p[k]),
                exhausted ==> self.generator.pending().len() == 0,
            decreases p.len() - self.state.attempts + (if exhausted {
                0int
            } else {
                1int
            }),
        {
            let ghost done0 = self.state.attempts as int;
            let batch = fill_batch(&mut self.generator, BASE_BATCH_SIZE);
            if batch.len() == 0 {
                proof {
                    assert(p.skip(done0).take(0) =~= Seq::<Seq<char>>::empty());
                }
                exhausted = true;
            } else {
                let ghost blen = batch@.len() as int;
                let mut m: usize = 0;
                while m < batch.len()
                    invariant
                        self.generator.wf(),
                        self.document == old(self).document,
                        self.state.found_password is None,
                        p == old(self).generator.pending(),
                        p.len() <= u64::MAX,
                        blen == batch@.len(),
                        0 <= done0,
                        done0 + blen <= p.len(),
                        m <= batch@.len(),
                        self.state.attempts == done0 + m,
                        batch.deep_view() == p.skip(done0).take(blen),
                        self.generator.pending() == p.skip(done0 + blen),
                        forall|k: int|
                            0 <= k < self.state.attempts ==> !old(self).document.accepts(p[k]),
                    decreases batch@.len() - m,
                {
                    proof {
                        assert(batch.deep_view()[m as int] == p.skip(done0)[m as int]);
                        assert(p.skip(done0)[m as int] == p[done0 + m]);
                    }
                    self.state.record_attempt();
                    let verdict = self.document.verify_password(batch[m].as_str());
                    let hit = match verdict {
                        Ok(true) => true,
                        _ => false,
                    };
                    if hit {
                        let pw = batch[m].clone();
                        proof {
                            assert(batch@[m as int]@ == batch.deep_view()[m as int]);
                            assert(old(self).document.accepts(p[done0 + m]));
                        }
                        self.state.record_success(pw);
                        let found = match &self.state.found_password {
                            Some(s) => Some(s.clone()),
                            None => None,
                        };
                        return SearchOutcome { password: found, attempts: self.state.attempts };
                    }
                    proof {
                        assert(batch@[m as int]@ == batch.deep_view()[m as int]);
                        assert(!old(self).document.accepts(p[done0 + m]));
                    }
                    m = m + 1;
                }
            }
        }
        proof {
            assert(p.skip(self.state.attempts as int).len() == 0);
            assert(self.state.attempts == p.len());
        }
        SearchOutcome { password: None, attempts: self.state.attempts }
    }
}

/// Law: a brute-force search that runs to completion over a keyspace
/// covering some accepted password cannot come back empty-handed — it
/// reports an accepted password, and its attempts never exceed the exact
/// combination count.
pub proof fn lemma_bruteforce_search_success<T: DocumentCracker>(
    g: BruteForceGenerator,
    target: T,
    password: Option<Seq<char>>,
    attempts: u64,
    witness: Seq<char>,
)
    requires
        g.wf(),
        1 <= g.min_length,
        g.pending() == g.full_seq(),
        spec_search_outcome(g.pending(), target, password, attempts),
        brute_force::chars_in(g.charset@, witness),
        g.min_length <= witness.len() <= g.max_length,
        target.accepts(witness),
    ensures
        password is Some,
        password matches Some(pw) ==> target.accepts(pw),
        attempts <= brute_force::spec_total_combinations(
            g.charset@.len() as nat,
            g.min_length as int,
            g.max_length as int,
        ),
{
    let p = g.pending();
    brute_force::lemma_length_blocks_complete(
        g.charset@,
        g.min_length as int,
        g.max_length as int,
        witness,
    );
    brute_force::lemma_length_blocks_len(g.charset@, g.min_length as int, g.max_length as int);
    if password is None {
        let k = choose|k: int| 0 <= k < p.len() && p[k] == witness;
        assert(!target.accepts(p[k]));
        assert(false);
    }
}

/// Law: a brute-force search over a keyspace in which no candidate is
/// accepted ends with no password found, after exactly total-combinations
/// many attempts.
pub proof fn lemma_bruteforce_search_exhaustion<T: DocumentCracker>(
    g: BruteForceGenerator,
    target: T,
    password: Option<Seq<char>>,
    attempts: u64,
)
    requires
        g.wf(),
        1 <= g.min_length,
        g.pending() == g.full_seq(),
        spec_search_outcome(g.pending(), target, password, attempts),
        forall|t: Seq<char>|
            brute_force::chars_in(g.charset@, t) && g.min_length <= t.len() <= g.max_length
                ==> !(#[trigger] target.accepts(t)),
    ensures
        password is None,
        attempts == brute_force::spec_total_combinations(
            g.charset@.len() as nat,
            g.min_length as int,
            g.max_length as int,
        ),
{
    let p = g.pending();
    brute_force::lemma_length_blocks_len(g.charset@, g.min_length as int, g.max_length as int);
    if password matches Some(pw) {
        brute_force::lemma_length_blocks_sound(
            g.charset@,
            g.min_length as int,
            g.max_length as int,
            attempts - 1,
        );
        assert(!target.accepts(p[attempts - 1]));
        assert(false);
    }
}

} // verus!
