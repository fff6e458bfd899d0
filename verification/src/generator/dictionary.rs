use vstd::prelude::*;
use vstd::string::StrSliceExecFns;
use vstd::string::StringExecFns;
use crate::errors::CrackError;
use crate::utils::push_char;

verus! {

// ---------------------------------------------------------------------------
// Named results of the standard library's text transformations. Each is a
// pure function of the characters alone; its exact value is not re-stated
// here, tests exercise the real implementations.
// ---------------------------------------------------------------------------

/// What `str::trim` returns for a character sequence.
pub uninterp spec fn trim_of(s: Seq<char>) -> Seq<char>;

/// What `str::to_lowercase` returns for a character sequence.
pub uninterp spec fn lower_of(s: Seq<char>) -> Seq<char>;

/// What `str::to_uppercase` returns for a character sequence.
pub uninterp spec fn upper_of(s: Seq<char>) -> Seq<char>;

/// What `char::to_uppercase` yields for one character.
pub uninterp spec fn char_upper_of(c: char) -> Seq<char>;

/// Relies on `str::trim`: it returns the input with leading and trailing
/// whitespace removed, so never longer than the input.
#[verifier::external_body]
fn trim_str(s: &str) -> (r: String)
    ensures
        r@ == trim_of(s@),
        r@.len() <= s@.len(),
{
    s.trim().to_owned()
}

/// Relies on `str::to_lowercase`: the result is a function of the characters
/// alone, and an empty input stays empty.
#[verifier::external_body]
fn lowercase_str(s: &str) -> (r: String)
    ensures
        r@ == lower_of(s@),
        s@.len() == 0 ==> r@.len() == 0,
{
    s.to_lowercase()
}

/// Relies on `str::to_uppercase`: the result is a function of the characters
/// alone, and an empty input stays empty.
#[verifier::external_body]
fn uppercase_str(s: &str) -> (r: String)
    ensures
        r@ == upper_of(s@),
        s@.len() == 0 ==> r@.len() == 0,
{
    s.to_uppercase()
}

/// Relies on `char::to_uppercase`: it yields at least one character, a
/// function of the input character alone.
#[verifier::external_body]
fn char_to_uppercase(c: char) -> (r: String)
    ensures
        r@ == char_upper_of(c),
        r@.len() >= 1,
{
    c.to_uppercase().collect()
}

// ---------------------------------------------------------------------------
// Mutation rules
// ---------------------------------------------------------------------------

/// Fixed candidate mutation rules; unsupported kinds apply as no-ops.
#[derive(Debug, Clone)]
pub enum PasswordMutation {
    AppendNumbers { max_digits: usize },
    PrependNumbers { max_digits: usize },
    Capitalize,
    Uppercase,
    Lowercase,
    L33tSpeak,
    AppendSpecialChars,
}

/// The fixed leet-speak substitution for one character.
pub open spec fn spec_leet_char(c: char) -> char {
    if c == 'a' {
        '@'
    } else if c == 'e' {
        '3'
    } else if c == 'i' {
        '1'
    } else if c == 'o' {
        '0'
    } else if c == 's' {
        '$'
    } else {
        c
    }
}

/// Leet-speak applied to every character.
pub open spec fn spec_leet(s: Seq<char>) -> Seq<char> {
    s.map(|i: int, c: char| spec_leet_char(c))
}

/// What a mutation derives from one word, if anything: capitalize maps the
/// first character to uppercase and the rest to lowercase, the case mutations
/// fold the whole word, leet-speak substitutes characters, and the remaining
/// kinds derive nothing.
pub open spec fn spec_apply(m: PasswordMutation, w: Seq<char>) -> Option<Seq<char>> {
    match m {
        PasswordMutation::Capitalize => if w.len() == 0 {
            Option::None
        } else {
            Option::Some(char_upper_of(w[0]) + lower_of(w.skip(1)))
        },
        PasswordMutation::Uppercase => Option::Some(upper_of(w)),
        PasswordMutation::Lowercase => Option::Some(lower_of(w)),
        PasswordMutation::L33tSpeak => Option::Some(spec_leet(w)),
        _ => Option::None,
    }
}

impl PasswordMutation {
    /// Derive this mutation's variant of a word, or `None` where the
    /// mutation derives nothing.
    pub fn apply(&self, password: &str) -> (r: Option<String>)
        ensures
            r is Some <==> spec_apply(*self, password@) is Some,
            r matches Some(s) ==> spec_apply(*self, password@) == Option::Some(s@),
    {
        match self {
            PasswordMutation::Capitalize => {
                if password.is_empty() {
                    return None;
                }
                let len = password.unicode_len();
                let first = password.get_char(0);
                let rest = password.substring_char(1, len);
                proof {
                    assert(rest@ =~= password@.skip(1));
                }
                let up = char_to_uppercase(first);
                let low = lowercase_str(rest);
                Some(up.concat(low.as_str()))
            },
            PasswordMutation::Uppercase => Some(uppercase_str(password)),
            PasswordMutation::Lowercase => Some(lowercase_str(password)),
            PasswordMutation::L33tSpeak => {
                let len = password.unicode_len();
                let mut out = String::new();
                let mut i: usize = 0;
                while i < len
                    invariant
                        len == password@.len(),
                        i <= len,
                        out@ == spec_leet(password@.take(i as int)),
                    decreases len - i,
                {
                    let c = password.get_char(i);
                    let lc = leet_char(c);
                    push_char(&mut out, lc);
                    proof {
                        assert(spec_leet(password@.take(i + 1)) =~= spec_leet(
                            password@.take(i as int),
                        ).push(spec_leet_char(password@[i as int])));
                    }
                    i = i + 1;
                }
                proof {
                    assert(password@.take(len as int) =~= password@);
                }
                Some(out)
            },
            _ => None,
        }
    }
}

/// The leet-speak substitute of one character.
fn leet_char(c: char) -> (r: char)
    ensures
        r == spec_leet_char(c),
{
    match c {
        'a' => '@',
        'e' => '3',
        'i' => '1',
        'o' => '0',
        's' => '$',
        _ => c,
    }
}

// ---------------------------------------------------------------------------
// Line cleaning, deduplication, mutation expansion
// ---------------------------------------------------------------------------

/// Whether a trimmed line survives cleaning: non-blank and no comment marker.
pub open spec fn spec_kept(s: Seq<char>) -> bool {
    s.len() > 0 && s[0] != '#'
}

/// Trim every line, dropping blank lines and comments, in order.
pub open spec fn spec_clean_lines(lines: Seq<Seq<char>>) -> Seq<Seq<char>>
    decreases lines.len(),
{
    if lines.len() == 0 {
        Seq::empty()
    } else {
        let t = trim_of(lines.last());
        spec_clean_lines(lines.drop_last()) + (if spec_kept(t) {
            seq![t]
        } else {
            Seq::empty()
        })
    }
}

/// Drop duplicate words, keeping the first occurrence of each.
pub open spec fn spec_dedup(words: Seq<Seq<char>>) -> Seq<Seq<char>>
    decreases words.len(),
{
    if words.len() == 0 {
        Seq::empty()
    } else {
        let d = spec_dedup(words.drop_last());
        if d.contains(words.last()) {
            d
        } else {
            d.push(words.last())
        }
    }
}

/// The variants the enabled mutations derive from one word, in rule order.
pub open spec fn spec_variants(w: Seq<char>, muts: Seq<PasswordMutation>) -> Seq<Seq<char>>
    decreases muts.len(),
{
    if muts.len() == 0 {
        Seq::empty()
    } else {
        spec_variants(w, muts.drop_last()) + (match spec_apply(muts.last(), w) {
            Option::Some(v) => seq![v],
            Option::None => Seq::empty(),
        })
    }
}

/// Every word followed immediately by its derived variants.
pub open spec fn spec_mutated(words: Seq<Seq<char>>, muts: Seq<PasswordMutation>) -> Seq<Seq<char>>
    decreases words.len(),
{
    if words.len() == 0 {
        Seq::empty()
    } else {
        spec_mutated(words.drop_last(), muts) + seq![words.last()] + spec_variants(
            words.last(),
            muts,
        )
    }
}

// ---------------------------------------------------------------------------
// The generator
// ---------------------------------------------------------------------------

/// Enumerator over a fixed, deduplicated candidate list.
pub struct DictionaryGenerator {
    pub passwords: Vec<String>,
    pub current_index: usize,
}

impl DictionaryGenerator {
    /// Internal consistency: the cursor never passes the end of the list.
    pub open spec fn wf(self) -> bool {
        self.current_index <= self.passwords@.len()
    }

    /// The candidates still to come.
    pub open spec fn pending(self) -> Seq<Seq<char>> {
        self.passwords.deep_view().skip(self.current_index as int)
    }

    /// The whole candidate list.
    pub open spec fn full_seq(self) -> Seq<Seq<char>> {
        self.passwords.deep_view()
    }

    /// Build a generator from raw wordlist lines: each line is trimmed,
    /// blank lines and `#` comments are dropped, and duplicates are removed
    /// keeping first-seen order. An empty resulting list is a fatal error.
    pub fn new(lines: Vec<String>) -> (r: Result<DictionaryGenerator, CrackError>)
        ensures
            r is Ok <==> spec_dedup(spec_clean_lines(lines.deep_view())).len() > 0,
            r is Err ==> r == Err::<DictionaryGenerator, CrackError>(CrackError::EmptyWordlist),
            r matches Ok(g) ==> {
                &&& g.wf()
                &&& g.current_index == 0
                &&& g.passwords.deep_view() == spec_dedup(spec_clean_lines(lines.deep_view()))
                &&& g.pending() == g.full_seq()
            },
    {
        let mut cleaned: Vec<String> = Vec::new();
        let mut i: usize = 0;
        while i < lines.len()
            invariant
                i <= lines@.len(),
                cleaned.deep_view() == spec_clean_lines(lines.deep_view().take(i as int)),
            decreases lines@.len() - i,
        {
            let t = trim_str(lines[i].as_str());
            let keep = if t.as_str().is_empty() {
                false
            } else {
                t.as_str().get_char(0) != '#'
            };
            if keep {
                cleaned.push(t);
            }
            proof {
                assert(lines.deep_view().take(i + 1).drop_last() =~= lines.deep_view().take(
                    i as int,
                ));
                assert(lines.deep_view().take(i + 1).last() == lines.deep_view()[i as int]);
                assert(lines.deep_view()[i as int] == lines@[i as int]@);
            }
            i = i + 1;
        }
        proof {
            assert(lines.deep_view().take(lines@.len() as int) =~= lines.deep_view());
        }
        let mut unique: Vec<String> = Vec::new();
        let mut j: usize = 0;
        while j < cleaned.len()
            invariant
                j <= cleaned@.len(),
                unique.deep_view() == spec_dedup(cleaned.deep_view().take(j as int)),
            decreases cleaned@.len() - j,
        {
            let word = cleaned[j].clone();
            let seen = contains_string(&unique, &word);
            if !seen {
                unique.push(word);
            }
            proof {
                assert(cleaned.deep_view().take(j + 1).drop_last() =~= cleaned.deep_view().take(
                    j as int,
                ));
                assert(cleaned.deep_view().take(j + 1).last() == cleaned@[j as int]@);
            }
            j = j + 1;
        }
        proof {
            assert(cleaned.deep_view().take(cleaned@.len() as int) =~= cleaned.deep_view());
        }
        if unique.len() == 0 {
            return Err(CrackError::EmptyWordlist);
        }
        Ok(DictionaryGenerator { passwords: unique, current_index: 0 })
    }

    /// Expand the list once: each word is followed by the variant each
    /// enabled mutation derives from it. No deduplication happens afterward.
    pub fn with_mutations(self, mutations: &[PasswordMutation]) -> (r: DictionaryGenerator)
        ensures
            r.passwords.deep_view() == spec_mutated(self.passwords.deep_view(), mutations@),
            r.current_index == self.current_index,
    {
        let mut mutated: Vec<String> = Vec::new();
        let mut i: usize = 0;
        while i < self.passwords.len()
            invariant
                i <= self.passwords@.len(),
                mutated.deep_view() == spec_mutated(
                    self.passwords.deep_view().take(i as int),
                    mutations@,
                ),
            decreases self.passwords@.len() - i,
        {
            let word = self.passwords[i].clone();
            mutated.push(word);
            let ghost w = self.passwords.deep_view()[i as int];
            let mut j: usize = 0;
            while j < mutations.len()
                invariant
                    i < self.passwords@.len(),
                    j <= mutations@.len(),
                    w == self.passwords.deep_view()[i as int],
                    mutated.deep_view() == spec_mutated(
                        self.passwords.deep_view().take(i as int),
                        mutations@,
                    ) + seq![w] + spec_variants(w, mutations@.take(j as int)),
                decreases mutations@.len() - j,
            {
                let variant = mutations[j].apply(self.passwords[i].as_str());
                let ghost pre_deep = mutated.deep_view();
                proof {
                    assert(w == self.passwords@[i as int]@);
                }
                match variant {
                    Some(v) => {
                        proof {
                            assert(spec_apply(mutations@[j as int], w) == Option::Some(v@));
                        }
                        let ghost pushed = v@;
                        mutated.push(v);
                        proof {
                            assert(mutated.deep_view() =~~= pre_deep.push(pushed));
                        }
                    },
                    None => {
                        proof {
                            assert(spec_apply(mutations@[j as int], w) is None);
                        }
                    },
                }
                proof {
                    assert(mutations@.take(j + 1).drop_last() =~= mutations@.take(j as int));
                    assert(mutations@.take(j + 1).last() == mutations@[j as int]);
                    assert(spec_variants(w, mutations@.take(j + 1)) == spec_variants(
                        w,
                        mutations@.take(j as int),
                    ) + (match spec_apply(mutations@[j as int], w) {
                        Option::Some(v) => seq![v],
                        Option::None => Seq::<Seq<char>>::empty(),
                    }));
                    assert(mutated.deep_view() =~~= spec_mutated(
                        self.passwords.deep_view().take(i as int),
                        mutations@,
                    ) + seq![w] + spec_variants(w, mutations@.take(j + 1)));
                }
                j = j + 1;
            }
            proof {
                assert(mutations@.take(mutations@.len() as int) =~= mutations@);
                assert(self.passwords.deep_view().take(i + 1).drop_last() =~= self
                    .passwords
                    .deep_view()
                    .take(i as int));
                assert(self.passwords.deep_view().take(i + 1).last() == w);
            }
            i = i + 1;
        }
        proof {
            assert(self.passwords.deep_view().take(self.passwords@.len() as int) =~= self
                .passwords
                .deep_view());
        }
        DictionaryGenerator { passwords: mutated, current_index: self.current_index }
    }
}

/// Whether the list already holds this word.
fn contains_string(v: &Vec<String>, s: &String) -> (r: bool)
    ensures
        r == v.deep_view().contains(s@),
{
    let mut i: usize = 0;
    while i < v.len()
        invariant
            i <= v@.len(),
            forall|k: int| 0 <= k < i ==> v.deep_view()[k] != s@,
        decreases v@.len() - i,
    {
        if v[i].eq(s) {
            proof {
                assert(v.deep_view()[i as int] == s@);
            }
            return true;
        }
        proof {
            assert(v.deep_view()[i as int] == v@[i as int]@);
        }
        i = i + 1;
    }
    false
}

} // verus!
