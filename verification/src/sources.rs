//! The source registry: identifier → source dispatch via prefix terms and
//! priority-ordered patterns, and the local source's descriptors.
//!
//! The registry decides which sources to consult and in what order; the
//! caller performs the actual resolutions and reports what came back.

use vstd::prelude::*;
use vstd::string::{StrSliceExecFns, StringExecFns};
use crate::track::{DecodedInfo, DecodedTrack, encode_track, track_encoding_of, encodable};
use crate::models::{LoadTracksResponse, LoadType, LoadResultData};

verus! {

#[verifier::external_type_specification]
#[verifier::external_body]
pub struct ExRegex(regex::Regex);

/// Whether a regular expression matches a text; the language itself is the
/// regex crate's business.
pub uninterp spec fn regex_match_of(pattern: Seq<char>, text: Seq<char>) -> bool;

/// Whether a pattern is a well-formed regular expression; a pure function
/// of the pattern text, decided by the regex crate's parser.
pub uninterp spec fn regex_compiles(pattern: Seq<char>) -> bool;

/// A compiled regular expression kept beside the pattern it came from.
pub struct CompiledPattern {
    pattern: String,
    regex: regex::Regex,
}

impl CompiledPattern {
    /// The pattern this value was compiled from.
    pub closed spec fn spec_pattern(&self) -> Seq<char> {
        self.pattern@
    }

    /// Relies on regex's `Regex::new`: it compiles exactly the well-formed
    /// patterns, a pure function of the pattern text.
    #[verifier::external_body]
    pub fn new(pattern: String) -> (r: Option<Self>)
        ensures
            r is Some <==> regex_compiles(pattern@),
            r matches Some(c) ==> c.spec_pattern() == pattern@,
    {
        match regex::Regex::new(&pattern) {
            Ok(re) => Some(CompiledPattern { pattern, regex: re }),
            Err(_) => None,
        }
    }

    /// Relies on regex's `Regex::is_match`: whether the compiled pattern
    /// matches the text, a pure function of pattern and text.
    #[verifier::external_body]
    pub fn is_match(&self, text: &str) -> (r: bool)
        ensures
            r == regex_match_of(self.spec_pattern(), text@),
    {
        self.regex.is_match(text)
    }
}

/// One registered pattern: the compiled expression, the source it routes
/// to, and that source's priority.
pub struct SourcePattern {
    pub pattern: CompiledPattern,
    pub source_name: String,
    pub priority: u32,
}

/// Patterns stand in descending priority order.
pub open spec fn patterns_sorted(ps: Seq<SourcePattern>) -> bool {
    forall|i: int, j: int|
        0 <= i <= j < ps.len() ==> #[trigger] ps[i].priority >= #[trigger] ps[j].priority
}

/// The first index whose pair carries this term.
pub open spec fn find_term(m: Seq<(String, String)>, t: Seq<char>) -> Option<int>
    decreases m.len(),
{
    if m.len() == 0 {
        None
    } else if m[0].0@ == t {
        Some(0int)
    } else {
        match find_term(m.drop_first(), t) {
            Some(i) => Some(i + 1),
            None => None,
        }
    }
}

/// The source a search term routes to, if registered.
pub open spec fn term_value(m: Seq<(String, String)>, t: Seq<char>) -> Option<Seq<char>> {
    match find_term(m, t) {
        Some(i) => Some(m[i].1@),
        None => None,
    }
}

pub proof fn lemma_find_term(m: Seq<(String, String)>, t: Seq<char>)
    ensures
        match find_term(m, t) {
            Some(i) => 0 <= i < m.len() && m[i].0@ == t,
            None => forall|j: int| 0 <= j < m.len() ==> m[j].0@ != t,
        },
    decreases m.len(),
{
    if m.len() > 0 && m[0].0@ != t {
        lemma_find_term(m.drop_first(), t);
        match find_term(m.drop_first(), t) {
            Some(i) => {
                assert(m[i + 1] == m.drop_first()[i]);
            },
            None => {
                assert forall|j: int| 0 <= j < m.len() implies m[j].0@ != t by {
                    if j >= 1 {
                        assert(m[j] == m.drop_first()[j - 1]);
                    }
                }
            },
        }
    }
}

pub proof fn lemma_find_term_first(m: Seq<(String, String)>, t: Seq<char>, i: int)
    requires
        0 <= i < m.len(),
        m[i].0@ == t,
        forall|j: int| 0 <= j < i ==> m[j].0@ != t,
    ensures
        find_term(m, t) == Some(i),
    decreases m.len(),
{
    if i > 0 {
        assert forall|j: int| 0 <= j < i - 1 implies m.drop_first()[j].0@ != t by {
            assert(m.drop_first()[j] == m[j + 1]);
        }
        assert(m.drop_first()[i - 1] == m[i]);
        lemma_find_term_first(m.drop_first(), t, i - 1);
    }
}

/// Whether a name is registered.
pub open spec fn contains_name(names: Seq<String>, n: Seq<char>) -> bool {
    exists|i: int| 0 <= i < names.len() && names[i]@ == n
}

/// The names of the sources whose patterns match an identifier, in pattern
/// order.
pub open spec fn matching_sources(ps: Seq<SourcePattern>, id: Seq<char>) -> Seq<Seq<char>>
    decreases ps.len(),
{
    if ps.len() == 0 {
        Seq::<Seq<char>>::empty()
    } else {
        let head = if regex_match_of(ps[0].pattern.spec_pattern(), id) {
            seq![ps[0].source_name@]
        } else {
            Seq::<Seq<char>>::empty()
        };
        head + matching_sources(ps.drop_first(), id)
    }
}

proof fn lemma_matching_push(ps: Seq<SourcePattern>, p: SourcePattern, id: Seq<char>)
    ensures
        matching_sources(ps.push(p), id) == matching_sources(ps, id) + (if regex_match_of(
            p.pattern.spec_pattern(),
            id,
        ) {
            seq![p.source_name@]
        } else {
            Seq::<Seq<char>>::empty()
        }),
    decreases ps.len(),
{
    reveal_with_fuel(matching_sources, 3);
    if ps.len() == 0 {
        assert(ps.push(p)[0] == p);
        assert(ps.push(p).drop_first() =~= Seq::<SourcePattern>::empty());
        assert(matching_sources(ps, id) + (if regex_match_of(p.pattern.spec_pattern(), id) {
            seq![p.source_name@]
        } else {
            Seq::<Seq<char>>::empty()
        }) =~= matching_sources(ps.push(p), id));
    } else {
        assert(ps.push(p)[0] == ps[0]);
        assert(ps.push(p).drop_first() =~= ps.drop_first().push(p));
        lemma_matching_push(ps.drop_first(), p, id);
        assert(matching_sources(ps, id) + (if regex_match_of(p.pattern.spec_pattern(), id) {
            seq![p.source_name@]
        } else {
            Seq::<Seq<char>>::empty()
        }) =~= matching_sources(ps.push(p), id));
    }
}

/// The index of the first colon of a text, if any.
pub open spec fn first_colon(s: Seq<char>) -> Option<int>
    decreases s.len(),
{
    if s.len() == 0 {
        None
    } else if s[0] == ':' {
        Some(0int)
    } else {
        match first_colon(s.drop_first()) {
            Some(i) => Some(i + 1),
            None => None,
        }
    }
}

pub proof fn lemma_first_colon(s: Seq<char>)
    ensures
        match first_colon(s) {
            Some(i) => 0 <= i < s.len() && s[i] == ':' && (forall|j: int|
                0 <= j < i ==> s[j] != ':'),
            None => forall|j: int| 0 <= j < s.len() ==> s[j] != ':',
        },
    decreases s.len(),
{
    if s.len() > 0 && s[0] != ':' {
        lemma_first_colon(s.drop_first());
        match first_colon(s.drop_first()) {
            Some(i) => {
                assert(s[i + 1] == s.drop_first()[i]);
                assert forall|j: int| 0 <= j < i + 1 implies s[j] != ':' by {
                    if j >= 1 {
                        assert(s[j] == s.drop_first()[j - 1]);
                    }
                }
            },
            None => {
                assert forall|j: int| 0 <= j < s.len() implies s[j] != ':' by {
                    if j >= 1 {
                        assert(s[j] == s.drop_first()[j - 1]);
                    }
                }
            },
        }
    }
}

pub proof fn lemma_first_colon_at(s: Seq<char>, i: int)
    requires
        0 <= i < s.len(),
        s[i] == ':',
        forall|j: int| 0 <= j < i ==> s[j] != ':',
    ensures
        first_colon(s) == Some(i),
    decreases s.len(),
{
    if i > 0 {
        assert forall|j: int| 0 <= j < i - 1 implies s.drop_first()[j] != ':' by {
            assert(s.drop_first()[j] == s[j + 1]);
        }
        assert(s.drop_first()[i - 1] == s[i]);
        lemma_first_colon_at(s.drop_first(), i - 1);
    }
}

/// Splits a text at its first colon into prefix and rest.
pub fn split_once_colon(s: &str) -> (r: Option<(String, String)>)
    ensures
        match first_colon(s@) {
            Some(i) => r matches Some((p, q)) && p@ == s@.subrange(0, i) && q@ == s@.subrange(
                i + 1,
                s@.len() as int,
            ),
            None => r is None,
        },
{
    let n = s.unicode_len();
    let mut i: usize = 0;
    while i < n
        invariant
            n == s@.len(),
            i <= n,
            forall|j: int| 0 <= j < i ==> s@[j] != ':',
        decreases n - i,
    {
        if s.get_char(i) == ':' {
            proof {
                lemma_first_colon_at(s@, i as int);
            }
            let p = String::from_str(s.substring_char(0, i));
            let q = String::from_str(s.substring_char(i + 1, n));
            return Some((p, q));
        }
        i += 1;
    }
    proof {
        lemma_first_colon(s@);
        match first_colon(s@) {
            Some(k) => {
                assert(s@[k] == ':');
            },
            None => {},
        }
    }
    None
}

/// How many of the given patterns are well-formed regular expressions.
pub open spec fn count_compilable(pats: Seq<String>) -> int
    decreases pats.len(),
{
    if pats.len() == 0 {
        0
    } else {
        (if regex_compiles(pats[0]@) {
            1int
        } else {
            0int
        }) + count_compilable(pats.drop_first())
    }
}

proof fn lemma_count_compilable_push(pats: Seq<String>, x: String)
    ensures
        count_compilable(pats.push(x)) == count_compilable(pats) + (if regex_compiles(x@) {
            1int
        } else {
            0int
        }),
    decreases pats.len(),
{
    reveal_with_fuel(count_compilable, 3);
    if pats.len() == 0 {
        assert(pats.push(x)[0] == x);
        assert(pats.push(x).drop_first() =~= Seq::<String>::empty());
    } else {
        assert(pats.push(x)[0] == pats[0]);
        assert(pats.push(x).drop_first() =~= pats.drop_first().push(x));
        lemma_count_compilable_push(pats.drop_first(), x);
    }
}

/// Whether the registry holds an entry with this pattern text, routed to
/// this source at this priority.
pub open spec fn has_entry(
    ps: Seq<SourcePattern>,
    pat: Seq<char>,
    name: Seq<char>,
    prio: u32,
) -> bool {
    exists|k: int|
        0 <= k < ps.len() && (#[trigger] ps[k]).pattern.spec_pattern() == pat && ps[k].source_name@
            == name && ps[k].priority == prio
}

/// What a load of an identifier should try, in order: the local source
/// first when the identifier is an existing path, then every matching
/// pattern's source by descending priority, and, failing those, one
/// registered search term's source.
pub struct LoadPlan {
    pub try_local_first: bool,
    pub try_sources: Vec<String>,
    pub search: Option<(String, String)>,
}

/// The registry of sources: their names, their search terms, and their
/// patterns in descending priority order.
pub struct SourceManager {
    pub source_names: Vec<String>,
    pub search_terms: Vec<(String, String)>,
    pub patterns: Vec<SourcePattern>,
}

impl SourceManager {
    pub fn new() -> (r: Self)
        ensures
            r.source_names@.len() == 0,
            r.search_terms@.len() == 0,
            r.patterns@.len() == 0,
            patterns_sorted(r.patterns@),
    {
        SourceManager { source_names: Vec::new(), search_terms: Vec::new(), patterns: Vec::new() }
    }

    /// Registers a source: its name, its search terms routed to it, and
    /// one entry per well-formed pattern, kept in descending priority
    /// order; patterns that do not compile are dropped.
    pub fn register(
        &mut self,
        name: String,
        priority: u32,
        search_terms: Vec<String>,
        patterns: Vec<String>,
    )
        requires
            patterns_sorted(old(self).patterns@),
        ensures
            patterns_sorted(final(self).patterns@),
            contains_name(final(self).source_names@, name@),
            forall|t: Seq<char>|
                contains_name(old(self).source_names@, t) ==> contains_name(
                    final(self).source_names@,
                    t,
                ),
            forall|j: int|
                0 <= j < search_terms@.len() ==> term_value(
                    final(self).search_terms@,
                    #[trigger] search_terms@[j]@,
                ) == Some(name@),
            final(self).patterns@.len() == old(self).patterns@.len() + count_compilable(
                patterns@,
            ),
            forall|k: int|
                0 <= k < final(self).patterns@.len() ==> (old(self).patterns@.contains(
                    #[trigger] final(self).patterns@[k],
                ) || (final(self).patterns@[k].source_name@ == name@
                    && final(self).patterns@[k].priority == priority && (exists|j: int|
                    0 <= j < patterns@.len() && (#[trigger] patterns@[j])@ == final(self).patterns@[k].pattern.spec_pattern() && regex_compiles(patterns@[j]@)))),
            forall|j: int|
                0 <= j < patterns@.len() && regex_compiles(#[trigger] patterns@[j]@) ==> has_entry(
                    final(self).patterns@,
                    patterns@[j]@,
                    name@,
                    priority,
                ),
            forall|k: int|
                0 <= k < old(self).patterns@.len() ==> final(self).patterns@.contains(
                    #[trigger] old(self).patterns@[k],
                ),
    {
        let mut ti: usize = 0;
        while ti < search_terms.len()
            invariant
                patterns_sorted(self.patterns@),
                self.patterns@ == old(self).patterns@,
                self.source_names@ == old(self).source_names@,
                ti <= search_terms@.len(),
                forall|j: int|
                    0 <= j < ti ==> term_value(self.search_terms@, #[trigger] search_terms@[j]@)
                        == Some(name@),
            decreases search_terms@.len() - ti,
        {
            self.put_term(search_terms[ti].clone(), name.clone());
            proof {
                assert(forall|j: int|
                    0 <= j < ti ==> term_value(self.search_terms@, #[trigger] search_terms@[j]@)
                        == Some(name@));
            }
            ti += 1;
        }
        let mut pi: usize = 0;
        proof {
            assert(patterns@.subrange(0, 0) =~= Seq::<String>::empty());
        }
        while pi < patterns.len()
            invariant
                patterns_sorted(self.patterns@),
                self.source_names@ == old(self).source_names@,
                pi <= patterns@.len(),
                forall|j: int|
                    0 <= j < ti ==> term_value(self.search_terms@, #[trigger] search_terms@[j]@)
                        == Some(name@),
                ti == search_terms@.len(),
                self.patterns@.len() == old(self).patterns@.len() + count_compilable(
                    patterns@.subrange(0, pi as int),
                ),
                forall|k: int|
                    0 <= k < self.patterns@.len() ==> (old(self).patterns@.contains(
                        #[trigger] self.patterns@[k],
                    ) || (self.patterns@[k].source_name@ == name@ && self.patterns@[k].priority
                        == priority && (exists|j: int|
                        0 <= j < pi && (#[trigger] patterns@[j])@
                            == self.patterns@[k].pattern.spec_pattern() && regex_compiles(
                            patterns@[j]@,
                        )))),
                forall|j: int|
                    0 <= j < pi && regex_compiles(#[trigger] patterns@[j]@) ==> has_entry(
                        self.patterns@,
                        patterns@[j]@,
                        name@,
                        priority,
                    ),
                forall|k: int|
                    0 <= k < old(self).patterns@.len() ==> self.patterns@.contains(
                        #[trigger] old(self).patterns@[k],
                    ),
            decreases patterns@.len() - pi,
        {
            proof {
                assert(patterns@.subrange(0, pi as int + 1) =~= patterns@.subrange(
                    0,
                    pi as int,
                ).push(patterns@[pi as int]));
                lemma_count_compilable_push(
                    patterns@.subrange(0, pi as int),
                    patterns@[pi as int],
                );
            }
            let ghost mid = self.patterns@;
            match CompiledPattern::new(patterns[pi].clone()) {
                Some(compiled) => {
                    let entry = SourcePattern {
                        pattern: compiled,
                        source_name: name.clone(),
                        priority,
                    };
                    let ghost e = entry;
                    self.insert_pattern_sorted(entry);
                    proof {
                        assert forall|j: int|
                            0 <= j < pi + 1 && regex_compiles(
                                #[trigger] patterns@[j]@,
                            ) implies has_entry(self.patterns@, patterns@[j]@, name@, priority) by {
                            if j < pi {
                                let k0 = choose|k: int|
                                    0 <= k < mid.len() && (#[trigger] mid[k]).pattern.spec_pattern()
                                        == patterns@[j]@ && mid[k].source_name@ == name@
                                        && mid[k].priority == priority;
                                assert(self.patterns@.contains(mid[k0]));
                                let k1 = choose|k: int|
                                    0 <= k < self.patterns@.len() && self.patterns@[k] == mid[k0];
                                assert((self.patterns@[k1]).pattern.spec_pattern()
                                    == patterns@[j]@);
                            } else {
                                assert(self.patterns@.contains(e));
                                let k1 = choose|k: int|
                                    0 <= k < self.patterns@.len() && self.patterns@[k] == e;
                                assert((self.patterns@[k1]).pattern.spec_pattern()
                                    == patterns@[j]@);
                            }
                        }
                        assert forall|k: int|
                            0 <= k < self.patterns@.len() implies (old(self).patterns@.contains(
                            #[trigger] self.patterns@[k],
                        ) || (self.patterns@[k].source_name@ == name@ && self.patterns@[k].priority
                            == priority && (exists|j: int|
                            0 <= j < pi + 1 && (#[trigger] patterns@[j])@
                                == self.patterns@[k].pattern.spec_pattern() && regex_compiles(
                                patterns@[j]@,
                            )))) by {
                            if mid.contains(self.patterns@[k]) {
                                let k0 = choose|x: int|
                                    0 <= x < mid.len() && mid[x] == self.patterns@[k];
                                assert(old(self).patterns@.contains(mid[k0])
                                    || (mid[k0].source_name@ == name@ && mid[k0].priority
                                    == priority && (exists|j: int|
                                    0 <= j < pi && (#[trigger] patterns@[j])@
                                        == mid[k0].pattern.spec_pattern() && regex_compiles(
                                        patterns@[j]@,
                                    ))));
                            } else {
                                assert(self.patterns@[k] == e);
                                assert(patterns@[pi as int]@ == e.pattern.spec_pattern());
                            }
                        }
                    }
                },
                None => {},
            }
            pi += 1;
        }
        proof {
            assert(patterns@.subrange(0, patterns@.len() as int) =~= patterns@);
        }
        self.put_name(name);
    }

    /// Inserts a pattern behind every entry of at least its priority.
    fn insert_pattern_sorted(&mut self, p: SourcePattern)
        requires
            patterns_sorted(old(self).patterns@),
        ensures
            patterns_sorted(final(self).patterns@),
            final(self).patterns@.len() == old(self).patterns@.len() + 1,
            final(self).patterns@.contains(p),
            forall|k: int|
                0 <= k < old(self).patterns@.len() ==> final(self).patterns@.contains(
                    #[trigger] old(self).patterns@[k],
                ),
            forall|k: int|
                0 <= k < final(self).patterns@.len() ==> (old(self).patterns@.contains(
                    #[trigger] final(self).patterns@[k],
                ) || final(self).patterns@[k] == p),
            final(self).source_names@ == old(self).source_names@,
            final(self).search_terms@ == old(self).search_terms@,
    {
        let mut i: usize = 0;
        while i < self.patterns.len() && self.patterns[i].priority >= p.priority
            invariant
                i <= self.patterns@.len(),
                self.patterns@ == old(self).patterns@,
                self.source_names@ == old(self).source_names@,
                self.search_terms@ == old(self).search_terms@,
                forall|j: int| 0 <= j < i ==> self.patterns@[j].priority >= p.priority,
            decreases self.patterns@.len() - i,
        {
            i += 1;
        }
        self.patterns.insert(i, p);
        proof {
            let after = self.patterns@;
            let before = old(self).patterns@;
            assert forall|a: int, b: int|
                0 <= a <= b < after.len() implies #[trigger] after[a].priority
                >= #[trigger] after[b].priority by {
                if a < i as int && b < i as int {
                    assert(after[a] == before[a] && after[b] == before[b]);
                } else if a < i as int && b == i as int {
                    assert(after[a] == before[a]);
                } else if a < i as int && b > i as int {
                    assert(after[a] == before[a] && after[b] == before[b - 1]);
                    assert((i as int) < before.len() ==> before[i as int].priority < p.priority);
                    assert(before[i as int].priority >= before[b - 1].priority);
                } else if a == i as int && b == i as int {
                } else if a == i as int && b > i as int {
                    assert(after[b] == before[b - 1]);
                    assert(i as int <= b - 1 < before.len());
                    assert(before[i as int].priority < p.priority);
                    assert(before[i as int].priority >= before[b - 1].priority);
                } else if a > i as int {
                    assert(after[a] == before[a - 1] && after[b] == before[b - 1]);
                }
            }
            assert forall|k: int|
                0 <= k < before.len() implies after.contains(#[trigger] before[k]) by {
                if k < i as int {
                    assert(after[k] == before[k]);
                } else {
                    assert(after[k + 1] == before[k]);
                }
            }
            assert(after[i as int] == p);
            assert forall|k: int|
                0 <= k < after.len() implies (before.contains(#[trigger] after[k]) || after[k]
                == p) by {
                if k < i as int {
                    assert(after[k] == before[k]);
                } else if k > i as int {
                    assert(after[k] == before[k - 1]);
                }
            }
        }
    }

    /// Routes a search term to a source, replacing any previous route.
    fn put_term(&mut self, term: String, name: String)
        ensures
            term_value(final(self).search_terms@, term@) == Some(name@),
            forall|t: Seq<char>|
                t != term@ ==> term_value(final(self).search_terms@, t) == term_value(
                    old(self).search_terms@,
                    t,
                ),
            final(self).source_names@ == old(self).source_names@,
            final(self).patterns@ == old(self).patterns@,
    {
        proof {
            lemma_find_term(self.search_terms@, term@);
        }
        let mut i: usize = 0;
        let n = self.search_terms.len();
        while i < n
            invariant
                n == self.search_terms@.len(),
                i <= n,
                self.search_terms@ == old(self).search_terms@,
                self.source_names@ == old(self).source_names@,
                self.patterns@ == old(self).patterns@,
                forall|j: int| 0 <= j < i ==> self.search_terms@[j].0@ != term@,
            decreases n - i,
        {
            if self.search_terms[i].0 == term {
                proof {
                    lemma_find_term_first(self.search_terms@, term@, i as int);
                }
                self.search_terms.remove(i);
                self.search_terms.insert(i, (term, name));
                proof {
                    let after = self.search_terms@;
                    let before = old(self).search_terms@;
                    assert(after =~= before.update(i as int, after[i as int]));
                    lemma_find_term_first(after, after[i as int].0@, i as int);
                    assert forall|t: Seq<char>| t != after[i as int].0@ implies term_value(
                        after,
                        t,
                    ) == term_value(before, t) by {
                        lemma_term_value_update(before, i as int, after[i as int], t);
                    }
                }
                return ;
            }
            i += 1;
        }
        let ghost before = self.search_terms@;
        self.search_terms.push((term, name));
        proof {
            assert(self.search_terms@.drop_last() =~= before);
            let after = self.search_terms@;
            lemma_find_term_first(after, after[after.len() - 1].0@, after.len() - 1);
            assert forall|t: Seq<char>| t != after[after.len() - 1].0@ implies term_value(
                after,
                t,
            ) == term_value(before, t) by {
                lemma_term_value_push(before, after[after.len() - 1], t);
            }
        }
    }

    /// Records a source name if it is new.
    fn put_name(&mut self, name: String)
        ensures
            contains_name(final(self).source_names@, name@),
            forall|t: Seq<char>|
                contains_name(old(self).source_names@, t) ==> contains_name(
                    final(self).source_names@,
                    t,
                ),
            final(self).search_terms@ == old(self).search_terms@,
            final(self).patterns@ == old(self).patterns@,
    {
        let mut i: usize = 0;
        let n = self.source_names.len();
        while i < n
            invariant
                n == self.source_names@.len(),
                i <= n,
                self.source_names@ == old(self).source_names@,
                self.search_terms@ == old(self).search_terms@,
                self.patterns@ == old(self).patterns@,
            decreases n - i,
        {
            if self.source_names[i] == name {
                return ;
            }
            i += 1;
        }
        let ghost before = self.source_names@;
        self.source_names.push(name);
        proof {
            assert(self.source_names@.drop_last() =~= before);
            assert forall|t: Seq<char>| contains_name(before, t) implies contains_name(
                self.source_names@,
                t,
            ) by {
                let w = choose|w: int| 0 <= w < before.len() && before[w]@ == t;
                assert(self.source_names@[w]@ == t);
            }
            assert(self.source_names@[before.len() as int]@ == name@);
        }
    }

    /// Whether a source of this name is registered.
    pub fn has_source(&self, name: &String) -> (r: bool)
        ensures
            r == contains_name(self.source_names@, name@),
    {
        let mut i: usize = 0;
        let n = self.source_names.len();
        while i < n
            invariant
                n == self.source_names@.len(),
                i <= n,
                forall|j: int| 0 <= j < i ==> self.source_names@[j]@ != name@,
            decreases n - i,
        {
            if self.source_names[i] == *name {
                return true;
            }
            i += 1;
        }
        false
    }

    /// The plan for loading an identifier: the local source first when the
    /// identifier is an existing path, then the sources whose patterns
    /// match, in registry order, then a registered search prefix.
    pub fn resolution_plan(&self, identifier: &str, path_exists: bool) -> (plan: LoadPlan)
        ensures
            plan.try_local_first == (path_exists && contains_name(self.source_names@, "local"@)),
            plan.try_sources@.map_values(|s: String| s@) == matching_sources(
                self.patterns@,
                identifier@,
            ),
            ({
                let sp = match first_colon(identifier@) {
                    Some(i) => {
                        if i > 1 {
                            term_value(self.search_terms@, identifier@.subrange(0, i))
                        } else {
                            None
                        }
                    },
                    None => None,
                };
                match sp {
                    Some(n) => plan.search matches Some((sn, q)) && sn@ == n && q@
                        == identifier@.subrange(
                        first_colon(identifier@).unwrap() + 1,
                        identifier@.len() as int,
                    ),
                    None => plan.search is None,
                }
            }),
    {
        let local = String::from_str("local");
        proof {
            reveal_strlit("local");
        }
        let try_local_first = path_exists && self.has_source(&local);

        let mut try_sources: Vec<String> = Vec::new();
        let mut i: usize = 0;
        proof {
            assert(self.patterns@.subrange(0, 0) =~= Seq::<SourcePattern>::empty());
            assert(try_sources@.map_values(|s: String| s@) =~= matching_sources(
                self.patterns@.subrange(0, 0),
                identifier@,
            ));
        }
        while i < self.patterns.len()
            invariant
                i <= self.patterns@.len(),
                try_sources@.map_values(|s: String| s@) == matching_sources(
                    self.patterns@.subrange(0, i as int),
                    identifier@,
                ),
            decreases self.patterns@.len() - i,
        {
            proof {
                assert(self.patterns@.subrange(0, i as int + 1) =~= self.patterns@.subrange(
                    0,
                    i as int,
                ).push(self.patterns@[i as int]));
                lemma_matching_push(
                    self.patterns@.subrange(0, i as int),
                    self.patterns@[i as int],
                    identifier@,
                );
            }
            if self.patterns[i].pattern.is_match(identifier) {
                try_sources.push(self.patterns[i].source_name.clone());
                proof {
                    assert(try_sources@.map_values(|s: String| s@) =~= matching_sources(
                        self.patterns@.subrange(0, i as int + 1),
                        identifier@,
                    ));
                }
            } else {
                proof {
                    assert(try_sources@.map_values(|s: String| s@) =~= matching_sources(
                        self.patterns@.subrange(0, i as int + 1),
                        identifier@,
                    ));
                }
            }
            i += 1;
        }
        proof {
            assert(self.patterns@.subrange(0, self.patterns@.len() as int) =~= self.patterns@);
        }

        proof {
            lemma_first_colon(identifier@);
        }
        let search: Option<(String, String)> = match split_once_colon(identifier) {
            Some((prefix, query)) => {
                if prefix.as_str().unicode_len() > 1 {
                    proof {
                        lemma_find_term(self.search_terms@, prefix@);
                    }
                    match self.find_term_exec(&prefix) {
                        Some(n) => Some((n, query)),
                        None => None,
                    }
                } else {
                    None
                }
            },
            None => None,
        };
        LoadPlan { try_local_first, try_sources, search }
    }

    /// The source a search term routes to, if registered.
    fn find_term_exec(&self, term: &String) -> (r: Option<String>)
        ensures
            match r {
                Some(n) => term_value(self.search_terms@, term@) == Some(n@),
                None => term_value(self.search_terms@, term@) is None,
            },
    {
        let mut i: usize = 0;
        let n = self.search_terms.len();
        while i < n
            invariant
                n == self.search_terms@.len(),
                i <= n,
                forall|j: int| 0 <= j < i ==> self.search_terms@[j].0@ != term@,
            decreases n - i,
        {
            if self.search_terms[i].0 == *term {
                proof {
                    lemma_find_term_first(self.search_terms@, term@, i as int);
                }
                return Some(self.search_terms[i].1.clone());
            }
            i += 1;
        }
        proof {
            lemma_find_term(self.search_terms@, term@);
            match find_term(self.search_terms@, term@) {
                Some(k) => {
                    assert(self.search_terms@[k].0@ == term@);
                },
                None => {},
            }
        }
        None
    }
}

/// The local file source.
pub struct LocalSource;

impl LocalSource {
    pub fn name(&self) -> (r: String)
        ensures
            r@ == "local"@,
    {
        String::from_str("local")
    }

    pub fn priority(&self) -> (r: u32)
        ensures
            r == 20,
    {
        20
    }

    pub fn search_terms(&self) -> (r: Vec<String>)
        ensures
            r@.len() == 2,
            r@[0]@ == "local"@,
            r@[1]@ == "file"@,
    {
        let mut v: Vec<String> = Vec::new();
        v.push(String::from_str("local"));
        v.push(String::from_str("file"));
        v
    }

    pub fn patterns(&self) -> (r: Vec<String>)
        ensures
            r@.len() == 1,
            r@[0]@ == "^(local|file):"@,
    {
        let mut v: Vec<String> = Vec::new();
        v.push(String::from_str("^(local|file):"));
        v
    }
}

/// Whether `s` starts with `p`.
pub fn has_prefix(s: &str, p: &str) -> (r: bool)
    ensures
        r == (s@.len() >= p@.len() && s@.subrange(0, p@.len() as int) == p@),
{
    let n = p.unicode_len();
    if s.unicode_len() < n {
        return false;
    }
    let mut i: usize = 0;
    while i < n
        invariant
            n == p@.len(),
            i <= n,
            s@.len() >= n,
            forall|j: int| 0 <= j < i ==> s@[j] == p@[j],
        decreases n - i,
    {
        if s.get_char(i) != p.get_char(i) {
            proof {
                assert(s@.subrange(0, n as int)[i as int] != p@[i as int]);
            }
            return false;
        }
        i += 1;
    }
    proof {
        assert(s@.subrange(0, n as int) =~= p@);
    }
    true
}

/// An identifier with any `local:` or `file:` prefix stripped.
pub open spec fn clean_identifier_spec(u: Seq<char>) -> Seq<char> {
    if u.len() >= 6 && u.subrange(0, 6) == "local:"@ {
        u.skip(6)
    } else if u.len() >= 5 && u.subrange(0, 5) == "file:"@ {
        u.skip(5)
    } else {
        u
    }
}

/// Strips a `local:` or `file:` prefix off an identifier.
pub fn clean_identifier(url: &str) -> (r: String)
    ensures
        r@ == clean_identifier_spec(url@),
{
    proof {
        reveal_strlit("local:");
        reveal_strlit("file:");
    }
    if has_prefix(url, "local:") {
        let r = String::from_str(url.substring_char(6, url.unicode_len()));
        proof {
            assert(r@ =~= url@.skip(6));
        }
        r
    } else if has_prefix(url, "file:") {
        let r = String::from_str(url.substring_char(5, url.unicode_len()));
        proof {
            assert(r@ =~= url@.skip(5));
        }
        r
    } else {
        String::from_str(url)
    }
}

/// The fields the local source gives a probed file's track: the file
/// name as title, an unknown author, the probed duration, the cleaned
/// path as identifier and URI.
pub open spec fn local_info_shape(
    info: DecodedInfo,
    path: Seq<char>,
    name: Seq<char>,
    duration_ms: u64,
) -> bool {
    &&& info.title@ == name
    &&& info.author@ == "unknown"@
    &&& info.length == duration_ms
    &&& info.identifier@ == path
    &&& info.is_stream == false
    &&& crate::track::opt_view(info.uri) == Some(path)
    &&& info.artwork_url is None
    &&& info.isrc is None
    &&& info.source_name@ == "local"@
    &&& info.position == 0
}

/// The track the local source yields for a probed file; it succeeds
/// exactly when such an info fits the blob format, which every real path
/// does.
pub fn local_resolve(clean_path: &String, file_name: &String, duration_ms: u64) -> (r: Option<
    DecodedTrack,
>)
    ensures
        r matches Some(t) ==> {
            &&& local_info_shape(t.info, clean_path@, file_name@, duration_ms)
            &&& encodable(t.info)
            &&& t.encoded@ == track_encoding_of(t.info)
        },
        r is None ==> (forall|info: DecodedInfo|
            local_info_shape(info, clean_path@, file_name@, duration_ms) ==> !encodable(info)),
{
    let info = DecodedInfo {
        title: file_name.clone(),
        author: String::from_str("unknown"),
        length: duration_ms,
        identifier: clean_path.clone(),
        is_stream: false,
        uri: Some(clean_path.clone()),
        artwork_url: None,
        isrc: None,
        source_name: String::from_str("local"),
        position: 0,
    };
    match encode_track(&info) {
        Some(encoded) => Some(DecodedTrack { encoded, info }),
        None => {
            proof {
                assert(!encodable(info));
                assert forall|other: DecodedInfo|
                    local_info_shape(
                        other,
                        clean_path@,
                        file_name@,
                        duration_ms,
                    ) implies !encodable(other) by {
                    crate::track::lemma_encodable_from_views(info, other);
                }
            }
            None
        },
    }
}

/// One source's contribution to a unified search: its found tracks.
pub open spec fn flatten_spec(rs: Seq<LoadTracksResponse>) -> Seq<DecodedTrack>
    decreases rs.len(),
{
    if rs.len() == 0 {
        Seq::<DecodedTrack>::empty()
    } else {
        let head = match rs[0].data {
            LoadResultData::Track(t) => seq![t],
            LoadResultData::Search(ts) => ts@,
            _ => Seq::<DecodedTrack>::empty(),
        };
        head + flatten_spec(rs.drop_first())
    }
}

proof fn lemma_flatten_push(rs: Seq<LoadTracksResponse>, x: LoadTracksResponse)
    ensures
        flatten_spec(rs.push(x)) == flatten_spec(rs) + (match x.data {
            LoadResultData::Track(t) => seq![t],
            LoadResultData::Search(ts) => ts@,
            _ => Seq::<DecodedTrack>::empty(),
        }),
    decreases rs.len(),
{
    reveal_with_fuel(flatten_spec, 3);
    if rs.len() == 0 {
        assert(rs.push(x)[0] == x);
        assert(rs.push(x).drop_first() =~= Seq::<LoadTracksResponse>::empty());
        assert(flatten_spec(rs) + (match x.data {
            LoadResultData::Track(t) => seq![t],
            LoadResultData::Search(ts) => ts@,
            _ => Seq::<DecodedTrack>::empty(),
        }) =~= flatten_spec(rs.push(x)));
    } else {
        assert(rs.push(x)[0] == rs[0]);
        assert(rs.push(x).drop_first() =~= rs.drop_first().push(x));
        lemma_flatten_push(rs.drop_first(), x);
        assert(flatten_spec(rs) + (match x.data {
            LoadResultData::Track(t) => seq![t],
            LoadResultData::Search(ts) => ts@,
            _ => Seq::<DecodedTrack>::empty(),
        }) =~= flatten_spec(rs.push(x)));
    }
}

/// Flattens every source's track or search findings into one list, in
/// source order.
pub fn flatten_search_results(results: Vec<LoadTracksResponse>) -> (r: Vec<DecodedTrack>)
    ensures
        r@ == flatten_spec(results@),
{
    let mut out: Vec<DecodedTrack> = Vec::new();
    let mut seen: Vec<LoadTracksResponse> = Vec::new();
    proof {
        assert(out@ =~= flatten_spec(seen@));
    }
    let mut rest = results;
    while rest.len() > 0
        invariant
            out@ == flatten_spec(seen@),
            seen@ + rest@ == results@,
        decreases rest@.len(),
    {
        let x = rest.remove(0);
        proof {
            lemma_flatten_push(seen@, x);
        }
        match &x.data {
            LoadResultData::Track(t) => {
                out.push(t.clone());
            },
            LoadResultData::Search(ts) => {
                let mut j: usize = 0;
                let ghost base = out@;
                while j < ts.len()
                    invariant
                        j <= ts@.len(),
                        out@ == base + ts@.subrange(0, j as int),
                    decreases ts@.len() - j,
                {
                    out.push(ts[j].clone());
                    proof {
                        assert(out@ =~= base + ts@.subrange(0, j as int + 1));
                    }
                    j += 1;
                }
                proof {
                    assert(out@ =~= base + ts@);
                }
            },
            _ => {},
        }
        seen.push(x);
        proof {
            assert(seen@ + rest@ =~= results@);
            assert(out@ =~= flatten_spec(seen@));
        }
    }
    proof {
        assert(seen@ =~= results@);
    }
    out
}

/// The wire answer for a unified search: the found tracks, or the empty
/// answer when nothing was found.
pub fn search_outcome(results: Vec<DecodedTrack>) -> (r: LoadTracksResponse)
    ensures
        results@.len() == 0 ==> r.load_type == LoadType::Empty && r.data is Empty,
        results@.len() > 0 ==> r.load_type == LoadType::Search && (r.data matches
            LoadResultData::Search(ts) && ts@ == results@),
{
    if results.len() == 0 {
        LoadTracksResponse::empty()
    } else {
        LoadTracksResponse { load_type: LoadType::Search, data: LoadResultData::Search(results) }
    }
}

/// Whether a load answer found nothing, so the next source is tried.
pub fn is_empty_result(r: &LoadTracksResponse) -> (empty: bool)
    ensures
        empty == (r.load_type == LoadType::Empty),
{
    match r.load_type {
        LoadType::Empty => true,
        _ => false,
    }
}

/// A term update changes no other term's route.
proof fn lemma_term_value_update(m: Seq<(String, String)>, i: int, x: (String, String), t: Seq<
    char,
>)
    requires
        0 <= i < m.len(),
        x.0@ == m[i].0@,
        t != x.0@,
    ensures
        term_value(m.update(i, x), t) == term_value(m, t),
    decreases m.len(),
{
    let m2 = m.update(i, x);
    lemma_find_term(m, t);
    lemma_find_term(m2, t);
    match find_term(m, t) {
        Some(k) => {
            assert(m2[k] == m[k]);
            assert forall|j: int| 0 <= j < k implies m2[j].0@ != t by {
                lemma_find_term(m, t);
                if j == i {
                } else {
                    assert(m2[j] == m[j]);
                }
                assert(m[j].0@ != t) by {
                    lemma_find_term_prefix(m, t, k, j);
                }
            }
            lemma_find_term_first(m2, t, k);
            assert(m2[k].1@ == m[k].1@);
        },
        None => {
            match find_term(m2, t) {
                Some(k) => {
                    assert(m2[k].0@ == t);
                    if k == i {
                    } else {
                        assert(m2[k] == m[k]);
                    }
                },
                None => {},
            }
        },
    }
}

/// Entries before the found index do not carry the term.
proof fn lemma_find_term_prefix(m: Seq<(String, String)>, t: Seq<char>, k: int, j: int)
    requires
        find_term(m, t) == Some(k),
        0 <= j < k,
    ensures
        m[j].0@ != t,
    decreases m.len(),
{
    lemma_find_term(m, t);
    if j == 0 {
        assert(m[0].0@ != t);
    } else {
        assert(find_term(m.drop_first(), t) == Some(k - 1));
        lemma_find_term_prefix(m.drop_first(), t, k - 1, j - 1);
        assert(m.drop_first()[j - 1] == m[j]);
    }
}

/// A pushed term changes no other term's route.
proof fn lemma_term_value_push(m: Seq<(String, String)>, x: (String, String), t: Seq<char>)
    requires
        t != x.0@,
    ensures
        term_value(m.push(x), t) == term_value(m, t),
    decreases m.len(),
{
    let m2 = m.push(x);
    lemma_find_term(m, t);
    match find_term(m, t) {
        Some(k) => {
            assert(m2[k] == m[k]);
            assert forall|j: int| 0 <= j < k implies m2[j].0@ != t by {
                lemma_find_term_prefix(m, t, k, j);
                assert(m2[j] == m[j]);
            }
            lemma_find_term_first(m2, t, k);
        },
        None => {
            lemma_find_term(m2, t);
            match find_term(m2, t) {
                Some(k) => {
                    assert(m2[k].0@ == t);
                    if k < m.len() {
                        assert(m2[k] == m[k]);
                    }
                },
                None => {},
            }
        },
    }
}

} // verus!
