//! Compiled pattern sets: a list of regular expressions together with a
//! combined matcher, and the per-line matching that reports which patterns
//! fire, with the matched substring of each.

use vstd::prelude::*;

use crate::text::{find_first, first_occ_from, lemma_first_occ_exists, occurs_at};

verus! {

#[verifier::external_type_specification]
#[verifier::external_body]
pub struct ExRegex(regex::Regex);

#[verifier::external_type_specification]
#[verifier::external_body]
pub struct ExRegexSet(regex::RegexSet);

/// Whether a pattern is accepted by the regular-expression engine: the
/// outcome of `regex::Regex::new` on it, a condition of the pattern text
/// alone.
pub uninterp spec fn regex_ok(pat: Seq<char>) -> bool;

/// The engine's leftmost match of `pat` within `hay`: `None` when the
/// pattern does not match, otherwise the matched substring. This is the
/// result of `regex::Regex::find`, which depends on the pattern and the
/// haystack alone.
pub uninterp spec fn find_str(pat: Seq<char>, hay: Seq<char>) -> Option<Seq<char>>;

/// Whether the engine accepts a whole pattern list as one combined set: the
/// outcome of `regex::RegexSet::new` on it, a condition of the pattern
/// texts alone. Every pattern being individually valid does not settle
/// this: the engine also budgets the compiled size of the set as a whole,
/// so it can refuse a list of patterns each of which it accepts alone.
pub uninterp spec fn set_ok(pats: Seq<Seq<char>>) -> bool;

/// The pattern matches somewhere in the haystack.
pub open spec fn matched(pat: Seq<char>, hay: Seq<char>) -> bool {
    find_str(pat, hay) is Some
}

/// The views of a list of strings.
pub open spec fn views_of(ss: Seq<String>) -> Seq<Seq<char>> {
    ss.map_values(|s: String| s@)
}

/// One compiled pattern, keeping the text it was compiled from.
struct Pattern {
    source: String,
    re: regex::Regex,
}

impl View for Pattern {
    type V = Seq<char>;

    closed spec fn view(&self) -> Seq<char> {
        self.source@
    }
}

/// Relies on `regex::Regex::new`: it returns `Ok` exactly when the pattern
/// is a valid regular expression (under the engine's default configuration).
/// The compiled value is paired here with its source text; the other trusted
/// items of this module speak of a `Pattern` through that pairing.
#[verifier::external_body]
fn compile_pattern(text: &str) -> (r: Option<Pattern>)
    ensures
        r is Some <==> regex_ok(text@),
        r is Some ==> r.unwrap()@ == text@,
{
    match regex::Regex::new(text) {
        Ok(re) => Some(Pattern { source: text.to_string(), re }),
        Err(_) => None,
    }
}

/// Relies on `regex::Regex::find`: the leftmost match is present exactly
/// when the pattern matches the haystack, and `Match::as_str` is the matched
/// slice of the haystack, so the returned text stands somewhere within it.
#[verifier::external_body]
fn find_match(p: &Pattern, hay: &str) -> (r: Option<String>)
    ensures
        r is Some <==> matched(p@, hay@),
        r is Some ==> r.unwrap()@ == find_str(p@, hay@).unwrap(),
        r is Some ==> exists|w: int| occurs_at(hay@, r.unwrap()@, w),
{
    p.re.find(hay).map(|m| m.as_str().to_string())
}

/// A failed compilation: either the position and text of the first pattern
/// the engine refused on its own, or a list of individually valid patterns
/// that the engine refused to compile as one set (its combined-size budget).
#[derive(Debug)]
pub enum CompileError {
    InvalidPattern { index: usize, text: String },
    SetRefused,
}

/// An ordered list of compiled patterns with a combined matcher over all of
/// them. The view is the list of the pattern texts, in declaration order.
pub struct PatternSet {
    patterns: Vec<Pattern>,
    set: regex::RegexSet,
}

impl View for PatternSet {
    type V = Seq<Seq<char>>;

    closed spec fn view(&self) -> Seq<Seq<char>> {
        self.patterns@.map_values(|p: Pattern| p@)
    }
}

/// Relies on `regex::RegexSet::new`: its verdict is a function of the
/// pattern texts alone, named `set_ok`; it errs on any individually invalid
/// pattern (so success implies every pattern compiles alone), and it can
/// also err when the combined set exceeds the engine's size budget even
/// though every pattern is valid alone. The set is paired here with the
/// patterns it was built from.
#[verifier::external_body]
fn build_pattern_set(patterns: Vec<Pattern>) -> (r: Option<PatternSet>)
    ensures
        r is Some <==> set_ok(patterns@.map_values(|p: Pattern| p@)),
        r is Some ==> r.unwrap()@ == patterns@.map_values(|p: Pattern| p@),
        r is Some ==> (forall|i: int|
            0 <= i < patterns@.len() ==> regex_ok(#[trigger] patterns@[i]@)),
{
    match regex::RegexSet::new(patterns.iter().map(|p| p.source.as_str())) {
        Ok(set) => Some(PatternSet { patterns, set }),
        Err(_) => None,
    }
}

/// Relies on `regex::RegexSet::matches` and `SetMatches::iter`: the reported
/// indices are exactly those of the patterns that match the haystack — the
/// same patterns whose individual matcher finds a match — iterated in
/// ascending order.
#[verifier::external_body]
fn set_match_indices(ps: &PatternSet, hay: &str) -> (r: Vec<usize>)
    ensures
        forall|k: int|
            0 <= k < r@.len() ==> (#[trigger] r@[k]) < ps@.len() && matched(
                ps@[r@[k] as int],
                hay@,
            ),
        forall|k1: int, k2: int|
            0 <= k1 < k2 < r@.len() ==> #[trigger] r@[k1] < #[trigger] r@[k2],
        forall|i: int|
            0 <= i < ps@.len() && matched(#[trigger] ps@[i], hay@) ==> exists|k: int|
                0 <= k < r@.len() && (#[trigger] r@[k]) as int == i,
{
    ps.set.matches(hay).iter().collect()
}

/// The indices of the patterns, from position `k` on, that match `hay`, in
/// declaration order.
pub open spec fn fired_from(pats: Seq<Seq<char>>, hay: Seq<char>, k: int) -> Seq<int>
    decreases pats.len() - k,
{
    if !(0 <= k < pats.len()) {
        Seq::empty()
    } else if matched(pats[k], hay) {
        seq![k] + fired_from(pats, hay, k + 1)
    } else {
        fired_from(pats, hay, k + 1)
    }
}

/// The indices of the patterns that match `hay`, in declaration order.
pub open spec fn fired(pats: Seq<Seq<char>>, hay: Seq<char>) -> Seq<int> {
    fired_from(pats, hay, 0)
}

/// The firing indices are exactly the indices of the patterns that
/// individually match, each listed once, in ascending declaration order;
/// when no pattern matches, the list is empty.
pub proof fn lemma_fired_exact(pats: Seq<Seq<char>>, hay: Seq<char>, k: int)
    requires
        0 <= k,
    ensures
        forall|j: int|
            0 <= j < fired_from(pats, hay, k).len() ==> k <= #[trigger] fired_from(
                pats,
                hay,
                k,
            )[j] < pats.len() && matched(pats[fired_from(pats, hay, k)[j]], hay),
        forall|j1: int, j2: int|
            0 <= j1 < j2 < fired_from(pats, hay, k).len() ==> #[trigger] fired_from(
                pats,
                hay,
                k,
            )[j1] < #[trigger] fired_from(pats, hay, k)[j2],
        forall|i: int|
            k <= i < pats.len() && matched(#[trigger] pats[i], hay) ==> fired_from(
                pats,
                hay,
                k,
            ).contains(i),
        (forall|i: int| k <= i < pats.len() ==> !matched(#[trigger] pats[i], hay))
            ==> fired_from(pats, hay, k).len() == 0,
    decreases pats.len() - k,
{
    if !(0 <= k < pats.len()) {
    } else {
        lemma_fired_exact(pats, hay, k + 1);
        let rest = fired_from(pats, hay, k + 1);
        if matched(pats[k], hay) {
            let whole = seq![k] + rest;
            assert(fired_from(pats, hay, k) == whole);
            assert forall|i: int|
                k <= i < pats.len() && matched(#[trigger] pats[i], hay) implies fired_from(
                pats,
                hay,
                k,
            ).contains(i) by {
                if i == k {
                    assert(whole[0] == k);
                } else {
                    assert(rest.contains(i));
                    let j = choose|j: int| 0 <= j < rest.len() && rest[j] == i;
                    assert(whole[j + 1] == i);
                }
            }
        } else {
            assert forall|i: int|
                k <= i < pats.len() && matched(#[trigger] pats[i], hay) implies fired_from(
                pats,
                hay,
                k,
            ).contains(i) by {
                assert(rest.contains(i));
            }
        }
    }
}

/// Any list of indices that is ascending, holds only firing indices at or
/// after `k`, and holds every firing index at or after `k`, is `fired_from`
/// itself.
proof fn lemma_fired_unique(pats: Seq<Seq<char>>, hay: Seq<char>, s: Seq<int>, k: int)
    requires
        0 <= k <= pats.len(),
        forall|j: int|
            0 <= j < s.len() ==> k <= #[trigger] s[j] < pats.len() && matched(pats[s[j]], hay),
        forall|j1: int, j2: int| 0 <= j1 < j2 < s.len() ==> #[trigger] s[j1] < #[trigger] s[j2],
        forall|i: int|
            k <= i < pats.len() && matched(#[trigger] pats[i], hay) ==> s.contains(i),
    ensures
        s == fired_from(pats, hay, k),
    decreases pats.len() - k,
{
    if k == pats.len() {
        assert(s.len() == 0) by {
            if s.len() > 0 {
                assert(k <= s[0] < pats.len());
            }
        }
        assert(s =~= fired_from(pats, hay, k));
    } else if matched(pats[k], hay) {
        assert(s.contains(k));
        let j0 = choose|j: int| 0 <= j < s.len() && s[j] == k;
        assert(j0 == 0) by {
            if j0 > 0 {
                assert(s[0] < s[j0]);
            }
        }
        let t = s.subrange(1, s.len() as int);
        assert forall|i: int|
            k + 1 <= i < pats.len() && matched(#[trigger] pats[i], hay) implies t.contains(
            i,
        ) by {
            assert(s.contains(i));
            let j = choose|j: int| 0 <= j < s.len() && s[j] == i;
            assert(j > 0) by {
                assert(s[0] == k);
            }
            assert(t[j - 1] == i);
        }
        lemma_fired_unique(pats, hay, t, k + 1);
        assert(s =~= seq![k] + t);
    } else {
        assert forall|j: int| 0 <= j < s.len() implies k + 1 <= #[trigger] s[j] by {
            if s[j] == k {
                assert(matched(pats[k], hay));
            }
        }
        lemma_fired_unique(pats, hay, s, k + 1);
    }
}

/// One firing pattern on one line: the pattern's position in the set, the
/// substring its matcher found, and the position of the first occurrence of
/// that substring in the line.
pub struct MatchEvent {
    pub index: usize,
    pub text: String,
    pub start: usize,
}

impl PatternSet {
    /// How many patterns the set holds.
    pub fn len(&self) -> (r: usize)
        ensures
            r == self@.len(),
    {
        self.patterns.len()
    }

    /// Compiles a list of pattern texts into a set. On the first text the
    /// engine refuses on its own, fails with its position and text; on a
    /// list of individually valid texts the engine refuses as one set,
    /// fails with `SetRefused`. No set is produced on failure.
    pub fn compile(inputs: &Vec<String>) -> (r: Result<PatternSet, CompileError>)
        requires
            inputs@.len() > 0,
        ensures
            r is Ok ==> set_ok(views_of(inputs@)),
            ((forall|i: int| 0 <= i < inputs@.len() ==> regex_ok(#[trigger] inputs@[i]@))
                && set_ok(views_of(inputs@))) ==> r is Ok,
            r matches Ok(ps) ==> ps@ == views_of(inputs@) && (forall|i: int|
                0 <= i < inputs@.len() ==> regex_ok(#[trigger] inputs@[i]@)),
            r matches Err(CompileError::InvalidPattern { index, text }) ==> (index as int)
                < inputs@.len() && !regex_ok(inputs@[index as int]@) && text@
                == inputs@[index as int]@ && (forall|j: int|
                0 <= j < index ==> regex_ok(#[trigger] inputs@[j]@)),
            r matches Err(CompileError::SetRefused) ==> !set_ok(views_of(inputs@)) && (forall|
                i: int,
            | 0 <= i < inputs@.len() ==> regex_ok(#[trigger] inputs@[i]@)),
            (exists|i: int| 0 <= i < inputs@.len() && !regex_ok(#[trigger] inputs@[i]@))
                ==> (r matches Err(e) && e is InvalidPattern),
    {
        let n: usize = inputs.len();
        let mut pats: Vec<Pattern> = Vec::new();
        let mut i: usize = 0;
        while i < n
            invariant
                0 <= i <= n,
                n == inputs@.len(),
                pats@.len() == i,
                forall|j: int| 0 <= j < i ==> (#[trigger] pats@[j]@) == inputs@[j]@,
                forall|j: int| 0 <= j < i ==> regex_ok(#[trigger] inputs@[j]@),
            decreases n - i,
        {
            match compile_pattern(inputs[i].as_str()) {
                Some(p) => {
                    pats.push(p);
                },
                None => {
                    return Err(CompileError::InvalidPattern { index: i, text: inputs[i].clone() });
                },
            }
            i += 1;
        }
        proof {
            assert(pats@.map_values(|p: Pattern| p@) =~= views_of(inputs@));
        }
        match build_pattern_set(pats) {
            Some(ps) => {
                proof {
                    assert(ps@ =~= views_of(inputs@));
                }
                Ok(ps)
            },
            None => Err(CompileError::SetRefused),
        }
    }

    /// Applies every pattern to one line: one event per firing pattern, in
    /// declaration order, with the substring the pattern's own matcher
    /// found and the position of its first occurrence in the line.
    pub fn match_line(&self, line: &str) -> (r: Vec<MatchEvent>)
        ensures
            r@.len() == fired(self@, line@).len(),
            forall|k: int|
                0 <= k < r@.len() ==> ((#[trigger] r@[k]).index as int) == fired(
                    self@,
                    line@,
                )[k] && (r@[k].index as int) < self@.len(),
            forall|k: int|
                0 <= k < r@.len() ==> (#[trigger] r@[k]).text@ == find_str(
                    self@[r@[k].index as int],
                    line@,
                ).unwrap(),
            forall|k: int|
                0 <= k < r@.len() ==> Some((#[trigger] r@[k]).start as int) == first_occ_from(
                    line@,
                    r@[k].text@,
                    0,
                ),
    {
        let idxs = set_match_indices(self, line);
        let ghost s: Seq<int> = Seq::new(idxs@.len(), |k: int| idxs@[k] as int);
        proof {
            assert forall|i: int|
                0 <= i < self@.len() && matched(#[trigger] self@[i], line@) implies s.contains(
                i,
            ) by {
                let k = choose|k: int| 0 <= k < idxs@.len() && (idxs@[k] as int) == i;
                assert(s[k] == i);
            }
            lemma_fired_unique(self@, line@, s, 0);
        }
        let n: usize = idxs.len();
        let mut out: Vec<MatchEvent> = Vec::new();
        let mut k: usize = 0;
        while k < n
            invariant
                0 <= k <= n,
                n == idxs@.len(),
                s == fired(self@, line@),
                s == Seq::new(idxs@.len(), |k: int| idxs@[k] as int),
                self.patterns@.len() == self@.len(),
                forall|j: int|
                    0 <= j < idxs@.len() ==> ((#[trigger] idxs@[j]) as int) < self@.len()
                        && matched(self@[idxs@[j] as int], line@),
                out@.len() == k,
                forall|j: int| 0 <= j < k ==> (#[trigger] out@[j]).index == idxs@[j],
                forall|j: int|
                    0 <= j < k ==> (#[trigger] out@[j]).text@ == find_str(
                        self@[out@[j].index as int],
                        line@,
                    ).unwrap(),
                forall|j: int|
                    0 <= j < k ==> Some((#[trigger] out@[j]).start as int) == first_occ_from(
                        line@,
                        out@[j].text@,
                        0,
                    ),
            decreases n - k,
        {
            let i: usize = idxs[k];
            proof {
                assert(self.patterns@[i as int]@ == self@[i as int]);
            }
            let m = find_match(&self.patterns[i], line);
            let text = m.unwrap();
            proof {
                let w = choose|w: int| occurs_at(line@, text@, w);
                lemma_first_occ_exists(line@, text@, w);
            }
            let st = find_first(line, text.as_str());
            let start = st.unwrap();
            out.push(MatchEvent { index: i, text, start });
            k += 1;
        }
        out
    }
}

} // verus!
