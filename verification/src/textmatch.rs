//! Line filtering against a set of patterns. The pattern language and the
//! match decision belong to the regex engine; this module pins down
//! everything around them — which lines survive a filter, in which order,
//! and when a pattern set is rejected.

use vstd::prelude::*;

verus! {

#[verifier::external_type_specification]
#[verifier::external_body]
pub struct ExRegexSet(regex::RegexSet);

/// The patterns a compiled set holds, as text.
pub uninterp spec fn set_patterns(s: regex::RegexSet) -> Seq<Seq<char>>;

/// The case mode a compiled set was built with.
pub uninterp spec fn set_case_mode(s: regex::RegexSet) -> bool;

/// Whether a set of patterns compiles under the given case mode; a pure
/// function of the patterns alone.
pub uninterp spec fn regex_patterns_valid(patterns: Seq<Seq<char>>, case_insensitive: bool) -> bool;

/// Whether any of the patterns matches the line under the given case mode;
/// a pure function of patterns, mode and line alone.
pub uninterp spec fn regex_set_matches(
    patterns: Seq<Seq<char>>,
    case_insensitive: bool,
    line: Seq<char>,
) -> bool;

/// One of the given patterns was rejected by the pattern engine.
#[derive(PartialEq, Eq, Structural, Clone, Copy, Debug)]
pub struct InvalidPattern;

/// Relies on regex::RegexSetBuilder::build: whether the patterns compile
/// depends on the patterns and the case mode alone, and the compiled set
/// holds exactly the patterns it was built from.
#[verifier::external_body]
fn build_pattern_set(patterns: &Vec<String>, case_insensitive: bool) -> (r: Result<
    regex::RegexSet,
    InvalidPattern,
>)
    ensures
        r is Ok <==> regex_patterns_valid(patterns.deep_view(), case_insensitive),
        r matches Ok(s) ==> set_patterns(s) == patterns.deep_view() && set_case_mode(s)
            == case_insensitive,
{
    match regex::RegexSetBuilder::new(patterns).case_insensitive(case_insensitive).build() {
        Ok(s) => Ok(s),
        Err(_) => Err(InvalidPattern),
    }
}

/// Relies on regex::RegexSet::is_match: whether any pattern of the set
/// matches depends on the set's patterns, its case mode and the line
/// alone.
#[verifier::external_body]
fn set_is_match(s: &regex::RegexSet, line: &str) -> (r: bool)
    ensures
        r == regex_set_matches(set_patterns(*s), set_case_mode(*s), line@),
{
    s.is_match(line)
}

/// Whether any of the patterns matches the line under the given case mode;
/// `None` exactly when some pattern does not compile.
pub fn matches_any(line: &str, patterns: &Vec<String>, case_insensitive: bool) -> (r: Option<
    bool,
>)
    ensures
        regex_patterns_valid(patterns.deep_view(), case_insensitive) ==> r == Some(
            regex_set_matches(patterns.deep_view(), case_insensitive, line@),
        ),
        !regex_patterns_valid(patterns.deep_view(), case_insensitive) ==> r is None,
{
    match build_pattern_set(patterns, case_insensitive) {
        Ok(s) => Some(set_is_match(&s, line)),
        Err(_) => None,
    }
}

/// Keep, in order, the lines some pattern matches. Fails exactly when a
/// pattern does not compile; then no line is kept.
pub fn filter_matching_lines(
    lines: &Vec<String>,
    patterns: &Vec<String>,
    case_insensitive: bool,
) -> (r: Result<Vec<String>, InvalidPattern>)
    ensures
        r is Ok <==> regex_patterns_valid(patterns.deep_view(), case_insensitive),
        r matches Ok(kept) ==> kept.deep_view() == lines.deep_view().filter(
            |l: Seq<char>| regex_set_matches(patterns.deep_view(), case_insensitive, l),
        ),
{
    let s = match build_pattern_set(patterns, case_insensitive) {
        Ok(s) => s,
        Err(e) => {
            return Err(e);
        },
    };
    let mut kept: Vec<String> = Vec::new();
    let mut i: usize = 0;
    proof {
        assert(lines.deep_view().take(0).filter(
            |l: Seq<char>| regex_set_matches(patterns.deep_view(), case_insensitive, l),
        ) =~= Seq::<Seq<char>>::empty());
    }
    while i < lines.len()
        invariant
            0 <= i <= lines@.len(),
            lines.deep_view().len() == lines@.len(),
            forall|t: int|
                0 <= t < lines@.len() ==> (#[trigger] lines@[t])@ == lines.deep_view()[t],
            set_patterns(s) == patterns.deep_view(),
            set_case_mode(s) == case_insensitive,
            kept.deep_view() == lines.deep_view().take(i as int).filter(
                |l: Seq<char>| regex_set_matches(patterns.deep_view(), case_insensitive, l),
            ),
        decreases lines@.len() - i,
    {
        let ghost prefix_next = lines.deep_view().take(i as int + 1);
        proof {
            assert(prefix_next.drop_last() =~= lines.deep_view().take(i as int));
            assert(prefix_next.last() == lines.deep_view()[i as int]);
            reveal(Seq::filter);
        }
        if set_is_match(&s, lines[i].as_str()) {
            let ghost old_kept = kept.deep_view();
            let line = lines[i].clone();
            let ghost lv = line@;
            kept.push(line);
            proof {
                assert(kept.deep_view() =~~= old_kept.push(lv));
            }
        }
        i += 1;
    }
    proof {
        assert(lines.deep_view().take(lines@.len() as int) =~= lines.deep_view());
    }
    Ok(kept)
}

} // verus!
