//! Rule-based relation extraction from subject-anchored statements.
//!
//! Patterns are deliberately narrow: "Atlas uses PostgreSQL" yields
//! USES; everything ambiguous is skipped. Wrong edges poison graph
//! traversal, so precision beats recall here.
use crate::error::MemoryResult;
use crate::graph::{self, EntityKey, Relation, RelationView};
use crate::id::MemoryId;
use crate::subject::{self, MemorySubject};
use crate::text;
use vstd::prelude::*;
use vstd::string::*;

verus! {

/// First position at or after `from` where `needle` occurs in `hay`.
pub open spec fn first_at(hay: Seq<char>, needle: Seq<char>, from: int) -> Option<int>
    decreases hay.len() + 1 - from,
{
    if from < 0 || from + needle.len() > hay.len() {
        None
    } else if text::occurs_at(hay, needle, from) {
        Some(from)
    } else {
        first_at(hay, needle, from + 1)
    }
}

/// First index in `[i, end)` that is not whitespace, or `end`.
pub open spec fn skip_ws(s: Seq<char>, i: int, end: int) -> int
    decreases end - i,
{
    if i < end && text::is_ws(s[i]) {
        skip_ws(s, i + 1, end)
    } else {
        i
    }
}

/// First index in `[i, end)` that is whitespace, or `end`.
pub open spec fn word_stop(s: Seq<char>, i: int, end: int) -> int
    decreases end - i,
{
    if i < end && !text::is_ws(s[i]) {
        word_stop(s, i + 1, end)
    } else {
        i
    }
}

/// First index in `[i, end)` holding an alphanumeric character, or `end`.
pub open spec fn skip_non_alnum(s: Seq<char>, i: int, end: int) -> int
    decreases end - i,
{
    if i < end && !text::char_alnum(s[i]) {
        skip_non_alnum(s, i + 1, end)
    } else {
        i
    }
}

/// End of `s[lo..j]` once trailing non-alphanumeric characters are dropped.
pub open spec fn back_non_alnum(s: Seq<char>, lo: int, j: int) -> int
    decreases j - lo,
{
    if lo < j && !text::char_alnum(s[j - 1]) {
        back_non_alnum(s, lo, j - 1)
    } else {
        j
    }
}

/// The object named after `cue` in the padded text: the piece between
/// the first occurrence of the cue and the next one (or the end), its
/// first whitespace-separated word, stripped of non-alphanumeric
/// characters at both ends; absent when there is no such word or it is
/// shorter than two bytes.
pub open spec fn cue_object(p: Seq<char>, cue: Seq<char>) -> Option<Seq<char>> {
    match first_at(p, cue, 0) {
        None => None,
        Some(m) => {
            let start = m + cue.len();
            let end = match first_at(p, cue, start) {
                Some(m2) => m2,
                None => p.len() as int,
            };
            let a = skip_ws(p, start, end);
            let b = word_stop(p, a, end);
            if a == b {
                None
            } else {
                let lo = skip_non_alnum(p, a, b);
                let obj = p.subrange(lo, back_non_alnum(p, lo, b));
                if text::byte_len(obj) < 2 {
                    None
                } else {
                    Some(obj)
                }
            }
        },
    }
}

/// The relation a cue yields for a subject key, if any: an edge from the
/// subject to the cue's object, kept only when it is a valid relation.
pub open spec fn cue_relation(evidence: MemoryId, key: Seq<char>, p: Seq<char>, cue: Seq<char>, rel: Seq<char>) -> Option<
    RelationView,
> {
    match cue_object(p, cue) {
        None => None,
        Some(obj) => {
            let to = text::trim_spec(obj);
            if graph::relation_problem(key, rel, to) is Some {
                None
            } else {
                Some(RelationView { evidence, from: key, relation_type: text::str_uppercase(rel), to })
            }
        },
    }
}

/// Appends the relation, if there is one.
pub open spec fn push_opt(s: Seq<RelationView>, o: Option<RelationView>) -> Seq<RelationView> {
    match o {
        Some(r) => s.push(r),
        None => s,
    }
}

/// The text lowercased and padded with one space on each side.
pub open spec fn padded_lower(t: Seq<char>) -> Seq<char> {
    seq![' '] + text::str_lowercase(t) + seq![' ']
}

/// The relations extracted from `t` about the subject with key `key`,
/// one per matching cue, in cue order: uses, runs on, owned by,
/// deployed to, hosted in.
pub open spec fn extract_spec(evidence: MemoryId, key: Seq<char>, t: Seq<char>) -> Seq<RelationView> {
    let p = padded_lower(t);
    let s0 = push_opt(Seq::empty(), cue_relation(evidence, key, p, " uses "@, "USES"@));
    let s1 = push_opt(s0, cue_relation(evidence, key, p, " runs on "@, "RUNS_ON"@));
    let s2 = push_opt(s1, cue_relation(evidence, key, p, " owned by "@, "OWNED_BY"@));
    let s3 = push_opt(s2, cue_relation(evidence, key, p, " deployed to "@, "DEPLOYED_TO"@));
    push_opt(s3, cue_relation(evidence, key, p, " hosted in "@, "HOSTED_IN"@))
}

proof fn lemma_first_at_bounds(hay: Seq<char>, needle: Seq<char>, from: int)
    ensures
        first_at(hay, needle, from) matches Some(m) ==> from <= m && m + needle.len() <= hay.len()
            && text::occurs_at(hay, needle, m),
    decreases hay.len() + 1 - from,
{
    if !(from < 0 || from + needle.len() > hay.len()) && !text::occurs_at(hay, needle, from) {
        lemma_first_at_bounds(hay, needle, from + 1);
    }
}

fn find_from(hay: &Vec<char>, needle: &Vec<char>, from: usize) -> (r: Option<usize>)
    ensures
        match r {
            Some(m) => first_at(hay@, needle@, from as int) == Some(m as int) && from <= m && m
                + needle@.len() <= hay@.len(),
            None => first_at(hay@, needle@, from as int) is None,
        },
{
    proof {
        lemma_first_at_bounds(hay@, needle@, from as int);
    }
    let n = needle.len();
    if n > hay.len() {
        return None;
    }
    let limit = hay.len() - n;
    if from > limit {
        return None;
    }
    let mut i = from;
    while i < limit
        invariant
            n == needle@.len(),
            limit + n == hay@.len(),
            from <= i <= limit,
            first_at(hay@, needle@, from as int) == first_at(hay@, needle@, i as int),
        decreases limit - i,
    {
        if text::matches_at(hay, needle, i) {
            return Some(i);
        }
        i = i + 1;
    }
    if text::matches_at(hay, needle, i) {
        return Some(i);
    }
    assert(first_at(hay@, needle@, i + 1) is None);
    None
}

fn cue_object_of(p: &Vec<char>, cue: &str) -> (r: Option<String>)
    ensures
        subject::opt_seq(r) == cue_object(p@, cue@),
{
    let c = text::chars_of(cue);
    let n = c.len();
    let plen = p.len();
    let found = find_from(p, &c, 0);
    let m = match found {
        Some(m) => m,
        None => return None,
    };
    let start = m + n;
    let end = match find_from(p, &c, start) {
        Some(m2) => m2,
        None => plen,
    };
    let mut a = start;
    while a < end && text::char_is_whitespace(p[a])
        invariant
            start <= a <= end <= p@.len(),
            skip_ws(p@, start as int, end as int) == skip_ws(p@, a as int, end as int),
        decreases end - a,
    {
        a = a + 1;
    }
    let mut b = a;
    while b < end && !text::char_is_whitespace(p[b])
        invariant
            a <= b <= end <= p@.len(),
            word_stop(p@, a as int, end as int) == word_stop(p@, b as int, end as int),
        decreases end - b,
    {
        b = b + 1;
    }
    if a == b {
        return None;
    }
    let mut lo = a;
    while lo < b && !text::char_is_alphanumeric(p[lo])
        invariant
            a <= lo <= b <= p@.len(),
            skip_non_alnum(p@, a as int, b as int) == skip_non_alnum(p@, lo as int, b as int),
        decreases b - lo,
    {
        lo = lo + 1;
    }
    let mut hi = b;
    while hi > lo && !text::char_is_alphanumeric(p[hi - 1])
        invariant
            lo <= hi <= b <= p@.len(),
            back_non_alnum(p@, lo as int, b as int) == back_non_alnum(p@, lo as int, hi as int),
        decreases hi - lo,
    {
        hi = hi - 1;
    }
    let obj = text::string_from_range(p, lo, hi);
    if obj.as_str().len() < 2 {
        return None;
    }
    Some(obj)
}

/// Pattern-based extractor: the sentence must name a cue verb phrase,
/// with the object following the cue.
#[derive(Debug)]
pub struct RuleBasedRelationExtractor;

impl RuleBasedRelationExtractor {
    /// Human-readable name for logs.
    pub fn name(&self) -> (n: &'static str)
        ensures
            n@ == "rule-based"@,
    {
        "rule-based"
    }

    fn try_cue(
        out: &mut Vec<Relation>,
        evidence: MemoryId,
        subject: &MemorySubject,
        p: &Vec<char>,
        cue: &str,
        rel: &str,
    )
        ensures
            graph::relation_views(final(out)@) == push_opt(
                graph::relation_views(old(out)@),
                cue_relation(evidence, subject.key(), p@, cue@, rel@),
            ),
    {
        let ghost o0 = graph::relation_views(out@);
        match cue_object_of(p, cue) {
            None => {},
            Some(object) => {
                let from = EntityKey::from_subject(subject);
                let to = EntityKey::new(None, object.as_str());
                match Relation::new(evidence, from, rel, to) {
                    Ok(relation) => {
                        out.push(relation);
                        assert(graph::relation_views(out@) =~= o0.push(relation@));
                    },
                    Err(_) => {},
                }
            },
        }
    }

    /// Extracts candidate relations justified by one canonical memory,
    /// one per cue found, in cue order; extraction never fails.
    pub fn extract(&self, evidence: MemoryId, subject: &MemorySubject, t: &str) -> (r: MemoryResult<
        Vec<Relation>,
    >)
        ensures
            r matches Ok(v) && graph::relation_views(v@) == extract_spec(evidence, subject.key(), t@),
    {
        let lower = text::lowercase(t);
        let padded = text::concat3(" ", lower.as_str(), " ");
        proof {
            reveal_strlit(" ");
        }
        let p = text::chars_of(padded.as_str());
        assert(p@ =~= padded_lower(t@));
        let mut out: Vec<Relation> = Vec::new();
        assert(graph::relation_views(out@) =~= Seq::<RelationView>::empty());
        RuleBasedRelationExtractor::try_cue(&mut out, evidence, subject, &p, " uses ", "USES");
        RuleBasedRelationExtractor::try_cue(&mut out, evidence, subject, &p, " runs on ", "RUNS_ON");
        RuleBasedRelationExtractor::try_cue(&mut out, evidence, subject, &p, " owned by ", "OWNED_BY");
        RuleBasedRelationExtractor::try_cue(&mut out, evidence, subject, &p, " deployed to ", "DEPLOYED_TO");
        RuleBasedRelationExtractor::try_cue(&mut out, evidence, subject, &p, " hosted in ", "HOSTED_IN");
        Ok(out)
    }
}

/// Every extracted relation starts at the subject and is justified by
/// the given evidence; at most one relation comes from each cue.
pub proof fn lemma_extracted_relations_are_anchored(evidence: MemoryId, key: Seq<char>, t: Seq<char>)
    ensures
        extract_spec(evidence, key, t).len() <= 5,
        forall|i: int|
            0 <= i < extract_spec(evidence, key, t).len() ==> (#[trigger] extract_spec(evidence, key, t)[i]).from
                == key && extract_spec(evidence, key, t)[i].evidence == evidence
                && extract_spec(evidence, key, t)[i].to != key,
{
}

} // verus!
