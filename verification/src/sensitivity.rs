//! Sensitivity tiers and rule-based tier assignment.
use crate::record::MemoryRecord;
use crate::split::views;
use crate::text;
use vstd::prelude::*;
use vstd::string::*;

verus! {

/// Sensitivity tiers, lowest to highest.
#[derive(Clone, Copy, Debug, PartialEq, Eq, Structural, PartialOrd, Ord, Hash)]
pub enum Sensitivity {
    Public,
    Internal,
    Confidential,
    Restricted,
}

/// Position of a tier in the order, lowest first.
pub open spec fn tier_rank(s: Sensitivity) -> int {
    match s {
        Sensitivity::Public => 0,
        Sensitivity::Internal => 1,
        Sensitivity::Confidential => 2,
        Sensitivity::Restricted => 3,
    }
}

fn rank(s: Sensitivity) -> (r: u8)
    ensures
        r == tier_rank(s),
{
    match s {
        Sensitivity::Public => 0,
        Sensitivity::Internal => 1,
        Sensitivity::Confidential => 2,
        Sensitivity::Restricted => 3,
    }
}

impl Sensitivity {
    /// Whether a principal cleared up to `clearance` may see data of
    /// this tier: the clearance must be at least this tier.
    pub fn permits(&self, clearance: &Sensitivity) -> (b: bool)
        ensures
            b == (tier_rank(*clearance) >= tier_rank(*self)),
    {
        rank(*clearance) >= rank(*self)
    }
}

/// Clearance is monotone: every tier permits itself, a clearance that
/// permits a tier permits every lower tier, the top clearance permits
/// everything, and public data is open to every clearance.
pub proof fn lemma_clearance_order(a: Sensitivity, b: Sensitivity, c: Sensitivity)
    ensures
        tier_rank(a) >= tier_rank(a),
        tier_rank(c) >= tier_rank(b) && tier_rank(b) >= tier_rank(a) ==> tier_rank(c) >= tier_rank(a),
        tier_rank(Sensitivity::Restricted) >= tier_rank(a),
        tier_rank(a) >= tier_rank(Sensitivity::Public),
        tier_rank(a) == tier_rank(b) ==> a == b,
{
}

/// Some term of `terms` occurs in `l`.
pub open spec fn mentions_any(l: Seq<char>, terms: Seq<Seq<char>>) -> bool {
    exists|i: int| 0 <= i < terms.len() && text::contains_spec(l, #[trigger] terms[i])
}

/// The tier for a text given the two vocabularies: restricted terms
/// first, then confidential ones, otherwise internal.
pub open spec fn tier_of(t: Seq<char>, restricted: Seq<Seq<char>>, confidential: Seq<Seq<char>>) -> Sensitivity {
    let l = text::str_lowercase(t);
    if mentions_any(l, restricted) {
        Sensitivity::Restricted
    } else if mentions_any(l, confidential) {
        Sensitivity::Confidential
    } else {
        Sensitivity::Internal
    }
}

/// Rule-based tier assignment. Defaults are conservative: anything
/// mentioning credentials, keys or personal data cues lands at
/// confidential or above; everything else is internal.
#[derive(Debug)]
pub struct SensitivityClassifier {
    pub restricted_terms: Vec<String>,
    pub confidential_terms: Vec<String>,
}

/// Views of string slices.
pub open spec fn str_views(items: Seq<&str>) -> Seq<Seq<char>> {
    items.map_values(|s: &str| s@)
}

fn strings(items: &Vec<&str>) -> (v: Vec<String>)
    ensures
        views(v@) == str_views(items@),
{
    let mut v: Vec<String> = Vec::new();
    let mut i: usize = 0;
    while i < items.len()
        invariant
            i <= items@.len(),
            views(v@) == str_views(items@.take(i as int)),
        decreases items@.len() - i,
    {
        let ghost v0 = views(v@);
        v.push(String::from_str(items[i]));
        assert(views(v@) =~= v0.push(items@[i as int]@));
        assert(str_views(items@.take(i + 1)) =~= str_views(items@.take(i as int)).push(items@[i as int]@));
        i = i + 1;
    }
    assert(items@.take(items@.len() as int) =~= items@);
    v
}

impl Default for SensitivityClassifier {
    fn default() -> (c: Self)
        ensures
            views(c.restricted_terms@) == seq!["secret"@, "password"@, "private key"@, "seed phrase"@],
            views(c.confidential_terms@) == seq!["credential"@, "token"@, "api key"@, "ssn"@, "salary"@],
    {
        let r = vec!["secret", "password", "private key", "seed phrase"];
        let c = vec!["credential", "token", "api key", "ssn", "salary"];
        let restricted_terms = strings(&r);
        let confidential_terms = strings(&c);
        assert(str_views(r@) =~= seq!["secret"@, "password"@, "private key"@, "seed phrase"@]);
        assert(str_views(c@) =~= seq!["credential"@, "token"@, "api key"@, "ssn"@, "salary"@]);
        SensitivityClassifier { restricted_terms, confidential_terms }
    }
}

fn any_term(lower: &str, terms: &Vec<String>) -> (b: bool)
    ensures
        b == mentions_any(lower@, views(terms@)),
{
    let mut i: usize = 0;
    while i < terms.len()
        invariant
            i <= terms@.len(),
            forall|k: int| 0 <= k < i ==> !text::contains_spec(lower@, #[trigger] views(terms@)[k]),
        decreases terms@.len() - i,
    {
        if text::contains(lower, terms[i].as_str()) {
            assert(views(terms@)[i as int] == terms@[i as int]@);
            return true;
        }
        assert(views(terms@)[i as int] == terms@[i as int]@);
        i = i + 1;
    }
    false
}

impl SensitivityClassifier {
    /// Name for logs.
    pub fn name(&self) -> (n: &'static str)
        ensures
            n@ == "rule-based"@,
    {
        "rule-based"
    }

    /// Assigns a tier to a record from its text.
    pub fn classify(&self, record: &MemoryRecord) -> (s: Sensitivity)
        ensures
            s == tier_of(record.content.text@, views(self.restricted_terms@), views(self.confidential_terms@)),
    {
        let lower = text::lowercase(record.content.text.as_str());
        if any_term(lower.as_str(), &self.restricted_terms) {
            return Sensitivity::Restricted;
        }
        if any_term(lower.as_str(), &self.confidential_terms) {
            return Sensitivity::Confidential;
        }
        Sensitivity::Internal
    }
}

/// Classification never lands below internal, and restricted cues win
/// over confidential ones.
pub proof fn lemma_tier_floor(t: Seq<char>, restricted: Seq<Seq<char>>, confidential: Seq<Seq<char>>)
    ensures
        tier_rank(tier_of(t, restricted, confidential)) >= tier_rank(Sensitivity::Internal),
        mentions_any(text::str_lowercase(t), restricted) ==> tier_of(t, restricted, confidential)
            == Sensitivity::Restricted,
{
}

} // verus!
