//! Transparent rule-based classification and extraction.
//!
//! Every rule is a readable pattern list: deterministic, auditable and
//! instant, the default when no model is available or wanted.
use crate::error::MemoryResult;
use crate::split::{self, views};
use crate::subject;
use crate::taxonomy::MemoryType;
use crate::text;
use vstd::prelude::*;
use vstd::string::*;

verus! {

/// Input to a classifier: what was observed and where it belongs.
#[derive(Debug)]
pub struct ClassifierInput {
    /// The text to classify.
    pub text: String,
    /// Optional caller hint; the classifier never overrides it.
    pub hinted_type: Option<MemoryType>,
    /// Free-form context (session summary, preceding turns).
    pub context: Option<String>,
}

impl ClassifierInput {
    /// Classify bare text.
    pub fn text(text: &str) -> (i: Self)
        ensures
            i.text@ == text@,
            i.hinted_type is None,
            i.context is None,
    {
        ClassifierInput { text: String::from_str(text), hinted_type: None, context: None }
    }
}

/// A classification decision.
#[derive(Debug)]
pub struct Classification {
    /// Chosen memory type.
    pub memory_type: MemoryType,
    /// Refined label ("preference", "commitment", ...), if confident.
    pub subtype: Option<String>,
    /// Certainty of the decision, in millionths.
    pub confidence: u32,
    /// Keywords worth indexing.
    pub keywords: Vec<String>,
}

impl Classification {
    /// Decision that defers entirely to caller-supplied structure.
    pub fn passthrough(memory_type: MemoryType) -> (c: Self)
        ensures
            c.memory_type == memory_type,
            c.subtype is None,
            c.confidence == 1_000_000,
            c.keywords@.len() == 0,
    {
        Classification { memory_type, subtype: None, confidence: 1_000_000, keywords: Vec::new() }
    }
}

/// One memory extracted from a larger text.
#[derive(Debug)]
pub struct ExtractedMemory {
    /// The distilled statement ("Customer prefers email").
    pub text: String,
    /// Suggested type for the extracted fact.
    pub memory_type: MemoryType,
    /// Optional refined label.
    pub subtype: Option<String>,
    /// Extractor's confidence in this extraction, in millionths.
    pub confidence: u32,
}

/// Pieces with more than three UTF-8 bytes, in order.
pub open spec fn long_pieces(p: Seq<Seq<char>>) -> Seq<Seq<char>>
    decreases p.len(),
{
    if p.len() == 0 {
        Seq::empty()
    } else {
        let r = long_pieces(p.drop_last());
        if text::byte_len(p.last()) > 3 {
            r.push(p.last())
        } else {
            r
        }
    }
}

/// Up to eight lowercase keyword tokens: the words (runs of
/// alphanumeric characters) of the lowercased text with more than three
/// bytes, in order.
pub open spec fn keywords_spec(text: Seq<char>) -> Seq<Seq<char>> {
    let l = long_pieces(split::split_by(text::str_lowercase(text), |c: char| split::word_sep(c)));
    if l.len() > 8 {
        l.take(8)
    } else {
        l
    }
}

/// Extracts up to 8 lowercase keyword tokens for indexing.
pub fn keywords(text: &str) -> (kws: Vec<String>)
    ensures
        views(kws@) == keywords_spec(text@),
{
    let lower = text::lowercase(text);
    let pieces = split::split_word_pieces(lower.as_str());
    let mut out: Vec<String> = Vec::new();
    let mut i: usize = 0;
    while i < pieces.len()
        invariant
            i <= pieces@.len(),
            views(out@) == long_pieces(views(pieces@).take(i as int)),
        decreases pieces@.len() - i,
    {
        let ghost prefix = views(pieces@).take(i as int);
        let ghost next = views(pieces@).take(i + 1);
        assert(next.drop_last() =~= prefix);
        let ghost o0 = views(out@);
        let p = pieces[i].clone();
        if p.as_str().len() > 3 {
            out.push(p);
            assert(views(out@) =~= o0.push(next.last()));
        }
        i = i + 1;
    }
    assert(views(pieces@).take(pieces@.len() as int) =~= views(pieces@));
    if out.len() > 8 {
        let ghost o0 = views(out@);
        out.truncate(8);
        assert(views(out@) =~= o0.take(8));
    }
    out
}

/// The text names a procedure.
pub open spec fn mentions_procedure(l: Seq<char>) -> bool {
    text::contains_spec(l, "how to deploy"@) || text::contains_spec(l, "steps to"@)
        || text::contains_spec(l, "procedure for"@) || text::contains_spec(l, "runbook"@)
}

/// The text states a commitment.
pub open spec fn mentions_commitment(l: Seq<char>) -> bool {
    text::contains_spec(l, "will send"@) || text::contains_spec(l, "needs to"@)
        || text::contains_spec(l, "must"@) || text::contains_spec(l, "deadline"@)
        || text::contains_spec(l, "by friday"@) || text::contains_spec(l, "follow up"@)
}

/// The text states a preference, by the built-in vocabulary or one of
/// the caller's terms.
pub open spec fn mentions_preference(l: Seq<char>, extra: Seq<String>) -> bool {
    text::contains_spec(l, "prefers"@) || text::contains_spec(l, "prefer"@)
        || text::contains_spec(l, "likes"@) || text::contains_spec(l, "dislikes"@)
        || text::contains_spec(l, "favorite"@) || exists|i: int|
        0 <= i < extra.len() && text::contains_spec(l, #[trigger] extra[i]@)
}

/// The rule cascade: the caller's hint wins (certainty 1.0); then
/// procedures (0.7), commitments (0.65), preferences (0.75); plain
/// statements are semantic with certainty 0.4.
pub open spec fn classify_rule(text: Seq<char>, hint: Option<MemoryType>, extra: Seq<String>) -> (
    MemoryType,
    Option<Seq<char>>,
    u32,
) {
    let l = text::str_lowercase(text);
    match hint {
        Some(t) => (t, None, 1_000_000),
        None => if mentions_procedure(l) {
            (MemoryType::Procedural, Some("how-to"@), 700_000)
        } else if mentions_commitment(l) {
            (MemoryType::Prospective, Some("commitment"@), 650_000)
        } else if mentions_preference(l, extra) {
            (MemoryType::Semantic, Some("preference"@), 750_000)
        } else {
            (MemoryType::Semantic, None, 400_000)
        },
    }
}

/// The decision a classification carries.
pub open spec fn decision_of(c: Classification) -> (MemoryType, Option<Seq<char>>, u32) {
    (c.memory_type, subject::opt_seq(c.subtype), c.confidence)
}

/// Rule-based classifier; the engine's zero-LLM default.
#[derive(Debug)]
pub struct RuleBasedClassifier {
    /// Extra caller-supplied patterns treated as preferences.
    pub preference_terms: Vec<String>,
}

fn any_term(lower: &str, terms: &Vec<String>) -> (b: bool)
    ensures
        b == exists|i: int| 0 <= i < terms@.len() && text::contains_spec(lower@, #[trigger] terms@[i]@),
{
    let mut i: usize = 0;
    while i < terms.len()
        invariant
            i <= terms@.len(),
            forall|k: int| 0 <= k < i ==> !text::contains_spec(lower@, #[trigger] terms@[k]@),
        decreases terms@.len() - i,
    {
        if text::contains(lower, terms[i].as_str()) {
            return true;
        }
        i = i + 1;
    }
    false
}

impl RuleBasedClassifier {
    /// A classifier with the built-in vocabulary only.
    pub fn new() -> (c: Self)
        ensures
            c.preference_terms@.len() == 0,
    {
        RuleBasedClassifier { preference_terms: Vec::new() }
    }

    /// Replaces the extra preference vocabulary with domain terms.
    pub fn with_preference_terms(self, terms: Vec<String>) -> (c: Self)
        ensures
            c.preference_terms@ == terms@,
    {
        RuleBasedClassifier { preference_terms: terms }
    }

    /// Human-readable name for logs.
    pub fn name(&self) -> (n: &'static str)
        ensures
            n@ == "rule-based"@,
    {
        "rule-based"
    }

    /// Classifies a text, honoring a caller hint.
    pub fn classify_text(&self, text: &str, hint: Option<MemoryType>) -> (c: Classification)
        ensures
            decision_of(c) == classify_rule(text@, hint, self.preference_terms@),
            views(c.keywords@) == keywords_spec(text@),
    {
        let kws = keywords(text);
        if let Some(t) = hint {
            return Classification { memory_type: t, subtype: None, confidence: 1_000_000, keywords: kws };
        }
        let lower = text::lowercase(text);
        let l = lower.as_str();
        if text::contains(l, "how to deploy") || text::contains(l, "steps to") || text::contains(
            l,
            "procedure for",
        ) || text::contains(l, "runbook") {
            return Classification {
                memory_type: MemoryType::Procedural,
                subtype: Some(String::from_str("how-to")),
                confidence: 700_000,
                keywords: kws,
            };
        }
        if text::contains(l, "will send") || text::contains(l, "needs to") || text::contains(
            l,
            "must",
        ) || text::contains(l, "deadline") || text::contains(l, "by friday") || text::contains(
            l,
            "follow up",
        ) {
            return Classification {
                memory_type: MemoryType::Prospective,
                subtype: Some(String::from_str("commitment")),
                confidence: 650_000,
                keywords: kws,
            };
        }
        if text::contains(l, "prefers") || text::contains(l, "prefer") || text::contains(l, "likes")
            || text::contains(l, "dislikes") || text::contains(l, "favorite") || any_term(
            l,
            &self.preference_terms,
        ) {
            return Classification {
                memory_type: MemoryType::Semantic,
                subtype: Some(String::from_str("preference")),
                confidence: 750_000,
                keywords: kws,
            };
        }
        Classification { memory_type: MemoryType::Semantic, subtype: None, confidence: 400_000, keywords: kws }
    }

    /// Classifies one input; rule-based classification never fails.
    pub fn classify(&self, input: &ClassifierInput) -> (r: MemoryResult<Classification>)
        ensures
            r matches Ok(c) && decision_of(c) == classify_rule(
                input.text@,
                input.hinted_type,
                self.preference_terms@,
            ) && views(c.keywords@) == keywords_spec(input.text@),
    {
        Ok(self.classify_text(input.text.as_str(), input.hinted_type))
    }
}

impl Default for RuleBasedClassifier {
    fn default() -> (c: Self)
        ensures
            c.preference_terms@.len() == 0,
    {
        RuleBasedClassifier::new()
    }
}

/// Caller hints are never overridden: a hinted classification carries
/// the hint with full certainty.
pub proof fn lemma_hint_wins(text: Seq<char>, t: MemoryType, extra: Seq<String>)
    ensures
        classify_rule(text, Some(t), extra) == (t, None::<Seq<char>>, 1_000_000u32),
{
}

/// Without a hint, the cascade goes by the lowercase text: any of "how
/// to deploy", "steps to", "procedure for" or "runbook" makes a how-to
/// procedure (0.7), whatever else the text says; otherwise any of "will
/// send", "needs to", "must", "deadline", "by friday" or "follow up"
/// makes a commitment (0.65); otherwise any of "prefers", "prefer",
/// "likes", "dislikes", "favorite" or a caller term makes a preference
/// (0.75); anything else is a plain semantic statement (0.4).
pub proof fn lemma_unhinted_cascade(text: Seq<char>, extra: Seq<String>)
    ensures
        ({
            let l = text::str_lowercase(text);
            let procedure = text::contains_spec(l, "how to deploy"@) || text::contains_spec(
                l,
                "steps to"@,
            ) || text::contains_spec(l, "procedure for"@) || text::contains_spec(l, "runbook"@);
            let commitment = text::contains_spec(l, "will send"@) || text::contains_spec(
                l,
                "needs to"@,
            ) || text::contains_spec(l, "must"@) || text::contains_spec(l, "deadline"@)
                || text::contains_spec(l, "by friday"@) || text::contains_spec(l, "follow up"@);
            let preference = text::contains_spec(l, "prefers"@) || text::contains_spec(
                l,
                "prefer"@,
            ) || text::contains_spec(l, "likes"@) || text::contains_spec(l, "dislikes"@)
                || text::contains_spec(l, "favorite"@) || (exists|i: int|
                0 <= i < extra.len() && text::contains_spec(l, #[trigger] extra[i]@));
            &&& procedure ==> classify_rule(text, None, extra) == (
                MemoryType::Procedural,
                Some("how-to"@),
                700_000u32,
            )
            &&& !procedure && commitment ==> classify_rule(text, None, extra) == (
                MemoryType::Prospective,
                Some("commitment"@),
                650_000u32,
            )
            &&& !procedure && !commitment && preference ==> classify_rule(text, None, extra) == (
                MemoryType::Semantic,
                Some("preference"@),
                750_000u32,
            )
            &&& !procedure && !commitment && !preference ==> classify_rule(text, None, extra) == (
                MemoryType::Semantic,
                None::<Seq<char>>,
                400_000u32,
            )
        }),
{
}

/// Trimmed pieces that are not empty, in order.
pub open spec fn nonempty_trimmed(p: Seq<Seq<char>>) -> Seq<Seq<char>>
    decreases p.len(),
{
    if p.len() == 0 {
        Seq::empty()
    } else {
        let r = nonempty_trimmed(p.drop_last());
        let t = text::trim_spec(p.last());
        if t.len() > 0 {
            r.push(t)
        } else {
            r
        }
    }
}

/// Sentences of a text: pieces between `.`, newline, `!` and `?`,
/// trimmed, empty ones dropped.
pub open spec fn sentences_spec(text: Seq<char>) -> Seq<Seq<char>> {
    nonempty_trimmed(split::split_by(text, |c: char| split::sentence_sep(c)))
}

/// Splits text into trimmed, non-empty sentences.
pub fn split_sentences(text: &str) -> (s: Vec<String>)
    ensures
        views(s@) == sentences_spec(text@),
{
    let pieces = split::split_sentence_pieces(text);
    let mut out: Vec<String> = Vec::new();
    let mut i: usize = 0;
    while i < pieces.len()
        invariant
            i <= pieces@.len(),
            views(out@) == nonempty_trimmed(views(pieces@).take(i as int)),
        decreases pieces@.len() - i,
    {
        let ghost prefix = views(pieces@).take(i as int);
        let ghost next = views(pieces@).take(i + 1);
        assert(next.drop_last() =~= prefix);
        let ghost o0 = views(out@);
        let t = text::trim(pieces[i].as_str());
        if t.as_str().unicode_len() > 0 {
            out.push(t);
            assert(views(out@) =~= o0.push(text::trim_spec(next.last())));
        }
        i = i + 1;
    }
    assert(views(pieces@).take(pieces@.len() as int) =~= views(pieces@));
    out
}

/// What the extractor keeps from one sentence: sentences of 8 to 300
/// UTF-8 bytes whose classification is not plain semantic talk.
pub open spec fn extraction_of(s: Seq<char>) -> Option<(Seq<char>, MemoryType, Option<Seq<char>>, u32)> {
    let n = text::byte_len(s);
    if n < 8 || n > 300 {
        None
    } else {
        let c = classify_rule(s, None, Seq::empty());
        if c.0 == MemoryType::Semantic && c.1 is None {
            None
        } else {
            Some((s, c.0, c.1, c.2))
        }
    }
}

/// Extractions of a sequence of sentences, in order.
pub open spec fn extractions(p: Seq<Seq<char>>) -> Seq<(Seq<char>, MemoryType, Option<Seq<char>>, u32)>
    decreases p.len(),
{
    if p.len() == 0 {
        Seq::empty()
    } else {
        let r = extractions(p.drop_last());
        match extraction_of(p.last()) {
            Some(e) => r.push(e),
            None => r,
        }
    }
}

/// View of an extracted memory.
pub open spec fn extracted_view(e: ExtractedMemory) -> (Seq<char>, MemoryType, Option<Seq<char>>, u32) {
    (e.text@, e.memory_type, subject::opt_seq(e.subtype), e.confidence)
}

/// Views of extracted memories.
pub open spec fn extracted_views(v: Seq<ExtractedMemory>) -> Seq<(Seq<char>, MemoryType, Option<Seq<char>>, u32)> {
    v.map_values(|e: ExtractedMemory| extracted_view(e))
}

/// Sentence-splitting rule-based extractor. Deliberately conservative:
/// false negatives are cheaper than junk memories.
#[derive(Debug)]
pub struct RuleBasedExtractor;

impl RuleBasedExtractor {
    /// Human-readable name for logs.
    pub fn name(&self) -> (n: &'static str)
        ensures
            n@ == "rule-based"@,
    {
        "rule-based"
    }

    fn classify_defaults(&self, sentence: &str) -> (c: Option<Classification>)
        ensures
            match c {
                Some(c) => decision_of(c) == classify_rule(sentence@, None, Seq::empty()) && !(
                c.memory_type == MemoryType::Semantic && c.subtype is None),
                None => ({
                    let d = classify_rule(sentence@, None, Seq::empty());
                    d.0 == MemoryType::Semantic && d.1 is None
                }),
            },
    {
        let classifier = RuleBasedClassifier::new();
        let c = classifier.classify_text(sentence, None);
        assert(classifier.preference_terms@ =~= Seq::<String>::empty());
        match c.memory_type {
            MemoryType::Semantic => {
                if c.subtype.is_none() {
                    return None;
                }
            },
            _ => {},
        }
        Some(c)
    }

    /// Extracts candidate memories from `text`: one per kept sentence,
    /// in order; extraction never fails.
    pub fn extract(&self, text: &str) -> (r: MemoryResult<Vec<ExtractedMemory>>)
        ensures
            r matches Ok(v) && extracted_views(v@) == extractions(sentences_spec(text@)),
    {
        let sentences = split_sentences(text);
        let mut out: Vec<ExtractedMemory> = Vec::new();
        let mut i: usize = 0;
        while i < sentences.len()
            invariant
                i <= sentences@.len(),
                views(sentences@) == sentences_spec(text@),
                extracted_views(out@) == extractions(views(sentences@).take(i as int)),
            decreases sentences@.len() - i,
        {
            let ghost prefix = views(sentences@).take(i as int);
            let ghost next = views(sentences@).take(i + 1);
            assert(next.drop_last() =~= prefix);
            let ghost o0 = extracted_views(out@);
            let sentence = sentences[i].clone();
            assert(next.last() == sentence@);
            let n = sentence.as_str().len();
            if n < 8 || n > 300 {
                i = i + 1;
                continue;
            }
            let c = self.classify_defaults(sentence.as_str());
            if let Some(c) = c {
                out.push(
                    ExtractedMemory {
                        text: sentence,
                        memory_type: c.memory_type,
                        subtype: c.subtype,
                        confidence: c.confidence,
                    },
                );
                assert(extracted_views(out@) =~= o0.push(extraction_of(next.last())->0));
            }
            i = i + 1;
        }
        assert(views(sentences@).take(sentences@.len() as int) =~= views(sentences@));
        Ok(out)
    }
}

} // verus!
