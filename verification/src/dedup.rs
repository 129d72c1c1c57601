//! Deduplication: content fingerprints and the decision cascade.
//!
//! Embedding similarity is one signal among many, never sufficient
//! alone. The cascade weighs structural signals (hashes, canonical keys,
//! temporal overlap) first because they are cheap, deterministic and
//! explainable:
//! 1. exact hash      -> Ignore (byte-identical)
//! 2. normalized hash -> Ignore (wording differs, statement identical)
//! 3. canonical key + semantic similarity + temporal overlap -> Merge
//! 4. similarity near threshold -> Review
//! 5. entity overlap high but facts differ -> Link
//! 6. otherwise -> Add
use crate::error;
use crate::id::MemoryId;
use crate::record::{self, MemoryRecord, RecordView, SCORE_SCALE};
use crate::subject::{self, MemorySubject};
use crate::taxonomy::MemoryType;
use crate::temporal;
use crate::split;
use crate::text;
use sha2::Digest;
use vstd::prelude::*;
use vstd::string::*;

verus! {

/// The SHA-256 digest of a byte sequence.
pub uninterp spec fn sha256_of(data: Seq<u8>) -> Seq<u8>;

/// `sha2::Sha256::digest`: its result is named by `sha256_of`, and a
/// SHA-256 digest is 32 bytes long.
#[verifier::external_body]
fn sha256_digest(data: &[u8]) -> (d: Vec<u8>)
    ensures
        d@ == sha256_of(data@),
        d@.len() == 32,
{
    sha2::Sha256::digest(data).to_vec()
}

/// Lowercase hexadecimal digit for a value below 16.
pub open spec fn hex_digit(d: int) -> char {
    if d < 10 {
        (48 + d) as char
    } else {
        (87 + d) as char
    }
}

/// Lowercase hexadecimal rendering, two digits per byte.
pub open spec fn hex_spec(b: Seq<u8>) -> Seq<char>
    decreases b.len(),
{
    if b.len() == 0 {
        Seq::empty()
    } else {
        hex_spec(b.drop_last()) + seq![hex_digit(b.last() as int / 16), hex_digit(b.last() as int % 16)]
    }
}

proof fn lemma_hex_len(b: Seq<u8>)
    ensures
        hex_spec(b).len() == 2 * b.len(),
    decreases b.len(),
{
    if b.len() > 0 {
        lemma_hex_len(b.drop_last());
    }
}

pub(crate) fn hex_char(d: u8) -> (c: char)
    requires
        d < 16,
    ensures
        c == hex_digit(d as int),
{
    if d < 10 {
        (48 + d) as char
    } else {
        (87 + d) as char
    }
}

fn hex(bytes: &Vec<u8>) -> (s: String)
    ensures
        s@ == hex_spec(bytes@),
{
    let mut s = String::new();
    let mut i: usize = 0;
    while i < bytes.len()
        invariant
            i <= bytes@.len(),
            s@ == hex_spec(bytes@.take(i as int)),
        decreases bytes@.len() - i,
    {
        let b = bytes[i];
        assert(bytes@.take(i + 1).drop_last() =~= bytes@.take(i as int));
        text::push_char(&mut s, hex_char(b / 16));
        text::push_char(&mut s, hex_char(b % 16));
        assert(s@ =~= hex_spec(bytes@.take(i + 1)));
        i = i + 1;
    }
    assert(bytes@.take(bytes@.len() as int) =~= bytes@);
    s
}

/// Hex SHA-256 of the UTF-8 bytes of a text.
pub open spec fn exact_hash_spec(t: Seq<char>) -> Seq<char> {
    hex_spec(sha256_of(vstd::utf8::encode_utf8(t)))
}

/// SHA-256 of the raw text, in hex; identical bytes collide.
pub fn exact_hash(t: &str) -> (h: String)
    ensures
        h@ == exact_hash_spec(t@),
        h@.len() == 64,
{
    let d = sha256_digest(t.as_bytes());
    proof {
        lemma_hex_len(d@);
    }
    hex(&d)
}

/// Normalization state after reading `s`: the text so far and whether
/// the last kept character was a separator. Whitespace runs collapse to
/// one space (none at the start), alphanumerics are lowercased, and
/// punctuation is dropped without ending a word.
pub open spec fn norm_state(s: Seq<char>) -> (Seq<char>, bool)
    decreases s.len(),
{
    if s.len() == 0 {
        (Seq::empty(), true)
    } else {
        let (acc, last_ws) = norm_state(s.drop_last());
        let c = s.last();
        if text::is_ws(c) {
            if !last_ws {
                (acc.push(' '), true)
            } else {
                (acc, true)
            }
        } else if text::char_alnum(c) {
            (acc + text::char_lowercase(c), false)
        } else {
            (acc, last_ws)
        }
    }
}

/// The normalized text: lowercased words separated by single spaces,
/// with trailing whitespace removed.
pub open spec fn normalized_spec(s: Seq<char>) -> Seq<char> {
    text::trim_end_spec(norm_state(s).0)
}

/// The letters and digits of `p`, in order.
pub open spec fn alnum_only(p: Seq<char>) -> Seq<char>
    decreases p.len(),
{
    if p.len() == 0 {
        Seq::empty()
    } else if text::char_alnum(p.last()) {
        alnum_only(p.drop_last()).push(p.last())
    } else {
        alnum_only(p.drop_last())
    }
}

/// `p` lowercased character by character.
pub open spec fn lower_all(p: Seq<char>) -> Seq<char>
    decreases p.len(),
{
    if p.len() == 0 {
        Seq::empty()
    } else {
        lower_all(p.drop_last()) + text::char_lowercase(p.last())
    }
}

/// The words among whitespace-separated pieces: each piece stripped of
/// everything but letters and digits, pieces left empty dropped, the
/// rest lowercased.
pub open spec fn words_of(ps: Seq<Seq<char>>) -> Seq<Seq<char>>
    decreases ps.len(),
{
    if ps.len() == 0 {
        Seq::empty()
    } else {
        let w = words_of(ps.drop_last());
        let a = alnum_only(ps.last());
        if a.len() > 0 {
            w.push(lower_all(a))
        } else {
            w
        }
    }
}

/// Words joined by single spaces.
pub open spec fn join_words(ws: Seq<Seq<char>>) -> Seq<char>
    decreases ws.len(),
{
    if ws.len() == 0 {
        Seq::empty()
    } else if ws.len() == 1 {
        ws[0]
    } else {
        join_words(ws.drop_last()) + seq![' '] + ws.last()
    }
}

/// The normalization as documented: punctuation and symbols dropped,
/// letters and digits lowercased, whitespace runs collapsed to one space,
/// no leading space and trailing whitespace trimmed.
pub open spec fn described_normalization(s: Seq<char>) -> Seq<char> {
    text::trim_end_spec(join_words(words_of(split::split_by(s, |c: char| text::is_ws(c)))))
}

/// Each completed word followed by one space.
spec fn emitted(ps: Seq<Seq<char>>) -> Seq<char>
    decreases ps.len(),
{
    if ps.len() == 0 {
        Seq::empty()
    } else {
        let a = alnum_only(ps.last());
        if a.len() > 0 {
            emitted(ps.drop_last()) + lower_all(a) + seq![' ']
        } else {
            emitted(ps.drop_last())
        }
    }
}

proof fn lemma_norm_state_pieces(s: Seq<char>)
    ensures
        ({
            let ps = split::split_by(s, |c: char| text::is_ws(c));
            let cur = alnum_only(ps.last());
            &&& ps.len() >= 1
            &&& norm_state(s) == (emitted(ps.drop_last()) + lower_all(cur), cur.len() == 0)
        }),
    decreases s.len(),
{
    let sep = |c: char| text::is_ws(c);
    if s.len() > 0 {
        let t = s.drop_last();
        let c = s.last();
        lemma_norm_state_pieces(t);
        let p = split::split_by(t, sep);
        let ps = split::split_by(s, sep);
        let cur = p.last();
        if text::is_ws(c) {
            assert(ps == p.push(Seq::empty()));
            assert(ps.drop_last() =~= p);
            assert(alnum_only(Seq::<char>::empty()) == Seq::<char>::empty());
            assert(lower_all(Seq::<char>::empty()) == Seq::<char>::empty());
            assert(p.drop_last().push(cur) =~= p);
            assert(p.last() == cur);
            if alnum_only(cur).len() > 0 {
                assert(emitted(p) == emitted(p.drop_last()) + lower_all(alnum_only(cur)) + seq![' ']);
                assert((emitted(p.drop_last()) + lower_all(alnum_only(cur))).push(' ') =~= emitted(p.drop_last())
                    + lower_all(alnum_only(cur)) + seq![' ']);
                assert(emitted(p) + lower_all(alnum_only(ps.last())) =~= emitted(p));
            } else {
                assert(alnum_only(cur) =~= Seq::<char>::empty());
                assert(emitted(p) == emitted(p.drop_last()));
                assert(emitted(p.drop_last()) + lower_all(alnum_only(cur)) =~= emitted(p.drop_last()));
                assert(emitted(p) + lower_all(alnum_only(ps.last())) =~= emitted(p));
            }
        } else {
            assert(ps == p.update(p.len() - 1, cur.push(c)));
            assert(ps.drop_last() =~= p.drop_last());
            assert(ps.last() == cur.push(c));
            assert(cur.push(c).drop_last() =~= cur);
            assert(cur.push(c).last() == c);
            if text::char_alnum(c) {
                assert(alnum_only(cur.push(c)) == alnum_only(cur).push(c));
                assert(alnum_only(cur).push(c).drop_last() =~= alnum_only(cur));
                assert(lower_all(alnum_only(cur).push(c)) == lower_all(alnum_only(cur)) + text::char_lowercase(c));
                assert(emitted(p.drop_last()) + lower_all(alnum_only(cur)) + text::char_lowercase(c)
                    =~= emitted(p.drop_last()) + (lower_all(alnum_only(cur)) + text::char_lowercase(c)));
            } else {
                assert(alnum_only(cur.push(c)) == alnum_only(cur));
            }
        }
    }
}

proof fn lemma_emitted_join(ps: Seq<Seq<char>>)
    ensures
        emitted(ps) == (if words_of(ps).len() == 0 {
            Seq::<char>::empty()
        } else {
            join_words(words_of(ps)) + seq![' ']
        }),
    decreases ps.len(),
{
    if ps.len() > 0 {
        lemma_emitted_join(ps.drop_last());
        let w = words_of(ps.drop_last());
        let a = alnum_only(ps.last());
        if a.len() > 0 {
            let w2 = w.push(lower_all(a));
            assert(w2.drop_last() =~= w);
            if w.len() == 0 {
                assert(join_words(w2) == w2[0]);
                assert(emitted(ps.drop_last()) + lower_all(a) + seq![' '] =~= lower_all(a) + seq![' ']);
            } else {
                assert(join_words(w2) == join_words(w) + seq![' '] + lower_all(a));
                assert(join_words(w) + seq![' '] + lower_all(a) + seq![' '] =~= join_words(w) + seq![' '] + lower_all(
                    a,
                ) + seq![' ']);
            }
        }
    }
}

proof fn lemma_trail_end_prefix(s1: Seq<char>, s2: Seq<char>, j: int)
    requires
        0 <= j <= s1.len(),
        j <= s2.len(),
        forall|i: int| 0 <= i < j ==> s1[i] == s2[i],
    ensures
        text::trail_end(s1, 0, j) == text::trail_end(s2, 0, j),
        0 <= text::trail_end(s1, 0, j) <= j,
    decreases j,
{
    if j > 0 {
        lemma_trail_end_prefix(s1, s2, j - 1);
    }
}

proof fn lemma_trim_end_space(x: Seq<char>)
    ensures
        text::trim_end_spec(x + seq![' ']) == text::trim_end_spec(x),
{
    let y = x + seq![' '];
    assert(text::is_ws(y[x.len() as int]));
    assert(text::trail_end(y, 0, y.len() as int) == text::trail_end(y, 0, x.len() as int));
    lemma_trail_end_prefix(y, x, x.len() as int);
    let e = text::trail_end(x, 0, x.len() as int);
    assert(y.subrange(0, e) =~= x.subrange(0, e));
}

/// The normalized text is exactly the documented normalization, so two
/// texts that normalize alike hash alike, and the normalized hash is the
/// exact hash of the normalized text; e.g. "Customer prefers email." and
/// "customer  PREFERS   email" share a normalized hash.
pub proof fn lemma_normalization_as_documented(s: Seq<char>, t: Seq<char>)
    ensures
        normalized_spec(s) == described_normalization(s),
        normalized_hash_spec(s) == exact_hash_spec(described_normalization(s)),
        described_normalization(s) == described_normalization(t) ==> normalized_hash_spec(s) == normalized_hash_spec(t),
{
    lemma_normalization_one(s);
    lemma_normalization_one(t);
}

proof fn lemma_normalization_one(s: Seq<char>)
    ensures
        normalized_spec(s) == described_normalization(s),
{
    let ps = split::split_by(s, |c: char| text::is_ws(c));
    lemma_norm_state_pieces(s);
    let c = ps.drop_last();
    let cur = alnum_only(ps.last());
    lemma_emitted_join(c);
    assert(c.push(ps.last()) =~= ps);
    assert(ps.drop_last() =~= c);
    let w = words_of(c);
    if cur.len() > 0 {
        assert(words_of(ps) == w.push(lower_all(cur)));
        let w2 = w.push(lower_all(cur));
        assert(w2.drop_last() =~= w);
        if w.len() == 0 {
            assert(join_words(w2) == lower_all(cur));
            assert(norm_state(s).0 =~= lower_all(cur));
        } else {
            assert(join_words(w2) == join_words(w) + seq![' '] + lower_all(cur));
            assert(norm_state(s).0 =~= join_words(w2));
        }
    } else {
        assert(words_of(ps) == w);
        assert(lower_all(cur) == Seq::<char>::empty());
        if w.len() == 0 {
            assert(norm_state(s).0 =~= join_words(w));
        } else {
            assert(norm_state(s).0 =~= join_words(w) + seq![' ']);
            lemma_trim_end_space(join_words(w));
        }
    }
}

/// Normalizes text for comparison: lowercase, whitespace collapsed,
/// punctuation and symbols dropped.
pub fn normalized_text(t: &str) -> (n: String)
    ensures
        n@ == normalized_spec(t@),
{
    let chars = text::chars_of(t);
    let mut acc = String::new();
    let mut last_ws = true;
    let mut i: usize = 0;
    while i < chars.len()
        invariant
            i <= chars@.len(),
            chars@ == t@,
            (acc@, last_ws) == norm_state(chars@.take(i as int)),
        decreases chars@.len() - i,
    {
        let c = chars[i];
        assert(chars@.take(i + 1).drop_last() =~= chars@.take(i as int));
        if text::char_is_whitespace(c) {
            if !last_ws {
                text::push_char(&mut acc, ' ');
                last_ws = true;
            }
        } else if text::char_is_alphanumeric(c) {
            let lc = text::char_to_lowercase(c);
            let piece = text::string_from_chars(&lc);
            acc.append(piece.as_str());
            last_ws = false;
        }
        i = i + 1;
    }
    assert(chars@.take(chars@.len() as int) =~= chars@);
    text::trim_end(acc.as_str())
}

/// Hex SHA-256 of the normalized text.
pub open spec fn normalized_hash_spec(t: Seq<char>) -> Seq<char> {
    exact_hash_spec(normalized_spec(t))
}

/// SHA-256 of normalized text: lowercased with whitespace collapsed.
///
/// Catches "Customer prefers email." against "customer  prefers EMAIL":
/// byte-different but semantically identical statements.
pub fn normalized_hash(t: &str) -> (h: String)
    ensures
        h@ == normalized_hash_spec(t@),
        h@.len() == 64,
{
    let n = normalized_text(t);
    exact_hash(n.as_str())
}

/// Both fingerprints at once: exact, then normalized.
pub fn text_fingerprint(t: &str) -> (f: (String, String))
    ensures
        f.0@ == exact_hash_spec(t@),
        f.1@ == normalized_hash_spec(t@),
{
    (exact_hash(t), normalized_hash(t))
}

/// What the engine should do with an incoming record.
#[derive(Clone, Copy, Debug, PartialEq, Eq, Structural)]
pub enum DedupAction {
    /// Nothing matches; store as new.
    Add,
    /// A duplicate exists; keep the original untouched.
    Ignore,
    /// Same fact, newer content; supersede via the update path.
    Merge,
    /// Related but distinct; store both.
    Link,
    /// Signals conflict or sit near thresholds; quarantine for review.
    Review,
}

impl DedupAction {
    /// Stable snake_case label.
    pub fn as_str(&self) -> (s: &'static str)
        ensures
            s@ == match *self {
                DedupAction::Add => "add"@,
                DedupAction::Ignore => "ignore"@,
                DedupAction::Merge => "merge"@,
                DedupAction::Link => "link"@,
                DedupAction::Review => "review"@,
            },
    {
        match self {
            DedupAction::Add => "add",
            DedupAction::Ignore => "ignore",
            DedupAction::Merge => "merge",
            DedupAction::Link => "link",
            DedupAction::Review => "review",
        }
    }
}

/// Decision plus its evidence trail.
#[derive(Debug, PartialEq, Eq)]
pub struct DedupDecision {
    pub action: DedupAction,
    /// Existing record the action refers to (Ignore, Merge, Link, Review).
    pub target: Option<MemoryId>,
    /// Human-readable evidence chain for audits.
    pub reason: String,
}

impl DedupDecision {
    /// The default decision: store as new.
    pub fn add() -> (d: Self)
        ensures
            d.action == DedupAction::Add,
            d.target is None,
            d.reason@ == "no matching signals"@,
    {
        DedupDecision { action: DedupAction::Add, target: None, reason: String::from_str("no matching signals") }
    }
}

/// Similarity (in millionths) at or above which same-subject records
/// are the same fact worth merging.
pub const MERGE_SIMILARITY_THRESHOLD: u32 = 900_000;

/// Band under the merge threshold where decisions become ambiguous.
pub const REVIEW_SIMILARITY_BAND: u32 = 100_000;

/// Subject-key overlap fraction for treating records as related.
pub const ENTITY_OVERLAP_LINK_THRESHOLD: u32 = 800_000;

/// The candidate is a byte-identical statement on the same subject.
pub open spec fn exact_dup(c: RecordView, inc: RecordView) -> bool {
    c.subject is Some && subject::subject_keys_match(c.subject, inc.subject)
        && exact_hash_spec(c.content.text@) == exact_hash_spec(inc.content.text@)
}

/// The candidate states the same thing in other wording, with the same
/// memory type.
pub open spec fn normalized_dup(c: RecordView, inc: RecordView) -> bool {
    normalized_hash_spec(c.content.text@) == normalized_hash_spec(inc.content.text@)
        && c.memory_type == inc.memory_type
}

/// Index of the first candidate that duplicates the incoming record.
pub open spec fn first_dup(cands: Seq<RecordView>, inc: RecordView, i: int) -> Option<int>
    decreases cands.len() - i,
{
    if i < 0 || i >= cands.len() {
        None
    } else if exact_dup(cands[i], inc) || normalized_dup(cands[i], inc) {
        Some(i)
    } else {
        first_dup(cands, inc, i + 1)
    }
}

/// Index of the most similar of the first `n` candidates; on ties the
/// earliest wins.
pub open spec fn best_index(sims: Seq<u32>, n: int) -> int
    decreases n,
{
    if n <= 1 {
        0
    } else {
        let b = best_index(sims, n - 1);
        if sims[n - 1] > sims[b] {
            n - 1
        } else {
            b
        }
    }
}

/// Share of subject keys the two sides have in common, in millionths:
/// full when both carry a subject with the same canonical key.
pub open spec fn overlap_spec(a: Option<MemorySubject>, b: Option<MemorySubject>) -> u32 {
    if subject::subject_keys_match(a, b) {
        SCORE_SCALE
    } else {
        0
    }
}

/// Two decimals of a millionths score, rounded half up.
pub open spec fn score2(x: int) -> Seq<char> {
    let c = (x + 5000) / 10000;
    error::decimal((c / 100) as nat) + seq!['.', error::digit_char((c % 100) / 10), error::digit_char(c % 10)]
}

/// The cascade's choice of action and target, given the candidates'
/// similarities, the merge threshold and the current instant.
pub open spec fn decision_spec(
    threshold: u32,
    inc: RecordView,
    cands: Seq<RecordView>,
    sims: Seq<u32>,
    now: int,
) -> (DedupAction, Option<MemoryId>) {
    match first_dup(cands, inc, 0) {
        Some(i) => (DedupAction::Ignore, Some(cands[i].id)),
        None => if cands.len() == 0 {
            (DedupAction::Add, None)
        } else {
            let b = best_index(sims, cands.len() as int);
            let c = cands[b];
            let sim = sims[b];
            if subject::subject_keys_match(c.subject, inc.subject) && sim >= threshold
                && !temporal::window_ended(record::validity_of(c), now) {
                (DedupAction::Merge, Some(c.id))
            } else if sim < threshold && sim >= threshold - REVIEW_SIMILARITY_BAND {
                (DedupAction::Review, Some(c.id))
            } else if overlap_spec(c.subject, inc.subject) >= ENTITY_OVERLAP_LINK_THRESHOLD {
                (DedupAction::Link, Some(c.id))
            } else {
                (DedupAction::Add, None)
            }
        },
    }
}

/// The evidence text for a decision.
pub open spec fn reason_spec(
    threshold: u32,
    inc: RecordView,
    cands: Seq<RecordView>,
    sims: Seq<u32>,
    now: int,
) -> Seq<char> {
    match first_dup(cands, inc, 0) {
        Some(i) => if exact_dup(cands[i], inc) {
            "exact hash match"@
        } else {
            "normalized text hash match"@
        },
        None => {
            let d = decision_spec(threshold, inc, cands, sims, now);
            let sim = if cands.len() == 0 {
                0
            } else {
                sims[best_index(sims, cands.len() as int)]
            };
            match d.0 {
                DedupAction::Merge => "same subject with similarity "@ + score2(sim as int) + " >= "@
                    + score2(threshold as int) + " and overlapping validity"@,
                DedupAction::Review => "similarity "@ + score2(sim as int) + " within review band"@,
                DedupAction::Link => "high entity overlap with distinct content"@,
                _ => "no matching signals"@,
            }
        },
    }
}

/// Views of a slice of records.
pub open spec fn record_views(v: Seq<MemoryRecord>) -> Seq<RecordView> {
    v.map_values(|r: MemoryRecord| r@)
}

fn score_text(x: u32) -> (s: String)
    ensures
        s@ == score2(x as int),
{
    let c: u64 = (x as u64 + 5000) / 10000;
    let whole = error::decimal_string(c / 100);
    let mut s = text::concat2(whole.as_str(), ".");
    proof {
        reveal_strlit(".");
    }
    text::push_char(&mut s, error::digit((c % 100) / 10));
    text::push_char(&mut s, error::digit(c % 10));
    assert(s@ =~= score2(x as int));
    s
}

fn subject_keywords(s: &Option<MemorySubject>) -> (k: Vec<String>)
    ensures
        k@.len() == (if s is Some {
            1int
        } else {
            0int
        }),
        s matches Some(x) ==> k@[0]@ == x.key(),
{
    let mut k: Vec<String> = Vec::new();
    if let Some(x) = s {
        k.push(x.canonical_key());
    }
    k
}

/// Overlap between the subject keys of two records, in millionths; 0
/// when either side has no subject.
fn entity_overlap(a: &Option<MemorySubject>, b: &Option<MemorySubject>) -> (r: u32)
    ensures
        r == overlap_spec(*a, *b),
{
    let ka = subject_keywords(a);
    let kb = subject_keywords(b);
    if ka.len() == 0 || kb.len() == 0 {
        return 0;
    }
    let mut shared: u32 = 0;
    let mut i: usize = 0;
    while i < ka.len()
        invariant
            ka@.len() == 1,
            kb@.len() == 1,
            i <= 1,
            shared <= i,
            shared == (if i == 1 && ka@[0]@ == kb@[0]@ {
                1u32
            } else {
                0u32
            }),
        decreases ka@.len() - i,
    {
        if text::str_eq(ka[i].as_str(), kb[0].as_str()) {
            shared = shared + 1;
        }
        i = i + 1;
    }
    let longest: u32 = if ka.len() > kb.len() {
        ka.len() as u32
    } else {
        kb.len() as u32
    };
    shared * SCORE_SCALE / longest
}

/// Stateless evaluator; candidates come pre-filtered by scope and type,
/// so this stays a pure function of its inputs.
#[derive(Clone, Copy, Debug)]
pub struct DedupEngine {
    /// Optional override for the merge threshold, in millionths.
    pub merge_threshold: Option<u32>,
}

impl Default for DedupEngine {
    fn default() -> (e: Self)
        ensures
            e.merge_threshold is None,
    {
        DedupEngine { merge_threshold: None }
    }
}

/// The merge threshold an engine uses.
pub open spec fn threshold_of(e: DedupEngine) -> u32 {
    match e.merge_threshold {
        Some(t) => t,
        None => MERGE_SIMILARITY_THRESHOLD,
    }
}

impl DedupEngine {
    fn find_duplicate(&self, incoming: &MemoryRecord, candidates: &Vec<MemoryRecord>) -> (r: Option<(usize, bool)>)
        ensures
            match r {
                Some((i, exact)) => i < candidates@.len() && first_dup(record_views(candidates@), incoming@, 0) == Some(i as int)
                    && exact == exact_dup(candidates@[i as int]@, incoming@),
                None => first_dup(record_views(candidates@), incoming@, 0) is None,
            },
    {
        let ghost cv = record_views(candidates@);
        let (incoming_exact, incoming_norm) = text_fingerprint(incoming.content.text.as_str());
        let mut i: usize = 0;
        while i < candidates.len()
            invariant
                i <= candidates@.len(),
                cv == record_views(candidates@),
                incoming_exact@ == exact_hash_spec(incoming@.content.text@),
                incoming_norm@ == normalized_hash_spec(incoming@.content.text@),
                first_dup(cv, incoming@, 0) == first_dup(cv, incoming@, i as int),
            decreases candidates@.len() - i,
        {
            let candidate = &candidates[i];
            assert(cv[i as int] == candidate@);
            let exact = candidate.subject.is_some() && subject::subject_keys_equal(
                &candidate.subject,
                &incoming.subject,
            ) && {
                let h = exact_hash(candidate.content.text.as_str());
                text::str_eq(h.as_str(), incoming_exact.as_str())
            };
            if exact {
                return Some((i, true));
            }
            let normalized = {
                let h = normalized_hash(candidate.content.text.as_str());
                text::str_eq(h.as_str(), incoming_norm.as_str())
            } && candidate.memory_type == incoming.memory_type;
            if normalized {
                return Some((i, false));
            }
            i = i + 1;
        }
        None
    }

    fn best_candidate(sims: &Vec<u32>, n: usize) -> (b: usize)
        requires
            1 <= n <= sims@.len(),
        ensures
            b == best_index(sims@, n as int),
            b < n,
    {
        let mut best: usize = 0;
        let mut k: usize = 1;
        while k < n
            invariant
                1 <= k <= n <= sims@.len(),
                best == best_index(sims@, k as int),
                best < k,
            decreases n - k,
        {
            if sims[k] > sims[best] {
                best = k;
            }
            k = k + 1;
        }
        best
    }

    /// Evaluates an incoming record against existing candidates at
    /// instant `now`; `similarities[i]` is the semantic similarity of
    /// candidate `i`, in millionths.
    pub fn evaluate_at(
        &self,
        incoming: &MemoryRecord,
        candidates: &Vec<MemoryRecord>,
        similarities: &Vec<u32>,
        now: i64,
    ) -> (d: DedupDecision)
        requires
            similarities@.len() == candidates@.len(),
        ensures
            (d.action, d.target) == decision_spec(
                threshold_of(*self),
                incoming@,
                record_views(candidates@),
                similarities@,
                now as int,
            ),
            d.reason@ == reason_spec(
                threshold_of(*self),
                incoming@,
                record_views(candidates@),
                similarities@,
                now as int,
            ),
    {
        let ghost cv = record_views(candidates@);
        let threshold = match self.merge_threshold {
            Some(t) => t,
            None => MERGE_SIMILARITY_THRESHOLD,
        };
        match self.find_duplicate(incoming, candidates) {
            Some((i, exact)) => {
                assert(cv[i as int] == candidates@[i as int]@);
                let reason = if exact {
                    String::from_str("exact hash match")
                } else {
                    String::from_str("normalized text hash match")
                };
                return DedupDecision { action: DedupAction::Ignore, target: Some(candidates[i].id), reason };
            },
            None => {},
        }
        if candidates.len() == 0 {
            return DedupDecision::add();
        }
        let b = DedupEngine::best_candidate(similarities, candidates.len());
        let c = &candidates[b];
        assert(cv[b as int] == c@);
        let sim = similarities[b];
        let same_subject = c.subject.is_some() && incoming.subject.is_some()
            && subject::subject_keys_equal(&c.subject, &incoming.subject);
        let temporal_compatible = !c.validity().has_ended(now);
        if same_subject && sim >= threshold && temporal_compatible {
            let s = score_text(sim);
            let t = score_text(threshold);
            let r1 = text::concat3("same subject with similarity ", s.as_str(), " >= ");
            let reason = text::concat3(r1.as_str(), t.as_str(), " and overlapping validity");
            return DedupDecision { action: DedupAction::Merge, target: Some(c.id), reason };
        }
        if sim < threshold && (sim as i64) >= (threshold as i64) - (REVIEW_SIMILARITY_BAND as i64) {
            let s = score_text(sim);
            let reason = text::concat3("similarity ", s.as_str(), " within review band");
            return DedupDecision { action: DedupAction::Review, target: Some(c.id), reason };
        }
        if entity_overlap(&c.subject, &incoming.subject) >= ENTITY_OVERLAP_LINK_THRESHOLD {
            return DedupDecision {
                action: DedupAction::Link,
                target: Some(c.id),
                reason: String::from_str("high entity overlap with distinct content"),
            };
        }
        DedupDecision::add()
    }

    /// Evaluates an incoming record against existing candidates now.
    pub fn evaluate(&self, incoming: &MemoryRecord, candidates: &Vec<MemoryRecord>, similarities: &Vec<u32>) -> (d:
        DedupDecision)
        requires
            similarities@.len() == candidates@.len(),
        ensures
            exists|now: int|
                (d.action, d.target) == decision_spec(
                    threshold_of(*self),
                    incoming@,
                    record_views(candidates@),
                    similarities@,
                    now,
                ) && d.reason@ == reason_spec(
                    threshold_of(*self),
                    incoming@,
                    record_views(candidates@),
                    similarities@,
                    now,
                ),
    {
        let now = temporal::now_millis();
        let d = self.evaluate_at(incoming, candidates, similarities, now);
        assert((d.action, d.target) == decision_spec(
            threshold_of(*self),
            incoming@,
            record_views(candidates@),
            similarities@,
            now as int,
        ));
        d
    }
}

/// Similarity alone never merges: a merge names the most similar
/// candidate, which shares the incoming record's subject key and whose
/// validity window is still open at the decision instant. With no
/// candidates the record is simply added.
pub proof fn lemma_merge_needs_subject_and_open_window(
    threshold: u32,
    inc: RecordView,
    cands: Seq<RecordView>,
    sims: Seq<u32>,
    now: int,
)
    requires
        sims.len() == cands.len(),
    ensures
        cands.len() == 0 ==> decision_spec(threshold, inc, cands, sims, now) == (DedupAction::Add, None::<MemoryId>),
        decision_spec(threshold, inc, cands, sims, now).0 == DedupAction::Merge ==> ({
            let c = cands[best_index(sims, cands.len() as int)];
            &&& subject::subject_keys_match(c.subject, inc.subject)
            &&& !temporal::window_ended(record::validity_of(c), now)
            &&& decision_spec(threshold, inc, cands, sims, now).1 == Some(c.id)
        }),
{
}

/// The most similar of the first `n` candidates is one of them.
pub proof fn lemma_best_index_in_range(sims: Seq<u32>, n: int)
    requires
        1 <= n,
    ensures
        0 <= best_index(sims, n) < n,
    decreases n,
{
    if n > 1 {
        lemma_best_index_in_range(sims, n - 1);
    }
}

/// The entity overlap of two subjects is all or nothing: full exactly
/// when both sides carry a subject and their canonical keys are equal,
/// zero otherwise (a missing subject or a different key shares nothing).
pub proof fn lemma_overlap_full_only_on_same_key(a: Option<MemorySubject>, b: Option<MemorySubject>)
    ensures
        overlap_spec(a, b) == SCORE_SCALE <==> (a matches Some(x) && b matches Some(y) && x.key()
            == y.key()),
        overlap_spec(a, b) == 0 || overlap_spec(a, b) == SCORE_SCALE,
        overlap_spec(a, b) >= ENTITY_OVERLAP_LINK_THRESHOLD <==> overlap_spec(a, b) == SCORE_SCALE,
{
}

/// Records about unrelated subjects are never linked: a link names the
/// most similar candidate, and that candidate and the incoming record
/// both carry a subject with the same canonical key. When the most
/// similar candidate's subject key differs (or either side has none),
/// the outcome is a duplicate being ignored, a review, or a plain add.
pub proof fn lemma_link_needs_same_subject(
    threshold: u32,
    inc: RecordView,
    cands: Seq<RecordView>,
    sims: Seq<u32>,
    now: int,
)
    requires
        sims.len() == cands.len(),
    ensures
        decision_spec(threshold, inc, cands, sims, now).0 == DedupAction::Link ==> ({
            let b = best_index(sims, cands.len() as int);
            &&& 0 <= b < cands.len()
            &&& decision_spec(threshold, inc, cands, sims, now).1 == Some(cands[b].id)
            &&& cands[b].subject matches Some(x)
            &&& inc.subject matches Some(y)
            &&& x.key() == y.key()
        }),
        cands.len() > 0 && !subject::subject_keys_match(
            cands[best_index(sims, cands.len() as int)].subject,
            inc.subject,
        ) ==> ({
            let d = decision_spec(threshold, inc, cands, sims, now);
            ||| d.0 == DedupAction::Ignore
            ||| d.0 == DedupAction::Review
            ||| d == (DedupAction::Add, None::<MemoryId>)
        }),
{
    if cands.len() > 0 {
        lemma_best_index_in_range(sims, cands.len() as int);
        let b = best_index(sims, cands.len() as int);
        lemma_overlap_full_only_on_same_key(cands[b].subject, inc.subject);
    }
}

/// A review is asked for only on a near miss: the most similar
/// candidate falls short of the merge threshold by no more than the
/// review band, and the review names that candidate.
pub proof fn lemma_review_only_on_near_miss(
    threshold: u32,
    inc: RecordView,
    cands: Seq<RecordView>,
    sims: Seq<u32>,
    now: int,
)
    requires
        sims.len() == cands.len(),
    ensures
        decision_spec(threshold, inc, cands, sims, now).0 == DedupAction::Review ==> ({
            let b = best_index(sims, cands.len() as int);
            &&& 0 <= b < cands.len()
            &&& sims[b] < threshold
            &&& sims[b] + REVIEW_SIMILARITY_BAND >= threshold
            &&& decision_spec(threshold, inc, cands, sims, now).1 == Some(cands[b].id)
        }),
{
    if cands.len() > 0 {
        lemma_best_index_in_range(sims, cands.len() as int);
    }
}

/// A duplicate found by either hash is ignored in favour of the first
/// matching candidate, whatever the similarities say.
pub proof fn lemma_duplicates_are_ignored(
    threshold: u32,
    inc: RecordView,
    cands: Seq<RecordView>,
    sims: Seq<u32>,
    now: int,
    i: int,
)
    requires
        0 <= i < cands.len(),
        exact_dup(cands[i], inc) || normalized_dup(cands[i], inc),
    ensures
        decision_spec(threshold, inc, cands, sims, now).0 == DedupAction::Ignore,
{
    lemma_first_dup_found(cands, inc, 0, i);
}

proof fn lemma_first_dup_found(cands: Seq<RecordView>, inc: RecordView, k: int, i: int)
    requires
        0 <= k <= i < cands.len(),
        exact_dup(cands[i], inc) || normalized_dup(cands[i], inc),
    ensures
        first_dup(cands, inc, k) is Some,
    decreases i - k,
{
    if k < i && !(exact_dup(cands[k], inc) || normalized_dup(cands[k], inc)) {
        lemma_first_dup_found(cands, inc, k + 1, i);
    }
}

} // verus!
