//! Splitting text into pieces at separator characters, as
//! `str::split` with a character predicate does.
use crate::text;
use vstd::prelude::*;
use vstd::string::*;

verus! {

/// Pieces of `s` between separator characters, including empty pieces;
/// the empty string yields one empty piece.
pub open spec fn split_by(s: Seq<char>, sep: spec_fn(char) -> bool) -> Seq<Seq<char>>
    decreases s.len(),
{
    if s.len() == 0 {
        seq![Seq::empty()]
    } else {
        let p = split_by(s.drop_last(), sep);
        if sep(s.last()) {
            p.push(Seq::empty())
        } else {
            p.update(p.len() - 1, p.last().push(s.last()))
        }
    }
}

/// Sentence separators: `.`, newline, `!`, `?`.
pub open spec fn sentence_sep(c: char) -> bool {
    c == '.' || c == '\n' || c == '!' || c == '?'
}

/// Word separators: anything that is not alphanumeric.
pub open spec fn word_sep(c: char) -> bool {
    !text::char_alnum(c)
}

/// Views of a vector of strings.
pub open spec fn views(v: Seq<String>) -> Seq<Seq<char>> {
    v.map_values(|s: String| s@)
}

/// Splits `s` at sentence separators.
pub fn split_sentence_pieces(s: &str) -> (pieces: Vec<String>)
    ensures
        views(pieces@) == split_by(s@, |c: char| sentence_sep(c)),
{
    split_generic(s, true)
}

/// Splits `s` at non-alphanumeric characters.
pub fn split_word_pieces(s: &str) -> (pieces: Vec<String>)
    ensures
        views(pieces@) == split_by(s@, |c: char| word_sep(c)),
{
    split_generic(s, false)
}

fn is_sep(c: char, sentences: bool) -> (b: bool)
    ensures
        sentences ==> b == sentence_sep(c),
        !sentences ==> b == word_sep(c),
{
    if sentences {
        c == '.' || c == '\n' || c == '!' || c == '?'
    } else {
        !text::char_is_alphanumeric(c)
    }
}

fn split_generic(s: &str, sentences: bool) -> (pieces: Vec<String>)
    ensures
        sentences ==> views(pieces@) == split_by(s@, |c: char| sentence_sep(c)),
        !sentences ==> views(pieces@) == split_by(s@, |c: char| word_sep(c)),
{
    let ghost sep: spec_fn(char) -> bool = if sentences {
        |c: char| sentence_sep(c)
    } else {
        |c: char| word_sep(c)
    };
    let v = text::chars_of(s);
    let mut done: Vec<String> = Vec::new();
    let mut cur = String::new();
    let mut i: usize = 0;
    assert(v@.subrange(0, 0) =~= Seq::<char>::empty());
    assert(views(done@).push(cur@) =~= split_by(v@.subrange(0, 0), sep));
    while i < v.len()
        invariant
            v@ == s@,
            i <= v@.len(),
            sentences ==> sep == (|c: char| sentence_sep(c)),
            !sentences ==> sep == (|c: char| word_sep(c)),
            views(done@).push(cur@) == split_by(v@.subrange(0, i as int), sep),
        decreases v@.len() - i,
    {
        let c = v[i];
        let ghost prev = v@.subrange(0, i as int);
        let ghost next = v@.subrange(0, i + 1);
        let ghost d0 = views(done@);
        let ghost c0 = cur@;
        assert(next.drop_last() =~= prev);
        assert(next.last() == c);
        if is_sep(c, sentences) {
            assert(sep(c));
            let finished = cur;
            done.push(finished);
            cur = String::new();
            assert(views(done@) =~= d0.push(c0));
            assert(views(done@).push(cur@) =~= split_by(next, sep));
        } else {
            assert(!sep(c));
            text::push_char(&mut cur, c);
            assert(views(done@).push(cur@) =~= d0.push(c0).update(d0.len() as int, c0.push(c)));
            assert(views(done@).push(cur@) =~= split_by(next, sep));
        }
        i = i + 1;
    }
    assert(v@.subrange(0, v@.len() as int) =~= v@);
    let ghost d0 = views(done@);
    let ghost c0 = cur@;
    done.push(cur);
    assert(views(done@) =~= d0.push(c0));
    done
}

} // verus!
