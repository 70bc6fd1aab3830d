//! Line splitting and tokenization for OBJ documents.
//!
//! A document is split into lines at `'\n'`; each line is split into
//! whitespace-separated tokens; a face corner token is split into fields at
//! `'/'`.  The splitting functions are specified by a single recursive
//! separator-splitting function over character sequences.

use vstd::prelude::*;
use vstd::string::StrSliceExecFns;

verus! {

/// Whitespace inside a line: space, horizontal tab, or carriage return (the
/// latter makes lines ending in `"\r\n"` tokenize like lines ending in
/// `"\n"`).
pub open spec fn is_space(c: char) -> bool {
    c == ' ' || c == '\t' || c == '\r'
}

/// The separator classes the tokenizer splits at.
#[derive(Clone, Copy)]
pub enum Sep {
    /// The line separator `'\n'`.
    Newline,
    /// Whitespace inside a line, per [`is_space`].
    Space,
    /// The field separator `'/'` inside a face corner.
    Slash,
}

/// Whether `c` is a separator of class `k`.
pub open spec fn sep_matches(k: Sep, c: char) -> bool {
    match k {
        Sep::Newline => c == '\n',
        Sep::Space => is_space(c),
        Sep::Slash => c == '/',
    }
}

/// Splits `s` at every character matching `k`.  The result has one piece per
/// separator plus one: an empty input yields one empty piece, and adjacent
/// separators yield empty pieces between them.
pub open spec fn spec_split(s: Seq<char>, k: Sep) -> Seq<Seq<char>>
    decreases s.len(),
{
    if s.len() == 0 {
        seq![Seq::<char>::empty()]
    } else if sep_matches(k, s[0]) {
        seq![Seq::<char>::empty()] + spec_split(s.drop_first(), k)
    } else {
        let rest = spec_split(s.drop_first(), k);
        seq![seq![s[0]] + rest[0]] + rest.drop_first()
    }
}

/// The lines of a document: split at `'\n'`.
pub open spec fn spec_lines(text: Seq<char>) -> Seq<Seq<char>> {
    spec_split(text, Sep::Newline)
}

/// The whitespace-separated fields of a line, empty fields included.
pub open spec fn spec_fields(line: Seq<char>) -> Seq<Seq<char>> {
    spec_split(line, Sep::Space)
}

/// Holds exactly of the nonempty character sequences.
pub open spec fn nonempty_pred() -> spec_fn(Seq<char>) -> bool {
    |t: Seq<char>| t.len() != 0
}

/// The tokens of a line: its whitespace-separated fields with empty fields
/// dropped, so that runs of whitespace act as one separator.
pub open spec fn spec_tokens(line: Seq<char>) -> Seq<Seq<char>> {
    spec_fields(line).filter(nonempty_pred())
}

/// The `'/'`-separated fields of a face corner token.
pub open spec fn spec_slash_fields(tok: Seq<char>) -> Seq<Seq<char>> {
    spec_split(tok, Sep::Slash)
}

/// The views of a sequence of character vectors.
pub open spec fn seq_views(vs: Seq<Vec<char>>) -> Seq<Seq<char>> {
    Seq::new(vs.len(), |i: int| vs[i]@)
}

/// A split has at least one piece.
pub proof fn lemma_split_nonempty(s: Seq<char>, k: Sep)
    ensures
        spec_split(s, k).len() >= 1,
    decreases s.len(),
{
    if s.len() == 0 {
    } else if sep_matches(k, s[0]) {
    } else {
        lemma_split_nonempty(s.drop_first(), k);
    }
}

/// Unfolds [`spec_split`] on a sequence with an explicit head element.
proof fn lemma_split_cons(c: char, t: Seq<char>, k: Sep)
    ensures
        spec_split(seq![c] + t, k) == (if sep_matches(k, c) {
            seq![Seq::<char>::empty()] + spec_split(t, k)
        } else {
            seq![seq![c] + spec_split(t, k)[0]] + spec_split(t, k).drop_first()
        }),
{
    let s = seq![c] + t;
    assert(s.len() == t.len() + 1);
    assert(s[0] == c);
    assert(s.drop_first() =~= t);
}

proof fn lemma_seq_views_push(vs: Seq<Vec<char>>, x: Vec<char>)
    ensures
        seq_views(vs.push(x)) =~= seq_views(vs) + seq![x@],
{
}

/// Splits `s` at every character of the separator class `k`.
pub fn split(s: &Vec<char>, k: Sep) -> (r: Vec<Vec<char>>)
    ensures
        seq_views(r@) == spec_split(s@, k),
{
    let mut r: Vec<Vec<char>> = Vec::new();
    let mut cur: Vec<char> = Vec::new();
    let n = s.len();
    proof {
        lemma_split_nonempty(s@, k);
        assert(s@.skip(0) =~= s@);
        let whole = spec_split(s@, k);
        assert(Seq::<char>::empty() + whole[0] =~= whole[0]);
        assert(seq_views(r@) + (seq![Seq::<char>::empty() + whole[0]] + whole.drop_first())
            =~= whole);
    }
    for i in 0..n
        invariant
            n == s.len(),
            spec_split(s@, k) == seq_views(r@) + (seq![cur@ + spec_split(
                s@.skip(i as int),
                k,
            )[0]] + spec_split(s@.skip(i as int), k).drop_first()),
    {
        let c = s[i];
        let ghost tail = s@.skip(i + 1);
        proof {
            assert(s@.skip(i as int) =~= seq![c] + tail);
            lemma_split_cons(c, tail, k);
            lemma_split_nonempty(tail, k);
        }
        let is_sep = match k {
            Sep::Newline => c == '\n',
            Sep::Space => c == ' ' || c == '\t' || c == '\r',
            Sep::Slash => c == '/',
        };
        if is_sep {
            proof {
                let rest = spec_split(tail, k);
                assert(cur@ + Seq::<char>::empty() =~= cur@);
                assert((seq![Seq::<char>::empty()] + rest).drop_first() =~= rest);
                assert(seq![cur@ + (seq![Seq::<char>::empty()] + rest)[0]] + (seq![
                    Seq::<char>::empty(),
                ] + rest).drop_first() =~= seq![cur@] + rest);
                lemma_seq_views_push(r@, cur);
                assert(seq_views(r@) + (seq![cur@] + rest) =~= (seq_views(r@) + seq![cur@]) + (
                seq![Seq::<char>::empty() + rest[0]] + rest.drop_first()));
                assert(Seq::<char>::empty() + rest[0] =~= rest[0]);
                assert(seq![rest[0]] + rest.drop_first() =~= rest);
            }
            r.push(cur);
            cur = Vec::new();
        } else {
            proof {
                let rest = spec_split(tail, k);
                assert(cur@ + (seq![c] + rest[0]) =~= cur@.push(c) + rest[0]);
                assert((seq![seq![c] + rest[0]] + rest.drop_first()).drop_first() =~= rest
                    .drop_first());
                assert(seq![cur@ + (seq![seq![c] + rest[0]] + rest.drop_first())[0]] + (seq![
                    seq![c] + rest[0],
                ] + rest.drop_first()).drop_first() =~= seq![cur@.push(c) + rest[0]]
                    + rest.drop_first());
            }
            cur.push(c);
        }
    }
    proof {
        assert(s@.skip(n as int) =~= Seq::<char>::empty());
        let last = spec_split(Seq::<char>::empty(), k);
        assert(last =~= seq![Seq::<char>::empty()]);
        assert(cur@ + Seq::<char>::empty() =~= cur@);
        assert(seq![cur@ + last[0]] + last.drop_first() =~= seq![cur@]);
        lemma_seq_views_push(r@, cur);
        assert(seq_views(r@) + seq![cur@] =~= seq_views(r@.push(cur)));
    }
    r.push(cur);
    r
}

/// Keeps the nonempty pieces of a split, in order, consuming the input from
/// the front.
fn keep_nonempty(mut v: Vec<Vec<char>>) -> (r: Vec<Vec<char>>)
    ensures
        seq_views(r@) == seq_views(v@).filter(nonempty_pred()),
{
    let ghost orig = v@;
    let mut r: Vec<Vec<char>> = Vec::new();
    proof {
        assert(seq_views(r@) =~= Seq::<Seq<char>>::empty());
        assert(Seq::<Seq<char>>::empty() + seq_views(v@).filter(nonempty_pred()) =~= seq_views(
            v@,
        ).filter(nonempty_pred()));
    }
    while v.len() > 0
        invariant
            seq_views(orig).filter(nonempty_pred()) == seq_views(r@) + seq_views(v@).filter(
                nonempty_pred(),
            ),
        decreases v.len(),
    {
        let ghost pre = v@;
        let t = v.remove(0);
        proof {
            assert(seq_views(pre) =~= seq![t@] + seq_views(v@));
            Seq::<Seq<char>>::filter_distributes_over_add(
                seq![t@],
                seq_views(v@),
                nonempty_pred(),
            );
            reveal(Seq::filter);
            assert(seq![t@].drop_last() =~= Seq::<Seq<char>>::empty());
            if t@.len() != 0 {
                assert(seq![t@].filter(nonempty_pred()) =~= seq![t@]);
                lemma_seq_views_push(r@, t);
            } else {
                assert(seq![t@].last() == t@);
                assert(Seq::<Seq<char>>::empty().filter(nonempty_pred())
                    =~= Seq::<Seq<char>>::empty());
                assert(seq![t@].filter(nonempty_pred()) =~= Seq::<Seq<char>>::empty());
            }
        }
        if t.len() > 0 {
            proof {
                assert(seq_views(r@.push(t)) + seq_views(v@).filter(nonempty_pred()) =~= seq_views(
                    r@,
                ) + (seq![t@] + seq_views(v@).filter(nonempty_pred())));
            }
            r.push(t);
        } else {
            proof {
                assert(seq_views(r@) + (Seq::<Seq<char>>::empty() + seq_views(v@).filter(
                    nonempty_pred(),
                )) =~= seq_views(r@) + seq_views(v@).filter(nonempty_pred()));
            }
        }
    }
    proof {
        assert(seq_views(v@) =~= Seq::<Seq<char>>::empty());
        reveal(Seq::filter);
        assert(seq_views(v@).filter(nonempty_pred()) =~= Seq::<Seq<char>>::empty());
        assert(seq_views(r@) + Seq::<Seq<char>>::empty() =~= seq_views(r@));
    }
    r
}

/// The tokens of a line, per [`spec_tokens`].
pub fn tokens_of(line: &Vec<char>) -> (r: Vec<Vec<char>>)
    ensures
        seq_views(r@) == spec_tokens(line@),
{
    let fields = split(line, Sep::Space);
    keep_nonempty(fields)
}

/// The characters of a string slice, in order.
pub fn chars_of(s: &str) -> (r: Vec<char>)
    ensures
        r@ == s@,
{
    let n = s.unicode_len();
    let mut r: Vec<char> = Vec::new();
    proof {
        assert(r@ =~= s@.take(0));
    }
    for i in 0..n
        invariant
            n == s@.len(),
            r@ == s@.take(i as int),
    {
        let c = s.get_char(i);
        proof {
            assert(s@.take(i + 1) =~= s@.take(i as int).push(s@[i as int]));
        }
        r.push(c);
    }
    proof {
        assert(s@.take(n as int) =~= s@);
    }
    r
}

} // verus!
