//! Character-level text operations and their mathematical models.
//!
//! Strings are modelled as `Seq<char>`. The executable code works on
//! `Vec<char>`, converted from and to `String` at the edges, so that
//! splitting, substring search, literal replacement and joining are all
//! verified against recursive spec functions over `Seq<char>`.

use vstd::prelude::*;
use vstd::string::StrSliceExecFns;

verus! {

/// Relies on String::push: appends the given character to the end of
/// this String.
#[verifier::external_body]
fn push_char(s: &mut String, c: char)
    ensures
        final(s)@ == old(s)@ + seq![c],
{
    s.push(c);
}

/// The characters of a string slice, as a vector.
pub fn chars_of(s: &str) -> (v: Vec<char>)
    ensures
        v@ == s@,
{
    let n = s.unicode_len();
    let mut v: Vec<char> = Vec::new();
    let mut i: usize = 0;
    while i < n
        invariant
            n == s@.len(),
            i <= n,
            v@ == s@.take(i as int),
        decreases n - i,
    {
        let c = s.get_char(i);
        v.push(c);
        i = i + 1;
        proof {
            assert(v@ =~= s@.take(i as int));
        }
    }
    proof {
        assert(v@ =~= s@);
    }
    v
}

/// The string holding exactly the characters of the vector.
pub fn string_of(v: &Vec<char>) -> (s: String)
    ensures
        s@ == v@,
{
    let mut s = String::new();
    let mut i: usize = 0;
    while i < v.len()
        invariant
            i <= v@.len(),
            s@ == v@.take(i as int),
        decreases v@.len() - i,
    {
        push_char(&mut s, v[i]);
        i = i + 1;
        proof {
            assert(s@ =~= v@.take(i as int));
        }
    }
    proof {
        assert(s@ =~= v@);
    }
    s
}

/// Appends all characters of `x` to `out`.
pub fn extend_chars(out: &mut Vec<char>, x: &Vec<char>)
    ensures
        final(out)@ == old(out)@ + x@,
{
    let mut j: usize = 0;
    while j < x.len()
        invariant
            j <= x@.len(),
            out@ == old(out)@ + x@.take(j as int),
        decreases x@.len() - j,
    {
        out.push(x[j]);
        j = j + 1;
        proof {
            assert(old(out)@ + x@.take(j - 1) + seq![x@[j - 1]] =~= old(out)@ + x@.take(j as int));
        }
    }
    proof {
        assert(old(out)@ + x@.take(x@.len() as int) =~= old(out)@ + x@);
    }
}

/// The index of the first occurrence of `c` in `s`, if any.
pub fn find_char(s: &Vec<char>, c: char) -> (r: Option<usize>)
    ensures
        match r {
            Some(i) => i < s@.len() && s@[i as int] == c && (forall|j: int|
                0 <= j < i ==> s@[j] != c),
            None => forall|j: int| 0 <= j < s@.len() ==> s@[j] != c,
        },
{
    let mut i: usize = 0;
    while i < s.len()
        invariant
            i <= s@.len(),
            forall|j: int| 0 <= j < i ==> s@[j] != c,
        decreases s@.len() - i,
    {
        if s[i] == c {
            return Some(i);
        }
        i = i + 1;
    }
    None
}

/// Whether `pat` occurs in `s` starting at index `i`.
fn matches_at(s: &Vec<char>, pat: &Vec<char>, i: usize) -> (b: bool)
    requires
        i + pat@.len() <= s@.len(),
    ensures
        b == (s@.subrange(i as int, i + pat@.len()) == pat@),
{
    let n = s.len();
    let mut j: usize = 0;
    while j < pat.len()
        invariant
            n == s@.len(),
            i + pat@.len() <= s@.len(),
            j <= pat@.len(),
            forall|k: int| 0 <= k < j ==> s@[i + k] == pat@[k],
        decreases pat@.len() - j,
    {
        if s[i + j] != pat[j] {
            proof {
                assert(s@.subrange(i as int, i + pat@.len())[j as int] == s@[i + j]);
            }
            return false;
        }
        j = j + 1;
    }
    proof {
        assert(s@.subrange(i as int, i + pat@.len()) =~= pat@);
    }
    true
}

/// `pat` occurs somewhere in `s` as a contiguous run.
pub open spec fn contains_seq(s: Seq<char>, pat: Seq<char>) -> bool {
    exists|k: int|
        0 <= k && k + pat.len() <= s.len() && #[trigger] s.subrange(k, k + pat.len()) == pat
}

/// Whether `pat` occurs in `s` as a contiguous run.
pub fn contains_sub(s: &Vec<char>, pat: &Vec<char>) -> (b: bool)
    requires
        pat@.len() >= 1,
    ensures
        b == contains_seq(s@, pat@),
{
    if pat.len() > s.len() {
        return false;
    }
    let n = s.len();
    let last = n - pat.len();
    let mut k: usize = 0;
    while k <= last
        invariant
            n == s@.len(),
            1 <= pat@.len() <= s@.len(),
            last == s@.len() - pat@.len(),
            k <= last + 1,
            forall|j: int| 0 <= j < k ==> #[trigger] s@.subrange(j, j + pat@.len()) != pat@,
        decreases last + 1 - k,
    {
        if matches_at(s, pat, k) {
            proof {
                lemma_contains_intro(s@, pat@, k as int);
            }
            return true;
        }
        k = k + 1;
    }
    false
}

/// Literal left-to-right replacement of every non-overlapping occurrence
/// of `pat` in `s` by `rep`; `s` unchanged when `pat` is empty.
pub open spec fn replace_seq(s: Seq<char>, pat: Seq<char>, rep: Seq<char>) -> Seq<char>
    decreases s.len(),
{
    if pat.len() == 0 || s.len() < pat.len() {
        s
    } else if s.take(pat.len() as int) == pat {
        rep + replace_seq(s.skip(pat.len() as int), pat, rep)
    } else {
        seq![s[0]] + replace_seq(s.skip(1), pat, rep)
    }
}

proof fn lemma_replace_match(s: Seq<char>, pat: Seq<char>, rep: Seq<char>, i: int)
    requires
        1 <= pat.len(),
        0 <= i,
        i + pat.len() <= s.len(),
        s.subrange(i, i + pat.len()) == pat,
    ensures
        replace_seq(s.skip(i), pat, rep) == rep + replace_seq(s.skip(i + pat.len()), pat, rep),
{
    assert(s.skip(i).take(pat.len() as int) =~= s.subrange(i, i + pat.len()));
    assert(s.skip(i).skip(pat.len() as int) =~= s.skip(i + pat.len()));
}

proof fn lemma_replace_char(s: Seq<char>, pat: Seq<char>, rep: Seq<char>, i: int)
    requires
        1 <= pat.len(),
        0 <= i < s.len(),
        i + pat.len() > s.len() || s.subrange(i, i + pat.len()) != pat,
    ensures
        replace_seq(s.skip(i), pat, rep) == seq![s[i]] + replace_seq(s.skip(i + 1), pat, rep),
{
    let t = s.skip(i);
    if t.len() < pat.len() {
        assert(s.skip(i + 1).len() < pat.len());
        assert(t =~= seq![s[i]] + s.skip(i + 1));
    } else {
        assert(t.take(pat.len() as int) =~= s.subrange(i, i + pat.len()));
        assert(t[0] == s[i]);
        assert(t.skip(1) =~= s.skip(i + 1));
    }
}

/// Replaces every non-overlapping occurrence of `pat` in `s` by `rep`,
/// scanning left to right.
pub fn replace_sub(s: &Vec<char>, pat: &Vec<char>, rep: &Vec<char>) -> (r: Vec<char>)
    requires
        pat@.len() >= 1,
    ensures
        r@ == replace_seq(s@, pat@, rep@),
{
    let mut out: Vec<char> = Vec::new();
    let mut i: usize = 0;
    proof {
        assert(s@.skip(0) =~= s@);
        assert(Seq::<char>::empty() + replace_seq(s@, pat@, rep@) =~= replace_seq(
            s@,
            pat@,
            rep@,
        ));
    }
    while i < s.len()
        invariant
            pat@.len() >= 1,
            i <= s@.len(),
            replace_seq(s@, pat@, rep@) == out@ + replace_seq(s@.skip(i as int), pat@, rep@),
        decreases s@.len() - i,
    {
        if pat.len() <= s.len() - i && matches_at(s, pat, i) {
            proof {
                lemma_replace_match(s@, pat@, rep@, i as int);
            }
            let ghost out0 = out@;
            extend_chars(&mut out, rep);
            proof {
                assert(out0 + (rep@ + replace_seq(s@.skip(i + pat@.len()), pat@, rep@)) =~= out@
                    + replace_seq(s@.skip(i + pat@.len()), pat@, rep@));
            }
            i = i + pat.len();
        } else {
            proof {
                lemma_replace_char(s@, pat@, rep@, i as int);
            }
            let ghost out0 = out@;
            out.push(s[i]);
            proof {
                assert(out0 + (seq![s@[i as int]] + replace_seq(s@.skip(i + 1), pat@, rep@)) =~= out@
                    + replace_seq(s@.skip(i + 1), pat@, rep@));
            }
            i = i + 1;
        }
    }
    proof {
        assert(s@.skip(s@.len() as int) =~= Seq::<char>::empty());
        assert(out@ + replace_seq(Seq::<char>::empty(), pat@, rep@) =~= out@);
    }
    out
}

/// `pat` occurs in `s` at position `k`, so `s` contains it.
pub proof fn lemma_contains_intro(s: Seq<char>, pat: Seq<char>, k: int)
    requires
        0 <= k,
        k + pat.len() <= s.len(),
        s.subrange(k, k + pat.len()) == pat,
    ensures
        contains_seq(s, pat),
{
}

/// A pattern that occurs nowhere in a string leaves it unchanged under
/// replacement.
pub proof fn lemma_replace_absent(s: Seq<char>, pat: Seq<char>, rep: Seq<char>)
    requires
        1 <= pat.len(),
        !contains_seq(s, pat),
    ensures
        replace_seq(s, pat, rep) == s,
    decreases s.len(),
{
    if s.len() < pat.len() {
    } else {
        if s.take(pat.len() as int) == pat {
            assert(s.subrange(0, 0 + pat.len() as int) =~= s.take(pat.len() as int));
            lemma_contains_intro(s, pat, 0);
            assert(false);
        }
        assert(!contains_seq(s.skip(1), pat)) by {
            if contains_seq(s.skip(1), pat) {
                let k = choose|k: int|
                    0 <= k && k + pat.len() <= s.skip(1).len() && #[trigger] s.skip(1).subrange(
                        k,
                        k + pat.len(),
                    ) == pat;
                assert(s.subrange(k + 1, k + 1 + pat.len()) =~= s.skip(1).subrange(
                    k,
                    k + pat.len(),
                ));
                lemma_contains_intro(s, pat, k + 1);
            }
        }
        lemma_replace_absent(s.skip(1), pat, rep);
        assert(seq![s[0]] + s.skip(1) =~= s);
    }
}

/// The tokens of `s` delimited by `sep`: splitting on every occurrence
/// of the separator, keeping empty tokens, as one token more than there
/// are separators. A string without the separator is one token.
pub open spec fn split_on(s: Seq<char>, sep: char) -> Seq<Seq<char>>
    decreases s.len(),
{
    if s.len() == 0 {
        seq![Seq::<char>::empty()]
    } else if s[0] == sep {
        seq![Seq::<char>::empty()] + split_on(s.skip(1), sep)
    } else {
        let rest = split_on(s.skip(1), sep);
        seq![seq![s[0]] + rest[0]] + rest.skip(1)
    }
}

pub proof fn lemma_split_len(s: Seq<char>, sep: char)
    ensures
        split_on(s, sep).len() >= 1,
    decreases s.len(),
{
    if s.len() == 0 {
    } else {
        lemma_split_len(s.skip(1), sep);
    }
}

proof fn lemma_split_step(s: Seq<char>, sep: char, i: int)
    requires
        0 <= i < s.len(),
    ensures
        s[i] == sep ==> split_on(s.skip(i), sep) == seq![Seq::<char>::empty()] + split_on(
            s.skip(i + 1),
            sep,
        ),
        s[i] != sep ==> split_on(s.skip(i), sep).len() == split_on(s.skip(i + 1), sep).len()
            && split_on(s.skip(i), sep)[0] == seq![s[i]] + split_on(s.skip(i + 1), sep)[0]
            && split_on(s.skip(i), sep).skip(1) == split_on(s.skip(i + 1), sep).skip(1),
{
    let t = s.skip(i);
    assert(t.len() > 0);
    assert(t[0] == s[i]);
    assert(t.skip(1) =~= s.skip(i + 1));
    lemma_split_len(s.skip(i + 1), sep);
    if s[i] != sep {
        let rest = split_on(t.skip(1), sep);
        assert((seq![seq![t[0]] + rest[0]] + rest.skip(1)).skip(1) =~= rest.skip(1));
    }
}

/// Splits `s` into its `sep`-delimited tokens, empty tokens kept.
pub fn split_chars(s: &Vec<char>, sep: char) -> (r: Vec<Vec<char>>)
    ensures
        r@.len() == split_on(s@, sep).len(),
        forall|j: int| 0 <= j < r@.len() ==> r@[j]@ == split_on(s@, sep)[j],
{
    let mut out: Vec<Vec<char>> = Vec::new();
    let mut cur: Vec<char> = Vec::new();
    let ghost done: Seq<Seq<char>> = Seq::empty();
    let ghost mut done = done;
    let mut i: usize = 0;
    proof {
        lemma_split_len(s@, sep);
        assert(s@.skip(0) =~= s@);
        assert(split_on(s@, sep) =~~= done + seq![cur@ + split_on(s@.skip(0), sep)[0]] + split_on(
            s@.skip(0),
            sep,
        ).skip(1));
    }
    while i < s.len()
        invariant
            i <= s@.len(),
            done.len() == out@.len(),
            forall|j: int| 0 <= j < out@.len() ==> out@[j]@ == done[j],
            split_on(s@.skip(i as int), sep).len() >= 1,
            split_on(s@, sep) == done + seq![cur@ + split_on(s@.skip(i as int), sep)[0]]
                + split_on(s@.skip(i as int), sep).skip(1),
        decreases s@.len() - i,
    {
        let ghost head = split_on(s@.skip(i as int), sep)[0];
        let ghost tail = split_on(s@.skip(i as int), sep).skip(1);
        let ghost next = split_on(s@.skip(i + 1), sep);
        proof {
            lemma_split_step(s@, sep, i as int);
            lemma_split_len(s@.skip(i + 1), sep);
        }
        if s[i] == sep {
            proof {
                assert(head =~= Seq::<char>::empty());
                assert(tail =~= next);
                assert(done + seq![cur@ + head] + tail =~~= done.push(cur@) + seq![
                    Seq::<char>::empty() + next[0],
                ] + next.skip(1));
            }
            let ghost curv = cur@;
            out.push(cur);
            proof {
                done = done.push(curv);
            }
            cur = Vec::new();
        } else {
            let c = s[i];
            let ghost curv = cur@;
            cur.push(c);
            proof {
                assert(head == seq![c] + next[0]);
                assert(tail == next.skip(1));
                assert(cur@ + next[0] =~= curv + head);
                assert(done + seq![curv + head] + tail =~~= done + seq![cur@ + next[0]]
                    + next.skip(1));
            }
        }
        i = i + 1;
    }
    proof {
        assert(s@.skip(s@.len() as int) =~= Seq::<char>::empty());
        assert(split_on(s@, sep) =~~= done.push(cur@));
    }
    out.push(cur);
    out
}

/// The tokens joined with a single separator character between them.
pub open spec fn join_with(toks: Seq<Seq<char>>, sep: char) -> Seq<char>
    decreases toks.len(),
{
    if toks.len() == 0 {
        Seq::empty()
    } else if toks.len() == 1 {
        toks[0]
    } else {
        toks[0] + seq![sep] + join_with(toks.skip(1), sep)
    }
}

pub proof fn lemma_join_push(toks: Seq<Seq<char>>, sep: char, t: Seq<char>)
    ensures
        toks.len() == 0 ==> join_with(toks.push(t), sep) == t,
        toks.len() >= 1 ==> join_with(toks.push(t), sep) == join_with(toks, sep) + seq![sep] + t,
    decreases toks.len(),
{
    if toks.len() == 0 {
        assert(toks.push(t)[0] == t);
    } else if toks.len() == 1 {
        assert(toks.push(t).skip(1) =~= seq![t]);
        assert(join_with(seq![t], sep) == t);
    } else {
        lemma_join_push(toks.skip(1), sep, t);
        assert(toks.push(t).skip(1) =~= toks.skip(1).push(t));
        assert(toks.push(t)[0] == toks[0]);
        assert(toks[0] + seq![sep] + (join_with(toks.skip(1), sep) + seq![sep] + t) =~= (toks[0]
            + seq![sep] + join_with(toks.skip(1), sep)) + seq![sep] + t);
    }
}

} // verus!
