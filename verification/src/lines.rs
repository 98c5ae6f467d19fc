//! Newline-terminated line framing.
//!
//! The contract codec writes one field per line; `lemma_split_of_text` says
//! that splitting recovers exactly the lines that were joined, provided no
//! line contains a newline itself (which escaping guarantees).

use vstd::prelude::*;
use crate::text::marker_free;

verus! {

/// The views of a sequence of strings.
pub open spec fn seq_views(s: Seq<String>) -> Seq<Seq<char>> {
    Seq::new(s.len(), |i: int| s[i]@)
}

/// Whether `s` contains no newline character.
pub open spec fn line_free(s: Seq<char>) -> bool {
    forall|i: int| 0 <= i < s.len() ==> #[trigger] s[i] != '\n'
}

/// The text formed by terminating each line with a newline.
pub open spec fn text_of_lines(ls: Seq<Seq<char>>) -> Seq<char>
    decreases ls.len(),
{
    if ls.len() == 0 {
        Seq::<char>::empty()
    } else {
        ls[0] + seq!['\n'] + text_of_lines(ls.subrange(1, ls.len() as int))
    }
}

/// The index of the first newline in `s`, or `s.len()` if there is none.
pub open spec fn first_nl(s: Seq<char>) -> int
    decreases s.len(),
{
    if s.len() == 0 {
        0
    } else if s[0] == '\n' {
        0
    } else {
        1 + first_nl(s.subrange(1, s.len() as int))
    }
}

/// The lines of a text, split at each newline; a final unterminated line is
/// kept whole.
pub open spec fn split_lines_text(s: Seq<char>) -> Seq<Seq<char>>
    decreases s.len(),
{
    if s.len() == 0 {
        Seq::<Seq<char>>::empty()
    } else {
        let k = first_nl(s);
        if !(0 <= k < s.len()) {
            seq![s]
        } else {
            seq![s.take(k)] + split_lines_text(s.skip(k + 1))
        }
    }
}

/// `first_nl` is characterised by its two defining properties.
pub proof fn lemma_first_nl_is(s: Seq<char>, k: int)
    requires
        0 <= k <= s.len(),
        k < s.len() ==> s[k] == '\n',
        forall|j: int| 0 <= j < k ==> #[trigger] s[j] != '\n',
    ensures
        first_nl(s) == k,
    decreases s.len(),
{
    if s.len() == 0 {
    } else if s[0] == '\n' {
        assert(k == 0);
    } else {
        assert(k >= 1);
        let rest = s.subrange(1, s.len() as int);
        assert(k - 1 < rest.len() ==> rest[k - 1] == '\n');
        assert forall|j: int| 0 <= j < k - 1 implies #[trigger] rest[j] != '\n' by {
            assert(rest[j] == s[j + 1]);
        }
        lemma_first_nl_is(rest, k - 1);
    }
}

/// Splitting the joined text of newline-free lines yields the lines back.
pub proof fn lemma_split_of_text(ls: Seq<Seq<char>>)
    requires
        forall|i: int| 0 <= i < ls.len() ==> line_free(#[trigger] ls[i]),
    ensures
        split_lines_text(text_of_lines(ls)) == ls,
    decreases ls.len(),
{
    if ls.len() == 0 {
    } else {
        let l0 = ls[0];
        let rest = ls.subrange(1, ls.len() as int);
        let t = text_of_lines(ls);
        let rt = text_of_lines(rest);
        assert(t == l0 + seq!['\n'] + rt);
        assert(t.len() == l0.len() + 1 + rt.len());
        assert(t[l0.len() as int] == '\n');
        assert(line_free(ls[0]));
        assert forall|j: int| 0 <= j < l0.len() implies #[trigger] t[j] != '\n' by {
            assert(t[j] == l0[j]);
        }
        lemma_first_nl_is(t, l0.len() as int);
        let k = first_nl(t);
        assert(k == l0.len());
        assert(0 <= k < t.len());
        assert(t.take(k) =~= l0);
        assert(t.skip(k + 1) =~= rt);
        lemma_split_of_text(rest);
        assert(split_lines_text(t) == seq![t.take(k)] + split_lines_text(t.skip(k + 1)));
        assert(split_lines_text(t) =~= ls);
    }
}

/// Joining grows texts from the back.
pub proof fn lemma_text_of_lines_push(ls: Seq<Seq<char>>, l: Seq<char>)
    ensures
        text_of_lines(ls.push(l)) == text_of_lines(ls) + l + seq!['\n'],
    decreases ls.len(),
{
    if ls.len() == 0 {
        assert(ls.push(l)[0] == l);
        assert(ls.push(l).subrange(1, 1) =~= Seq::<Seq<char>>::empty());
        assert(text_of_lines(Seq::<Seq<char>>::empty()) =~= Seq::<char>::empty());
        assert(text_of_lines(ls.push(l)) =~= text_of_lines(ls) + l + seq!['\n']);
    } else {
        assert(ls.push(l).subrange(1, ls.len() as int + 1) =~= ls.subrange(
            1,
            ls.len() as int,
        ).push(l));
        lemma_text_of_lines_push(ls.subrange(1, ls.len() as int), l);
        assert(ls.push(l)[0] == ls[0]);
        assert(text_of_lines(ls.push(l)) =~= text_of_lines(ls) + l + seq!['\n']);
    }
}

/// Join the lines into one newline-terminated text.
pub fn join_lines(lines: &Vec<String>) -> (r: String)
    ensures
        r@ == text_of_lines(seq_views(lines@)),
{
    let mut out = String::new();
    let mut i: usize = 0;
    proof {
        assert(seq_views(lines@).take(0) =~= Seq::<Seq<char>>::empty());
        assert(text_of_lines(Seq::<Seq<char>>::empty()) =~= Seq::<char>::empty());
    }
    while i < lines.len()
        invariant
            0 <= i <= lines@.len(),
            out@ == text_of_lines(seq_views(lines@).take(i as int)),
        decreases lines@.len() - i,
    {
        out.append(lines[i].as_str());
        out.push('\n');
        proof {
            let lv = seq_views(lines@);
            assert(lv.take(i + 1) =~= lv.take(i as int).push(lv[i as int]));
            lemma_text_of_lines_push(lv.take(i as int), lv[i as int]);
            assert(lv[i as int] == lines@[i as int]@);
            assert(out@ =~= text_of_lines(lv.take(i + 1)));
        }
        i = i + 1;
    }
    proof {
        assert(seq_views(lines@).take(lines@.len() as int) =~= seq_views(lines@));
    }
    out
}

/// Split a text into its lines.
pub fn split_lines(s: &str) -> (r: Vec<String>)
    ensures
        seq_views(r@) == split_lines_text(s@),
{
    let mut out: Vec<String> = Vec::new();
    split_into(s, 0, &mut out);
    proof {
        assert(s@.skip(0) =~= s@);
        assert(seq_views(out@) =~= split_lines_text(s@));
    }
    out
}

/// Split the tail of `s` starting at `from`, appending the lines to `out`.
fn split_into(s: &str, from: usize, out: &mut Vec<String>)
    requires
        from <= s@.len(),
    ensures
        seq_views(final(out)@) == seq_views(old(out)@) + split_lines_text(s@.skip(from as int)),
    decreases s@.len() - from,
{
    let n = s.unicode_len();
    if from >= n {
        proof {
            assert(s@.skip(from as int) =~= Seq::<char>::empty());
            assert(seq_views(out@) =~= seq_views(out@) + split_lines_text(
                Seq::<char>::empty(),
            ));
        }
        return;
    }
    let mut j: usize = from;
    while j < n && s.get_char(j) != '\n'
        invariant
            from <= j <= n,
            n == s@.len(),
            forall|m: int| from <= m < j ==> #[trigger] s@[m] != '\n',
        decreases n - j,
    {
        j = j + 1;
    }
    let t = Ghost(s@.skip(from as int));
    proof {
        assert forall|m: int| 0 <= m < j - from implies #[trigger] t@[m] != '\n' by {
            assert(t@[m] == s@[m + from]);
        }
        assert(j < n ==> t@[j - from] == '\n');
        lemma_first_nl_is(t@, j - from);
    }
    let line = String::from_str(s.substring_char(from, j));
    proof {
        assert(line@ =~= t@.take(j - from));
        assert(t@.take(j - from) =~= s@.subrange(from as int, j as int));
    }
    if j >= n {
        out.push(line);
        proof {
            assert(t@.take(j - from) =~= t@);
            assert(split_lines_text(t@) =~= seq![t@]);
            assert(seq_views(out@) =~= seq_views(old(out)@) + split_lines_text(t@));
        }
    } else {
        out.push(line);
        let prefix = Ghost(out@);
        split_into(s, j + 1, out);
        proof {
            assert(t@.skip(j - from + 1) =~= s@.skip(j + 1));
            assert(split_lines_text(t@) == seq![t@.take(j - from)] + split_lines_text(
                t@.skip(j - from + 1),
            ));
            assert(seq_views(prefix@) =~= seq_views(old(out)@).push(line@));
            assert(seq_views(out@) =~= seq_views(old(out)@) + split_lines_text(t@));
        }
    }
}

/// A marker-free text is newline-free.
pub proof fn lemma_marker_free_line_free(s: Seq<char>)
    requires
        marker_free(s),
    ensures
        line_free(s),
{
}

} // verus!
