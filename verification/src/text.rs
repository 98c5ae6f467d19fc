//! Character-level text helpers shared by the engines and the codec.
//!
//! Free text stored in a contract may contain newlines and the characters the
//! codec uses as markers, so values are escaped before they are written on a
//! line and unescaped when read back; `lemma_unescape_escape` is the
//! round-trip fact the codec builds on.

use vstd::prelude::*;

verus! {

/// Relies on `String::push`: appends exactly the given character.
pub assume_specification[ String::push ](s: &mut String, ch: char)
    ensures
        final(s)@ == old(s)@.push(ch),
;

/// Compare two string slices character by character.
pub fn str_eq(a: &str, b: &str) -> (r: bool)
    ensures
        r == (a@ == b@),
{
    let na = a.unicode_len();
    let nb = b.unicode_len();
    if na != nb {
        return false;
    }
    let mut i: usize = 0;
    while i < na
        invariant
            0 <= i <= na,
            na == a@.len(),
            na == b@.len(),
            forall|j: int| 0 <= j < i ==> a@[j] == b@[j],
        decreases na - i,
    {
        if a.get_char(i) != b.get_char(i) {
            return false;
        }
        i = i + 1;
    }
    proof {
        assert(a@ =~= b@);
    }
    true
}

/// The escaped form of one character: a backslash pair for a backslash, a
/// newline or a tilde, and the character itself otherwise.
pub open spec fn esc_char(c: char) -> Seq<char> {
    if c == '\\' {
        seq!['\\', '\\']
    } else if c == '\n' {
        seq!['\\', 'n']
    } else if c == '~' {
        seq!['\\', 'h']
    } else {
        seq![c]
    }
}

/// The escaped form of a text.
pub open spec fn escape_text(s: Seq<char>) -> Seq<char>
    decreases s.len(),
{
    if s.len() == 0 {
        Seq::<char>::empty()
    } else {
        esc_char(s[0]) + escape_text(s.subrange(1, s.len() as int))
    }
}

/// The character encoded by the second element of a backslash pair.
pub open spec fn unesc_pair(c: char) -> char {
    if c == '\\' {
        '\\'
    } else if c == 'n' {
        '\n'
    } else if c == 'h' {
        '~'
    } else {
        c
    }
}

/// The unescaped form of a text; a dangling final backslash is dropped.
pub open spec fn unescape_text(s: Seq<char>) -> Seq<char>
    decreases s.len(),
{
    if s.len() == 0 {
        Seq::<char>::empty()
    } else if s[0] == '\\' {
        if s.len() == 1 {
            Seq::<char>::empty()
        } else {
            seq![unesc_pair(s[1])] + unescape_text(s.subrange(2, s.len() as int))
        }
    } else {
        seq![s[0]] + unescape_text(s.subrange(1, s.len() as int))
    }
}

/// Escaped text contains neither a newline nor a tilde.
pub open spec fn marker_free(s: Seq<char>) -> bool {
    forall|i: int| 0 <= i < s.len() ==> #[trigger] s[i] != '\n' && s[i] != '~'
}

/// Escaping grows texts from the back the way it grows them from the front.
pub proof fn lemma_escape_push(s: Seq<char>, x: char)
    ensures
        escape_text(s.push(x)) == escape_text(s) + esc_char(x),
    decreases s.len(),
{
    if s.len() == 0 {
        assert(s.push(x)[0] == x);
        assert(s.push(x).subrange(1, 1) =~= Seq::<char>::empty());
        assert(escape_text(Seq::<char>::empty()) =~= Seq::<char>::empty());
        assert(escape_text(s) =~= Seq::<char>::empty());
        assert(escape_text(s.push(x)) == esc_char(x) + escape_text(s.push(x).subrange(1, 1)));
        assert(escape_text(s.push(x)) =~= escape_text(s) + esc_char(x));
    } else {
        assert(s.push(x).subrange(1, s.len() as int + 1) =~= s.subrange(1, s.len() as int).push(
            x,
        ));
        lemma_escape_push(s.subrange(1, s.len() as int), x);
        assert(s.push(x)[0] == s[0]);
        assert(escape_text(s.push(x)) =~= escape_text(s) + esc_char(x));
    }
}

/// Unescaping inverts escaping.
pub proof fn lemma_unescape_escape(s: Seq<char>)
    ensures
        unescape_text(escape_text(s)) == s,
    decreases s.len(),
{
    if s.len() == 0 {
    } else {
        let rest = s.subrange(1, s.len() as int);
        lemma_unescape_escape(rest);
        let e = escape_text(s);
        let ec = esc_char(s[0]);
        assert(e == ec + escape_text(rest));
        if s[0] == '\\' || s[0] == '\n' || s[0] == '~' {
            assert(ec.len() == 2);
            assert(e[0] == '\\');
            assert(e.len() >= 2);
            assert(e.subrange(2, e.len() as int) =~= escape_text(rest));
            assert(unesc_pair(e[1]) == s[0]);
            assert(unescape_text(e) =~= s);
        } else {
            assert(ec.len() == 1);
            assert(e[0] == s[0]);
            assert(e[0] != '\\');
            assert(e.subrange(1, e.len() as int) =~= escape_text(rest));
            assert(unescape_text(e) =~= s);
        }
    }
}

/// Escaped text is free of the codec's marker characters.
pub proof fn lemma_escape_marker_free(s: Seq<char>)
    ensures
        marker_free(escape_text(s)),
    decreases s.len(),
{
    if s.len() == 0 {
    } else {
        let rest = s.subrange(1, s.len() as int);
        lemma_escape_marker_free(rest);
        let e = escape_text(s);
        let ec = esc_char(s[0]);
        assert forall|i: int| 0 <= i < e.len() implies #[trigger] e[i] != '\n' && e[i] != '~' by {
            if i < ec.len() {
                assert(e[i] == ec[i]);
            } else {
                assert(e[i] == escape_text(rest)[i - ec.len()]);
            }
        }
    }
}

/// Append the escaped form of `v` to `out`.
pub fn push_escaped(out: &mut String, v: &str)
    ensures
        final(out)@ == old(out)@ + escape_text(v@),
{
    let n = v.unicode_len();
    let mut i: usize = 0;
    proof {
        assert(v@.take(0) =~= Seq::<char>::empty());
        assert(out@ =~= out@ + escape_text(v@.take(0)));
    }
    while i < n
        invariant
            0 <= i <= n,
            n == v@.len(),
            out@ == old(out)@ + escape_text(v@.take(i as int)),
        decreases n - i,
    {
        let c = v.get_char(i);
        if c == '\\' {
            out.push('\\');
            out.push('\\');
        } else if c == '\n' {
            out.push('\\');
            out.push('n');
        } else if c == '~' {
            out.push('\\');
            out.push('h');
        } else {
            out.push(c);
        }
        proof {
            assert(v@.take(i + 1) =~= v@.take(i as int).push(v@[i as int]));
            lemma_escape_push(v@.take(i as int), v@[i as int]);
            assert(out@ =~= old(out)@ + escape_text(v@.take(i + 1)));
        }
        i = i + 1;
    }
    proof {
        assert(v@.take(n as int) =~= v@);
    }
}

/// Unescape the tail of `line` starting at character `from`.
pub fn unescape_from(line: &str, from: usize) -> (r: String)
    requires
        from <= line@.len(),
    ensures
        r@ == unescape_text(line@.skip(from as int)),
    decreases line@.len() - from,
{
    let n = line.unicode_len();
    let mut out = String::new();
    if from >= n {
        proof {
            assert(line@.skip(from as int) =~= Seq::<char>::empty());
        }
        return out;
    }
    let c = line.get_char(from);
    if c == '\\' {
        if from + 1 >= n {
            proof {
                let t = line@.skip(from as int);
                assert(t.len() == 1);
                assert(t[0] == '\\');
            }
            return out;
        }
        let p = line.get_char(from + 1);
        let rest = unescape_from(line, from + 2);
        out.push(unescape_pair_char(p));
        out.append(rest.as_str());
        proof {
            let t = line@.skip(from as int);
            assert(t[0] == '\\');
            assert(t[1] == line@[from + 1]);
            assert(t.subrange(2, t.len() as int) =~= line@.skip(from + 2));
            assert(out@ =~= unescape_text(t));
        }
        out
    } else {
        let rest = unescape_from(line, from + 1);
        out.push(c);
        out.append(rest.as_str());
        proof {
            let t = line@.skip(from as int);
            assert(t[0] == c);
            assert(t.subrange(1, t.len() as int) =~= line@.skip(from + 1));
            assert(out@ =~= unescape_text(t));
        }
        out
    }
}

/// The JSON-escaped form of one character.
pub open spec fn json_esc_char(c: char) -> Seq<char> {
    if c == '"' {
        seq!['\\', '"']
    } else if c == '\\' {
        seq!['\\', '\\']
    } else if c == '\n' {
        seq!['\\', 'n']
    } else if c == '\r' {
        seq!['\\', 'r']
    } else if c == '\t' {
        seq!['\\', 't']
    } else {
        seq![c]
    }
}

/// The JSON-escaped form of a text.
pub open spec fn json_escape(s: Seq<char>) -> Seq<char>
    decreases s.len(),
{
    if s.len() == 0 {
        Seq::<char>::empty()
    } else {
        json_esc_char(s[0]) + json_escape(s.subrange(1, s.len() as int))
    }
}

/// JSON escaping grows texts from the back the way it grows them from the
/// front.
pub proof fn lemma_json_escape_push(s: Seq<char>, x: char)
    ensures
        json_escape(s.push(x)) == json_escape(s) + json_esc_char(x),
    decreases s.len(),
{
    if s.len() == 0 {
        assert(s.push(x)[0] == x);
        assert(s.push(x).subrange(1, 1) =~= Seq::<char>::empty());
        assert(json_escape(Seq::<char>::empty()) =~= Seq::<char>::empty());
        assert(json_escape(s) =~= Seq::<char>::empty());
        assert(json_escape(s.push(x)) == json_esc_char(x) + json_escape(
            s.push(x).subrange(1, 1),
        ));
        assert(json_escape(s.push(x)) =~= json_escape(s) + json_esc_char(x));
    } else {
        assert(s.push(x).subrange(1, s.len() as int + 1) =~= s.subrange(1, s.len() as int).push(
            x,
        ));
        lemma_json_escape_push(s.subrange(1, s.len() as int), x);
        assert(s.push(x)[0] == s[0]);
        assert(json_escape(s.push(x)) =~= json_escape(s) + json_esc_char(x));
    }
}

/// Append the JSON-escaped form of `v` to `out`.
pub fn push_json_escaped(out: &mut String, v: &str)
    ensures
        final(out)@ == old(out)@ + json_escape(v@),
{
    let n = v.unicode_len();
    let mut i: usize = 0;
    proof {
        assert(v@.take(0) =~= Seq::<char>::empty());
        assert(out@ =~= out@ + json_escape(v@.take(0)));
    }
    while i < n
        invariant
            0 <= i <= n,
            n == v@.len(),
            out@ == old(out)@ + json_escape(v@.take(i as int)),
        decreases n - i,
    {
        let c = v.get_char(i);
        if c == '"' {
            out.push('\\');
            out.push('"');
        } else if c == '\\' {
            out.push('\\');
            out.push('\\');
        } else if c == '\n' {
            out.push('\\');
            out.push('n');
        } else if c == '\r' {
            out.push('\\');
            out.push('r');
        } else if c == '\t' {
            out.push('\\');
            out.push('t');
        } else {
            out.push(c);
        }
        proof {
            assert(v@.take(i + 1) =~= v@.take(i as int).push(v@[i as int]));
            lemma_json_escape_push(v@.take(i as int), v@[i as int]);
            assert(out@ =~= old(out)@ + json_escape(v@.take(i + 1)));
        }
        i = i + 1;
    }
    proof {
        assert(v@.take(n as int) =~= v@);
    }
}

/// The executable form of `unesc_pair`.
fn unescape_pair_char(c: char) -> (r: char)
    ensures
        r == unesc_pair(c),
{
    if c == '\\' {
        '\\'
    } else if c == 'n' {
        '\n'
    } else if c == 'h' {
        '~'
    } else {
        c
    }
}

} // verus!
