//! Sequence-of-characters logic shared by the rest of the library:
//! substring search, whitespace trimming, placeholder replacement and
//! newline joining, each with a mathematical specification.

use vstd::prelude::*;

verus! {

/// `needle` appears in `hay` as a contiguous run starting at index `i`.
pub open spec fn occurs_at(hay: Seq<char>, needle: Seq<char>, i: int) -> bool {
    0 <= i && i + needle.len() <= hay.len() && hay.subrange(i, i + needle.len()) == needle
}

/// `needle` appears somewhere in `hay` as a contiguous run.
pub open spec fn contains_seq(hay: Seq<char>, needle: Seq<char>) -> bool {
    exists|i: int| occurs_at(hay, needle, i)
}

/// Whether `needle` occurs at position `i` of `hay`, by comparing characters.
fn matches_at(hay: &str, needle: &str, i: usize) -> (r: bool)
    requires
        i + needle@.len() <= hay@.len(),
        hay@.len() <= usize::MAX,
    ensures
        r == occurs_at(hay@, needle@, i as int),
{
    let m = needle.unicode_len();
    let mut j: usize = 0;
    while j < m
        invariant
            j <= m,
            m == needle@.len(),
            i + m <= hay@.len(),
            hay@.len() <= usize::MAX,
            forall|k: int| 0 <= k < j ==> hay@[i + k] == needle@[k],
        decreases m - j,
    {
        if hay.get_char(i + j) != needle.get_char(j) {
            proof {
                assert(hay@.subrange(i as int, i + m) != needle@) by {
                    assert(hay@.subrange(i as int, i + m)[j as int] == hay@[i + j]);
                }
            }
            return false;
        }
        j += 1;
    }
    proof {
        assert(hay@.subrange(i as int, i + m) =~= needle@);
    }
    true
}

/// Substring search by scanning every starting position.
pub fn contains_str(hay: &str, needle: &str) -> (r: bool)
    ensures
        r == contains_seq(hay@, needle@),
{
    let n = hay.unicode_len();
    let m = needle.unicode_len();
    if m > n {
        proof {
            assert(forall|i: int| !occurs_at(hay@, needle@, i));
        }
        return false;
    }
    if m == 0 {
        proof {
            assert(hay@.subrange(0, 0) =~= needle@);
            assert(occurs_at(hay@, needle@, 0));
        }
        return true;
    }
    let mut i: usize = 0;
    while i <= n - m
        invariant
            0 < m <= n,
            n == hay@.len(),
            m == needle@.len(),
            i <= n - m + 1,
            forall|k: int| 0 <= k < i ==> !occurs_at(hay@, needle@, k),
        decreases n + 1 - i,
    {
        if matches_at(hay, needle, i) {
            return true;
        }
        i += 1;
    }
    proof {
        assert(forall|k: int| occurs_at(hay@, needle@, k) ==> 0 <= k < i);
    }
    false
}

/// The whitespace characters (Unicode `White_Space`) removed from the
/// ends of a suggestion.
pub open spec fn is_ws_char(c: char) -> bool {
    c == ' ' || c == '\t' || c == '\n' || c == '\r' || c == '\u{000B}' || c == '\u{000C}'
        || c == '\u{0085}' || c == '\u{00A0}' || c == '\u{1680}' || c == '\u{2000}'
        || c == '\u{2001}' || c == '\u{2002}' || c == '\u{2003}' || c == '\u{2004}'
        || c == '\u{2005}' || c == '\u{2006}' || c == '\u{2007}' || c == '\u{2008}'
        || c == '\u{2009}' || c == '\u{200A}' || c == '\u{2028}' || c == '\u{2029}'
        || c == '\u{202F}' || c == '\u{205F}' || c == '\u{3000}'
}

/// `s` without its leading whitespace.
pub open spec fn trim_start_spec(s: Seq<char>) -> Seq<char>
    decreases s.len(),
{
    if s.len() > 0 && is_ws_char(s[0]) {
        trim_start_spec(s.subrange(1, s.len() as int))
    } else {
        s
    }
}

/// `s` without its trailing whitespace.
pub open spec fn trim_end_spec(s: Seq<char>) -> Seq<char>
    decreases s.len(),
{
    if s.len() > 0 && is_ws_char(s[s.len() - 1]) {
        trim_end_spec(s.subrange(0, s.len() - 1))
    } else {
        s
    }
}

/// `s` without leading and trailing whitespace.
pub open spec fn trim_spec(s: Seq<char>) -> Seq<char> {
    trim_end_spec(trim_start_spec(s))
}

/// If the first `a` characters are whitespace and the character at `a` (if
/// any) is not, trimming the front keeps exactly the suffix from `a` on.
proof fn lemma_trim_start_at(s: Seq<char>, a: int)
    requires
        0 <= a <= s.len(),
        forall|k: int| 0 <= k < a ==> is_ws_char(s[k]),
        a < s.len() ==> !is_ws_char(s[a]),
    ensures
        trim_start_spec(s) == s.subrange(a, s.len() as int),
    decreases a,
{
    if a == 0 {
        assert(s.subrange(0, s.len() as int) =~= s);
        if s.len() > 0 && is_ws_char(s[0]) {
            assert(!is_ws_char(s[0]));
        }
    } else {
        let t = s.subrange(1, s.len() as int);
        lemma_trim_start_at(t, a - 1);
        assert(t.subrange(a - 1, t.len() as int) =~= s.subrange(a, s.len() as int));
    }
}

/// If the characters from `b` on are whitespace and the character at `b - 1`
/// (if any) is not, trimming the back keeps exactly the prefix up to `b`.
proof fn lemma_trim_end_at(s: Seq<char>, b: int)
    requires
        0 <= b <= s.len(),
        forall|k: int| b <= k < s.len() ==> is_ws_char(s[k]),
        b > 0 ==> !is_ws_char(s[b - 1]),
    ensures
        trim_end_spec(s) == s.subrange(0, b),
    decreases s.len() - b,
{
    if b == s.len() {
        assert(s.subrange(0, s.len() as int) =~= s);
        if s.len() > 0 && is_ws_char(s[s.len() - 1]) {
            assert(!is_ws_char(s[s.len() - 1]));
        }
    } else {
        let t = s.subrange(0, s.len() - 1);
        lemma_trim_end_at(t, b);
        assert(t.subrange(0, b) =~= s.subrange(0, b));
    }
}

/// Whether `c` counts as whitespace for trimming.
pub fn is_ws(c: char) -> (r: bool)
    ensures
        r == is_ws_char(c),
{
    c == ' ' || c == '\t' || c == '\n' || c == '\r' || c == '\u{000B}' || c == '\u{000C}'
        || c == '\u{0085}' || c == '\u{00A0}' || c == '\u{1680}' || c == '\u{2000}'
        || c == '\u{2001}' || c == '\u{2002}' || c == '\u{2003}' || c == '\u{2004}'
        || c == '\u{2005}' || c == '\u{2006}' || c == '\u{2007}' || c == '\u{2008}'
        || c == '\u{2009}' || c == '\u{200A}' || c == '\u{2028}' || c == '\u{2029}'
        || c == '\u{202F}' || c == '\u{205F}' || c == '\u{3000}'
}

/// Copy of `s` with leading and trailing whitespace removed.
pub fn trim(s: &str) -> (r: String)
    ensures
        r@ == trim_spec(s@),
{
    let n = s.unicode_len();
    let mut a: usize = 0;
    while a < n && is_ws(s.get_char(a))
        invariant
            a <= n,
            n == s@.len(),
            forall|k: int| 0 <= k < a ==> is_ws_char(s@[k]),
        decreases n - a,
    {
        a += 1;
    }
    proof {
        lemma_trim_start_at(s@, a as int);
    }
    if a == n {
        proof {
            assert(s@.subrange(a as int, n as int) =~= Seq::<char>::empty());
            assert(trim_end_spec(Seq::<char>::empty()) =~= Seq::<char>::empty());
        }
        return String::new();
    }
    let mut b: usize = n;
    while b > a + 1 && is_ws(s.get_char(b - 1))
        invariant
            a < b <= n,
            n == s@.len(),
            forall|k: int| b <= k < n ==> is_ws_char(s@[k]),
        decreases b,
    {
        b -= 1;
    }
    // At this point the character at b - 1 is not whitespace: either the
    // loop stopped on it, or b == a + 1 and position a is not whitespace.
    let r = s.substring_char(a, b);
    proof {
        let t = s@.subrange(a as int, n as int);
        assert(!is_ws_char(s@[b - 1]));
        assert(forall|k: int| b - a <= k < t.len() ==> is_ws_char(#[trigger] t[k])) by {
            assert(forall|k: int| b - a <= k < t.len() ==> #[trigger] t[k] == s@[a + k]);
        }
        assert(t[b - a - 1] == s@[b - 1]);
        lemma_trim_end_at(t, b - a);
        assert(t.subrange(0, b - a) =~= s@.subrange(a as int, b as int));
    }
    String::from_str(r)
}

/// `t` with every occurrence of `pat` replaced by `rep`, scanning left to
/// right over non-overlapping occurrences. An empty `pat` replaces nothing.
pub open spec fn replace_spec(t: Seq<char>, pat: Seq<char>, rep: Seq<char>) -> Seq<char>
    decreases t.len(),
{
    if pat.len() == 0 || t.len() < pat.len() {
        t
    } else if t.subrange(0, pat.len() as int) == pat {
        rep + replace_spec(t.subrange(pat.len() as int, t.len() as int), pat, rep)
    } else {
        seq![t[0]] + replace_spec(t.subrange(1, t.len() as int), pat, rep)
    }
}

/// Copy of `t` with every occurrence of `pat` replaced by `rep`.
pub fn replace(t: &str, pat: &str, rep: &str) -> (r: String)
    requires
        pat@.len() > 0,
    ensures
        r@ == replace_spec(t@, pat@, rep@),
{
    let n = t.unicode_len();
    let m = pat.unicode_len();
    let mut out = String::new();
    let mut i: usize = 0;
    proof {
        assert(t@.subrange(0, n as int) =~= t@);
        assert(out@ + t@ =~= t@);
    }
    while i < n
        invariant
            i <= n,
            n == t@.len(),
            m == pat@.len(),
            0 < m,
            out@ + replace_spec(t@.subrange(i as int, n as int), pat@, rep@) == replace_spec(
                t@,
                pat@,
                rep@,
            ),
        decreases n - i,
    {
        let ghost sub = t@.subrange(i as int, n as int);
        if m <= n - i && matches_at(t, pat, i) {
            out.append(rep);
            proof {
                assert(sub.subrange(0, m as int) =~= t@.subrange(i as int, i + m));
                assert(sub.subrange(m as int, sub.len() as int) =~= t@.subrange(
                    (i + m) as int,
                    n as int,
                ));
                assert(replace_spec(sub, pat@, rep@) == rep@ + replace_spec(
                    t@.subrange((i + m) as int, n as int),
                    pat@,
                    rep@,
                ));
            }
            i += m;
        } else {
            let c = t.substring_char(i, i + 1);
            out.append(c);
            proof {
                assert(c@ =~= seq![t@[i as int]]);
                assert(sub.subrange(1, sub.len() as int) =~= t@.subrange(i + 1, n as int));
                if m <= sub.len() {
                    assert(sub.subrange(0, m as int) =~= t@.subrange(i as int, i + m));
                    assert(sub.subrange(0, m as int) != pat@);
                    assert(replace_spec(sub, pat@, rep@) == seq![sub[0]] + replace_spec(
                        t@.subrange(i + 1, n as int),
                        pat@,
                        rep@,
                    ));
                } else {
                    assert(replace_spec(sub, pat@, rep@) == sub);
                    assert(sub =~= seq![sub[0]] + t@.subrange(i + 1, n as int));
                    assert(replace_spec(t@.subrange(i + 1, n as int), pat@, rep@) == t@.subrange(
                        i + 1,
                        n as int,
                    ));
                }
            }
            i += 1;
        }
    }
    proof {
        assert(t@.subrange(n as int, n as int) =~= Seq::<char>::empty());
        assert(out@ + Seq::<char>::empty() =~= out@);
    }
    out
}

/// The parts joined with `sep` between consecutive parts.
pub open spec fn join_spec(parts: Seq<Seq<char>>, sep: Seq<char>) -> Seq<char>
    decreases parts.len(),
{
    if parts.len() == 0 {
        Seq::empty()
    } else if parts.len() == 1 {
        parts[0]
    } else {
        parts[0] + sep + join_spec(parts.subrange(1, parts.len() as int), sep)
    }
}

/// Joining one more part appends a separator and that part.
proof fn lemma_join_snoc(parts: Seq<Seq<char>>, sep: Seq<char>, p: Seq<char>)
    ensures
        parts.len() == 0 ==> join_spec(parts.push(p), sep) == p,
        parts.len() > 0 ==> join_spec(parts.push(p), sep) == join_spec(parts, sep) + sep + p,
    decreases parts.len(),
{
    let w = parts.push(p);
    if parts.len() == 0 {
        assert(w.len() == 1 && w[0] == p);
    } else if parts.len() == 1 {
        assert(w.subrange(1, 2) =~= seq![p]);
        assert(join_spec(w.subrange(1, 2), sep) == p);
    } else {
        lemma_join_snoc(parts.subrange(1, parts.len() as int), sep, p);
        assert(w.subrange(1, w.len() as int) =~= parts.subrange(1, parts.len() as int).push(p));
        assert(join_spec(w, sep) == w[0] + sep + join_spec(w.subrange(1, w.len() as int), sep));
        assert(parts[0] + sep + (join_spec(parts.subrange(1, parts.len() as int), sep) + sep + p)
            =~= (parts[0] + sep + join_spec(parts.subrange(1, parts.len() as int), sep)) + sep + p);
    }
}

/// Every part appears in the join as a contiguous run.
pub proof fn lemma_join_contains_each(parts: Seq<Seq<char>>, sep: Seq<char>, i: int)
    requires
        0 <= i < parts.len(),
    ensures
        contains_seq(join_spec(parts, sep), parts[i]),
    decreases parts.len(),
{
    let j = join_spec(parts, sep);
    if i == 0 {
        assert(j.subrange(0, parts[0].len() as int) =~= parts[0]);
        assert(occurs_at(j, parts[0], 0));
    } else {
        let tail = parts.subrange(1, parts.len() as int);
        lemma_join_contains_each(tail, sep, i - 1);
        let jt = join_spec(tail, sep);
        let p = parts[i];
        assert(tail[i - 1] == p);
        let k = choose|k: int| occurs_at(jt, p, k);
        let off = parts[0].len() + sep.len();
        assert(j == parts[0] + sep + jt);
        assert(j.subrange(off + k, off + k + p.len()) =~= jt.subrange(k, k + p.len()));
        assert(occurs_at(j, parts[i], off + k));
    }
}

/// A run inside a prefix of `c` is a run inside `c`.
pub proof fn lemma_occurs_in_prefix(a: Seq<char>, c: Seq<char>, x: Seq<char>, i: int)
    requires
        occurs_at(a, x, i),
        a.len() <= c.len(),
        a == c.subrange(0, a.len() as int),
    ensures
        occurs_at(c, x, i),
{
    assert(c.subrange(i, i + x.len()) =~= a.subrange(i, i + x.len()));
}

/// A run inside `b` is a run inside any `c` that contains `b`.
pub proof fn lemma_contains_trans(a: Seq<char>, b: Seq<char>, c: Seq<char>)
    requires
        contains_seq(b, a),
        contains_seq(c, b),
    ensures
        contains_seq(c, a),
{
    let i = choose|i: int| occurs_at(b, a, i);
    let j = choose|j: int| occurs_at(c, b, j);
    assert(c.subrange(j + i, j + i + a.len()) =~= b.subrange(i, i + a.len()));
    assert(occurs_at(c, a, j + i));
}

/// If `pat` occurs in `t`, the replacement text occurs in the result of the
/// replacement.
pub proof fn lemma_replace_contains_rep(t: Seq<char>, pat: Seq<char>, rep: Seq<char>)
    requires
        pat.len() > 0,
        contains_seq(t, pat),
    ensures
        contains_seq(replace_spec(t, pat, rep), rep),
    decreases t.len(),
{
    let r = replace_spec(t, pat, rep);
    if t.len() < pat.len() {
        let i = choose|i: int| occurs_at(t, pat, i);
        assert(false);
    } else if t.subrange(0, pat.len() as int) == pat {
        assert(r == rep + replace_spec(t.subrange(pat.len() as int, t.len() as int), pat, rep));
        assert(r.subrange(0, rep.len() as int) =~= rep);
        assert(occurs_at(r, rep, 0));
    } else {
        let i = choose|i: int| occurs_at(t, pat, i);
        assert(i != 0) by {
            if i == 0 {
                assert(t.subrange(0, pat.len() as int) == pat);
            }
        }
        let tail = t.subrange(1, t.len() as int);
        assert(tail.subrange(i - 1, i - 1 + pat.len()) =~= t.subrange(i, i + pat.len()));
        assert(occurs_at(tail, pat, i - 1));
        lemma_replace_contains_rep(tail, pat, rep);
        let rt = replace_spec(tail, pat, rep);
        let k = choose|k: int| occurs_at(rt, rep, k);
        assert(r == seq![t[0]] + rt);
        assert(r.subrange(1 + k, 1 + k + rep.len()) =~= rt.subrange(k, k + rep.len()));
        assert(occurs_at(r, rep, 1 + k));
    }
}

/// The parts joined with a newline between consecutive parts.
pub fn join_lines(parts: &Vec<String>) -> (r: String)
    ensures
        r@ == join_spec(parts.deep_view(), "\n"@),
{
    let mut out = String::new();
    let mut k: usize = 0;
    proof {
        assert(parts.deep_view().subrange(0, 0) =~= Seq::<Seq<char>>::empty());
    }
    while k < parts.len()
        invariant
            k <= parts.len(),
            parts.deep_view().len() == parts@.len(),
            out@ == join_spec(parts.deep_view().subrange(0, k as int), "\n"@),
        decreases parts.len() - k,
    {
        let ghost pref = parts.deep_view().subrange(0, k as int);
        if k > 0 {
            out.append("\n");
        }
        out.append(parts[k].as_str());
        proof {
            lemma_join_snoc(pref, "\n"@, parts.deep_view()[k as int]);
            assert(parts.deep_view()[k as int] == parts@[k as int]@);
            assert(parts.deep_view().subrange(0, k + 1) =~= pref.push(parts.deep_view()[k as int]));
        }
        k += 1;
    }
    proof {
        assert(parts.deep_view().subrange(0, parts.deep_view().len() as int) =~= parts.deep_view());
    }
    out
}

/// Index of the first newline in `s`, or `s.len()` when there is none.
pub open spec fn first_nl(s: Seq<char>) -> nat
    decreases s.len(),
{
    if s.len() == 0 {
        0
    } else if s[0] == '\n' {
        0
    } else {
        1 + first_nl(s.subrange(1, s.len() as int))
    }
}

proof fn lemma_first_nl_at(s: Seq<char>, m: int)
    requires
        0 <= m <= s.len(),
        forall|k: int| 0 <= k < m ==> s[k] != '\n',
        m < s.len() ==> s[m] == '\n',
    ensures
        first_nl(s) == m,
    decreases m,
{
    if m == 0 {
        if s.len() > 0 {
            assert(s[0] == '\n');
        }
    } else {
        assert(s[0] != '\n');
        let t = s.subrange(1, s.len() as int);
        assert(forall|k: int| 0 <= k < m - 1 ==> t[k] != '\n') by {
            assert(forall|k: int| 0 <= k < m - 1 ==> t[k] == s[k + 1]);
        }
        if m - 1 < t.len() {
            assert(t[m - 1] == s[m]);
        }
        lemma_first_nl_at(t, m - 1);
    }
}

/// A newline-terminated line: the carriage return just before the
/// terminator is dropped.
pub open spec fn line_of(seg: Seq<char>) -> Seq<char> {
    if seg.len() > 0 && seg[seg.len() - 1] == '\r' {
        seg.subrange(0, seg.len() - 1)
    } else {
        seg
    }
}

/// The lines of `s`: split at newlines, each newline-terminated segment
/// without the carriage return that ends it, a final unterminated segment
/// kept exactly as it stands (a bare trailing carriage return stays), and
/// no final empty line after a trailing newline.
pub open spec fn lines_spec(s: Seq<char>) -> Seq<Seq<char>>
    decreases s.len(),
{
    if s.len() == 0 {
        Seq::empty()
    } else {
        let i = first_nl(s);
        if i >= s.len() {
            seq![s]
        } else {
            seq![line_of(s.subrange(0, i as int))] + lines_spec(
                s.subrange(i as int + 1, s.len() as int),
            )
        }
    }
}

/// Split the raw output of the staged-file listing into its lines.
pub fn split_lines(s: &str) -> (r: Vec<String>)
    ensures
        r.deep_view() == lines_spec(s@),
{
    let n = s.unicode_len();
    let mut out: Vec<String> = Vec::new();
    let mut pos: usize = 0;
    proof {
        assert(out.deep_view() =~= Seq::<Seq<char>>::empty());
        assert(out.deep_view() + lines_spec(s@.subrange(0, n as int)) =~= lines_spec(s@.subrange(
            0,
            n as int,
        )));
        assert(s@.subrange(0, n as int) =~= s@);
    }
    while pos < n
        invariant
            pos <= n,
            n == s@.len(),
            lines_spec(s@) == out.deep_view() + lines_spec(s@.subrange(pos as int, n as int)),
        decreases n - pos,
    {
        let mut j: usize = pos;
        while j < n && s.get_char(j) != '\n'
            invariant
                pos <= j <= n,
                n == s@.len(),
                forall|k: int| pos <= k < j ==> s@[k] != '\n',
            decreases n - j,
        {
            j += 1;
        }
        let line_end = if j < n && j > pos && s.get_char(j - 1) == '\r' {
            j - 1
        } else {
            j
        };
        let line = String::from_str(s.substring_char(pos, line_end));
        let ghost old_dv = out.deep_view();
        out.push(line);
        proof {
            let sub = s@.subrange(pos as int, n as int);
            assert(forall|k: int| 0 <= k < j - pos ==> sub[k] != '\n') by {
                assert(forall|k: int| 0 <= k < j - pos ==> sub[k] == s@[pos + k]);
            }
            if j < n {
                assert(sub[j - pos] == s@[j as int]);
            }
            lemma_first_nl_at(sub, j - pos);
            let seg = sub.subrange(0, j - pos);
            assert(seg =~= s@.subrange(pos as int, j as int));
            assert(out.deep_view() =~= old_dv.push(line@));
            if j < n {
                assert(line@ == line_of(seg)) by {
                    if j > pos && s@[j - 1] == '\r' {
                        assert(seg[seg.len() - 1] == s@[j - 1]);
                        assert(seg.subrange(0, seg.len() - 1) =~= s@.subrange(
                            pos as int,
                            line_end as int,
                        ));
                    } else {
                        if seg.len() > 0 {
                            assert(seg[seg.len() - 1] == s@[j - 1]);
                        }
                    }
                }
                assert(sub.subrange(j - pos + 1, sub.len() as int) =~= s@.subrange(
                    j + 1,
                    n as int,
                ));
                assert(lines_spec(sub) == seq![line_of(seg)] + lines_spec(s@.subrange(
                    j + 1,
                    n as int,
                )));
                assert(old_dv + (seq![line@] + lines_spec(s@.subrange(j + 1, n as int)))
                    =~= old_dv.push(line@) + lines_spec(s@.subrange(j + 1, n as int)));
            } else {
                assert(sub =~= seg);
                assert(line@ == sub);
                assert(lines_spec(sub) == seq![sub]);
                assert(s@.subrange(n as int, n as int) =~= Seq::<char>::empty());
                assert(old_dv + seq![line@] =~= old_dv.push(line@) + lines_spec(s@.subrange(
                    n as int,
                    n as int,
                )));
            }
        }
        if j < n {
            pos = j + 1;
        } else {
            pos = j;
        }
    }
    proof {
        assert(s@.subrange(n as int, n as int) =~= Seq::<char>::empty());
        assert(out.deep_view() + lines_spec(Seq::<char>::empty()) =~= out.deep_view());
    }
    out
}

} // verus!
