//! Verified text helpers: conversions between strings and character vectors,
//! character search, line splitting, and tab expansion.

use vstd::prelude::*;

verus! {

use vstd::string::StrSliceExecFns;

/// Relies on `String::push`: appends exactly the given character.
#[verifier::external_body]
pub(crate) fn push_char(s: &mut String, c: char)
    ensures
        final(s)@ == old(s)@.push(c),
{
    s.push(c);
}

/// The characters of `s`, in order.
pub fn chars_of(s: &str) -> (r: Vec<char>)
    ensures
        r@ == s@,
{
    let n = s.unicode_len();
    let mut r: Vec<char> = Vec::new();
    let mut i: usize = 0;
    while i < n
        invariant
            n == s@.len(),
            i <= n,
            r@ == s@.take(i as int),
        decreases n - i,
    {
        let c = s.get_char(i);
        r.push(c);
        proof {
            assert(r@ =~= s@.take(i + 1));
        }
        i = i + 1;
    }
    proof {
        assert(r@ =~= s@);
    }
    r
}

/// A string holding exactly the characters of `v`.
pub fn string_from_chars(v: &Vec<char>) -> (r: String)
    ensures
        r@ == v@,
{
    let mut r = String::new();
    let mut i: usize = 0;
    while i < v.len()
        invariant
            i <= v@.len(),
            r@ == v@.take(i as int),
        decreases v@.len() - i,
    {
        push_char(&mut r, v[i]);
        proof {
            assert(r@ =~= v@.take(i + 1));
        }
        i = i + 1;
    }
    proof {
        assert(r@ =~= v@);
    }
    r
}

/// Append the characters of `s` to `dst`.
pub fn push_str_chars(dst: &mut Vec<char>, s: &str)
    ensures
        final(dst)@ == old(dst)@ + s@,
{
    let n = s.unicode_len();
    let mut i: usize = 0;
    proof {
        assert(dst@ =~= old(dst)@ + s@.take(0));
    }
    while i < n
        invariant
            n == s@.len(),
            i <= n,
            dst@ == old(dst)@ + s@.take(i as int),
        decreases n - i,
    {
        dst.push(s.get_char(i));
        proof {
            assert(dst@ =~= old(dst)@ + s@.take(i + 1));
        }
        i = i + 1;
    }
    proof {
        assert(old(dst)@ + s@.take(n as int) =~= old(dst)@ + s@);
    }
}

/// A string holding the characters of `v` from `from` (inclusive) to `to`
/// (exclusive).
pub fn string_of_range(v: &Vec<char>, from: usize, to: usize) -> (r: String)
    requires
        from <= to <= v@.len(),
    ensures
        r@ == v@.subrange(from as int, to as int),
{
    let mut r = String::new();
    let mut i: usize = from;
    while i < to
        invariant
            from <= i <= to <= v@.len(),
            r@ == v@.subrange(from as int, i as int),
        decreases to - i,
    {
        push_char(&mut r, v[i]);
        proof {
            assert(r@ =~= v@.subrange(from as int, i + 1));
        }
        i = i + 1;
    }
    r
}

/// The characters of `v` from `from` (inclusive) to `to` (exclusive).
pub fn copy_range(v: &Vec<char>, from: usize, to: usize) -> (r: Vec<char>)
    requires
        from <= to <= v@.len(),
    ensures
        r@ == v@.subrange(from as int, to as int),
{
    let mut r: Vec<char> = Vec::new();
    let mut i: usize = from;
    while i < to
        invariant
            from <= i <= to <= v@.len(),
            r@ == v@.subrange(from as int, i as int),
        decreases to - i,
    {
        r.push(v[i]);
        proof {
            assert(r@ =~= v@.subrange(from as int, i + 1));
        }
        i = i + 1;
    }
    r
}

/// `n` copies of the character `c`.
pub open spec fn repeated(c: char, n: nat) -> Seq<char> {
    Seq::new(n, |i: int| c)
}

/// A string of `n` copies of `c`.
pub fn repeat_char(c: char, n: usize) -> (r: String)
    ensures
        r@ == repeated(c, n as nat),
{
    let mut r = String::new();
    let mut i: usize = 0;
    while i < n
        invariant
            i <= n,
            r@ == repeated(c, i as nat),
        decreases n - i,
    {
        push_char(&mut r, c);
        proof {
            assert(r@ =~= repeated(c, (i + 1) as nat));
        }
        i = i + 1;
    }
    r
}

/// Index of the first occurrence of `c` in `s`, or `s.len()` if absent.
pub open spec fn find_char(s: Seq<char>, c: char) -> int
    decreases s.len(),
{
    if s.len() == 0 {
        0
    } else if s[0] == c {
        0
    } else {
        1 + find_char(s.drop_first(), c)
    }
}

/// `find_char` points at the first occurrence, inside the sequence bounds.
pub proof fn lemma_find_char(s: Seq<char>, c: char)
    ensures
        0 <= find_char(s, c) <= s.len(),
        find_char(s, c) < s.len() ==> s[find_char(s, c)] == c,
        forall|j: int| 0 <= j < find_char(s, c) ==> s[j] != c,
    decreases s.len(),
{
    if s.len() > 0 && s[0] != c {
        lemma_find_char(s.drop_first(), c);
        assert forall|j: int| 0 <= j < find_char(s, c) implies s[j] != c by {
            if j > 0 {
                assert(s.drop_first()[j - 1] == s[j]);
            }
        }
    }
}

/// Any index with no occurrence before it, holding `c` itself or sitting at
/// the end, is `find_char`.
pub proof fn lemma_find_char_unique(s: Seq<char>, c: char, i: int)
    requires
        0 <= i <= s.len(),
        forall|j: int| 0 <= j < i ==> s[j] != c,
        i < s.len() ==> s[i] == c,
    ensures
        find_char(s, c) == i,
    decreases s.len(),
{
    if s.len() > 0 && s[0] != c {
        assert(i >= 1);
        assert forall|j: int| 0 <= j < i - 1 implies s.drop_first()[j] != c by {
            assert(s.drop_first()[j] == s[j + 1]);
        }
        assert(i - 1 < s.drop_first().len() ==> s.drop_first()[i - 1] == c);
        lemma_find_char_unique(s.drop_first(), c, i - 1);
    }
}

/// Index of the first occurrence of `c` in `v` at or after `from`, or
/// `v.len()` if there is none.
pub fn find_char_from(v: &Vec<char>, from: usize, c: char) -> (idx: usize)
    requires
        from <= v@.len(),
    ensures
        from <= idx <= v@.len(),
        idx - from == find_char(v@.skip(from as int), c),
        idx < v@.len() ==> v@[idx as int] == c,
        forall|j: int| from <= j < idx ==> v@[j] != c,
{
    let mut i: usize = from;
    while i < v.len()
        invariant
            from <= i <= v@.len(),
            forall|j: int| from <= j < i ==> v@[j] != c,
        decreases v@.len() - i,
    {
        if v[i] == c {
            proof {
                let t = v@.skip(from as int);
                assert forall|j: int| 0 <= j < i - from implies t[j] != c by {
                    assert(t[j] == v@[j + from]);
                }
                assert(t[i - from] == v@[i as int]);
                lemma_find_char_unique(t, c, i - from);
            }
            return i;
        }
        i = i + 1;
    }
    proof {
        let t = v@.skip(from as int);
        assert forall|j: int| 0 <= j < t.len() implies t[j] != c by {
            assert(t[j] == v@[j + from]);
        }
        lemma_find_char_unique(t, c, t.len() as int);
    }
    v.len()
}

/// `l` with one trailing carriage return removed, as the line splitter does
/// for `\r\n` endings.
pub open spec fn strip_cr(l: Seq<char>) -> Seq<char> {
    if l.len() > 0 && l.last() == '\r' {
        l.drop_last()
    } else {
        l
    }
}

/// The lines of `s`: pieces separated by `'\n'`, each with one `'\r'`
/// stripped just before the separator, the final line ending optional, and
/// no line at all for an empty text.
pub open spec fn spec_lines(s: Seq<char>) -> Seq<Seq<char>>
    decreases s.len(),
    via spec_lines_decreases
{
    if s.len() == 0 {
        Seq::empty()
    } else {
        let i = find_char(s, '\n');
        if i == s.len() {
            seq![s]
        } else {
            seq![strip_cr(s.take(i))] + spec_lines(s.skip(i + 1))
        }
    }
}

#[via_fn]
proof fn spec_lines_decreases(s: Seq<char>) {
    lemma_find_char(s, '\n');
}

/// Split `v` into its lines, as `spec_lines` describes.
pub fn lines_of(v: &Vec<char>) -> (r: Vec<Vec<char>>)
    ensures
        r@.len() == spec_lines(v@).len(),
        forall|i: int| 0 <= i < r@.len() ==> #[trigger] r@[i]@ == spec_lines(v@)[i],
{
    let ghost whole = spec_lines(v@);
    let mut r: Vec<Vec<char>> = Vec::new();
    let mut p: usize = 0;
    proof {
        assert(v@.skip(0) =~= v@);
        assert(r@.map_values(|l: Vec<char>| l@) =~= Seq::<Seq<char>>::empty());
    }
    while p < v.len()
        invariant
            p <= v@.len(),
            whole == spec_lines(v@),
            whole =~= r@.map_values(|l: Vec<char>| l@) + spec_lines(v@.skip(p as int)),
            forall|i: int| 0 <= i < r@.len() ==> #[trigger] r@[i]@ == whole[i],
        decreases v@.len() - p,
    {
        proof {
            lemma_find_char(v@.skip(p as int), '\n');
        }
        let i = find_char_from(v, p, '\n');
        let mut line: Vec<char> = Vec::new();
        let mut j: usize = p;
        while j < i
            invariant
                p <= j <= i <= v@.len(),
                line@ == v@.subrange(p as int, j as int),
            decreases i - j,
        {
            line.push(v[j]);
            proof {
                assert(line@ =~= v@.subrange(p as int, j + 1));
            }
            j = j + 1;
        }
        let ghost tail = v@.skip(p as int);
        let ghost before = r@.map_values(|l: Vec<char>| l@);
        if i == v.len() {
            proof {
                assert(line@ =~= tail);
                assert(spec_lines(tail) =~= seq![tail]);
            }
            r.push(line);
            p = i;
            proof {
                assert(r@.map_values(|l: Vec<char>| l@) =~= before.push(tail));
                assert(spec_lines(v@.skip(p as int)) =~= Seq::<Seq<char>>::empty());
                assert(whole =~= r@.map_values(|l: Vec<char>| l@) + spec_lines(
                    v@.skip(p as int),
                ));
            }
        } else {
            proof {
                assert(tail.take(i - p) =~= line@);
                assert(tail.skip(i - p + 1) =~= v@.skip(i + 1));
                assert(spec_lines(tail) =~= seq![strip_cr(line@)] + spec_lines(v@.skip(i + 1)));
            }
            if line.len() > 0 && line[line.len() - 1] == '\r' {
                line.pop();
            }
            proof {
                assert(line@ =~= strip_cr(v@.subrange(p as int, i as int)));
            }
            r.push(line);
            p = i + 1;
            proof {
                assert(r@.map_values(|l: Vec<char>| l@) =~= before.push(line@));
                assert(whole =~= r@.map_values(|l: Vec<char>| l@) + spec_lines(
                    v@.skip(p as int),
                ));
            }
        }
    }
    proof {
        assert(spec_lines(v@.skip(p as int)) =~= Seq::<Seq<char>>::empty());
        assert(whole =~= r@.map_values(|l: Vec<char>| l@));
    }
    r
}

/// `s` with every tab replaced by two spaces.
pub open spec fn tab_expanded(s: Seq<char>) -> Seq<char>
    decreases s.len(),
{
    if s.len() == 0 {
        Seq::empty()
    } else {
        (if s[0] == '\t' {
            seq![' ', ' ']
        } else {
            seq![s[0]]
        }) + tab_expanded(s.drop_first())
    }
}

/// Expanding distributes over appending one character at the end.
pub proof fn lemma_tab_expanded_push(s: Seq<char>, c: char)
    ensures
        tab_expanded(s.push(c)) == tab_expanded(s) + (if c == '\t' {
            seq![' ', ' ']
        } else {
            seq![c]
        }),
    decreases s.len(),
{
    let piece = if c == '\t' {
        seq![' ', ' ']
    } else {
        seq![c]
    };
    if s.len() == 0 {
        assert(s.push(c)[0] == c);
        assert(s.push(c).drop_first() =~= Seq::<char>::empty());
        assert(tab_expanded(s.push(c)) =~= piece + tab_expanded(Seq::<char>::empty()));
        assert(tab_expanded(s.push(c)) =~= piece);
        assert(tab_expanded(s) + piece =~= piece);
    } else {
        assert(s.push(c).drop_first() =~= s.drop_first().push(c));
        lemma_tab_expanded_push(s.drop_first(), c);
        assert(s.push(c)[0] == s[0]);
        assert(tab_expanded(s.push(c)) =~= tab_expanded(s) + piece);
    }
}

/// Expanding distributes over concatenation.
pub proof fn lemma_tab_expanded_concat(a: Seq<char>, b: Seq<char>)
    ensures
        tab_expanded(a + b) == tab_expanded(a) + tab_expanded(b),
    decreases b.len(),
{
    if b.len() == 0 {
        assert(a + b =~= a);
        assert(tab_expanded(a) + tab_expanded(b) =~= tab_expanded(a));
    } else {
        lemma_tab_expanded_concat(a.push(b[0]), b.drop_first());
        assert(a.push(b[0]) + b.drop_first() =~= a + b);
        lemma_tab_expanded_push(a, b[0]);
        assert(tab_expanded(b) =~= (if b[0] == '\t' {
            seq![' ', ' ']
        } else {
            seq![b[0]]
        }) + tab_expanded(b.drop_first()));
        assert(tab_expanded(a) + tab_expanded(b) =~= tab_expanded(a + b));
    }
}

/// `v` with every tab replaced by two spaces.
pub fn tab_expand(v: &Vec<char>) -> (r: Vec<char>)
    ensures
        r@ == tab_expanded(v@),
{
    let mut r: Vec<char> = Vec::new();
    let mut i: usize = 0;
    while i < v.len()
        invariant
            i <= v@.len(),
            r@ == tab_expanded(v@.take(i as int)),
        decreases v@.len() - i,
    {
        let c = v[i];
        if c == '\t' {
            r.push(' ');
            r.push(' ');
        } else {
            r.push(c);
        }
        proof {
            assert(v@.take(i + 1) =~= v@.take(i as int).push(v@[i as int]));
            lemma_tab_expanded_push(v@.take(i as int), v@[i as int]);
            assert(r@ =~= tab_expanded(v@.take(i + 1)));
        }
        i = i + 1;
    }
    proof {
        assert(v@.take(v@.len() as int) =~= v@);
    }
    r
}

/// `s` with every occurrence of `pat` replaced by `rep`, scanning left to
/// right and never rescanning replaced text.
pub open spec fn spec_replace(s: Seq<char>, pat: Seq<char>, rep: Seq<char>) -> Seq<char>
    decreases s.len(),
    when pat.len() > 0
{
    if s.len() == 0 {
        Seq::empty()
    } else if s.len() >= pat.len() && s.take(pat.len() as int) == pat {
        rep + spec_replace(s.skip(pat.len() as int), pat, rep)
    } else {
        seq![s[0]] + spec_replace(s.drop_first(), pat, rep)
    }
}

/// Does `pat` occur in `v` starting at `at`?
pub fn matches_at(v: &Vec<char>, at: usize, pat: &str) -> (r: bool)
    requires
        at <= v@.len(),
    ensures
        r == (v@.len() - at >= pat@.len() && v@.skip(at as int).take(pat@.len() as int) == pat@),
{
    let n = pat.unicode_len();
    if v.len() - at < n {
        return false;
    }
    let mut i: usize = 0;
    while i < n
        invariant
            i <= n,
            n == pat@.len(),
            at + n <= v@.len() <= usize::MAX,
            forall|j: int| 0 <= j < i ==> v@[at + j] == pat@[j],
        decreases n - i,
    {
        if v[at + i] != pat.get_char(i) {
            proof {
                let t = v@.skip(at as int).take(n as int);
                assert(t[i as int] == v@[at + i]);
                assert(t[i as int] != pat@[i as int]);
            }
            return false;
        }
        i = i + 1;
    }
    proof {
        assert(v@.skip(at as int).take(n as int) =~= pat@);
    }
    true
}

/// `v` with every occurrence of `pat` replaced by `rep`.
pub fn replace_all(v: &Vec<char>, pat: &str, rep: &str) -> (r: Vec<char>)
    requires
        pat@.len() > 0,
    ensures
        r@ == spec_replace(v@, pat@, rep@),
{
    let n = pat.unicode_len();
    let mut out: Vec<char> = Vec::new();
    let mut i: usize = 0;
    proof {
        assert(v@.skip(0) =~= v@);
    }
    while i < v.len()
        invariant
            i <= v@.len(),
            n == pat@.len() > 0,
            spec_replace(v@, pat@, rep@) == out@ + spec_replace(v@.skip(i as int), pat@, rep@),
        decreases v@.len() - i,
    {
        let ghost tail = v@.skip(i as int);
        let ghost pre = out@;
        if matches_at(v, i, pat) {
            push_str_chars(&mut out, rep);
            proof {
                assert(tail.skip(n as int) =~= v@.skip(i + n));
                assert(spec_replace(tail, pat@, rep@) == rep@ + spec_replace(
                    v@.skip(i + n),
                    pat@,
                    rep@,
                ));
                assert((pre + rep@) + spec_replace(v@.skip(i + n), pat@, rep@) =~= pre + (rep@
                    + spec_replace(v@.skip(i + n), pat@, rep@)));
            }
            i = i + n;
        } else {
            out.push(v[i]);
            proof {
                assert(tail[0] == v@[i as int]);
                assert(tail.drop_first() =~= v@.skip(i + 1));
                assert(spec_replace(tail, pat@, rep@) == seq![v@[i as int]] + spec_replace(
                    v@.skip(i + 1),
                    pat@,
                    rep@,
                ));
                assert(pre.push(v@[i as int]) + spec_replace(v@.skip(i + 1), pat@, rep@) =~= pre
                    + (seq![v@[i as int]] + spec_replace(v@.skip(i + 1), pat@, rep@)));
            }
            i = i + 1;
        }
    }
    proof {
        assert(spec_replace(v@.skip(v@.len() as int), pat@, rep@) =~= Seq::<char>::empty());
        assert(out@ + Seq::<char>::empty() =~= out@);
    }
    out
}

/// `s` with every trailing copy of `c` removed.
pub open spec fn trim_trailing(s: Seq<char>, c: char) -> Seq<char>
    decreases s.len(),
{
    if s.len() > 0 && s.last() == c {
        trim_trailing(s.drop_last(), c)
    } else {
        s
    }
}

/// `v` with every trailing copy of `c` removed.
pub fn trim_end_char(v: &Vec<char>, c: char) -> (r: Vec<char>)
    ensures
        r@ == trim_trailing(v@, c),
{
    let mut end: usize = v.len();
    proof {
        assert(v@.take(v@.len() as int) =~= v@);
    }
    while end > 0
        invariant
            end <= v@.len(),
            trim_trailing(v@, c) == trim_trailing(v@.take(end as int), c),
        ensures
            end <= v@.len(),
            trim_trailing(v@, c) == trim_trailing(v@.take(end as int), c),
            end > 0 ==> v@[end - 1] != c,
        decreases end,
    {
        if v[end - 1] != c {
            break ;
        }
        proof {
            let t = v@.take(end as int);
            assert(t.last() == v@[end - 1]);
            assert(t.drop_last() =~= v@.take(end - 1));
        }
        end = end - 1;
    }
    let r = copy_range(v, 0, end);
    proof {
        assert(v@.subrange(0, end as int) =~= v@.take(end as int));
        if end > 0 {
            assert(v@.take(end as int).last() != c);
        }
        assert(trim_trailing(v@.take(end as int), c) == v@.take(end as int));
    }
    r
}

/// Does `entry` consist of `body` with some (possibly empty) text before
/// and after it?
pub open spec fn embeds(entry: Seq<char>, body: Seq<char>) -> bool {
    exists|a: Seq<char>, b: Seq<char>| entry == a + body + b
}

/// Does the text contain no line break?
pub open spec fn no_newline(s: Seq<char>) -> bool {
    forall|i: int| 0 <= i < s.len() ==> s[i] != '\n'
}

/// Does `entry` consist of `body` with some (possibly empty) text before
/// and after it, neither part adding a line break?
pub open spec fn embeds_inline(entry: Seq<char>, body: Seq<char>) -> bool {
    exists|a: Seq<char>, b: Seq<char>|
        entry == a + body + b && no_newline(a) && no_newline(b)
}

/// Inline embedding is embedding.
pub proof fn lemma_embeds_inline_embeds(entry: Seq<char>, body: Seq<char>)
    requires
        embeds_inline(entry, body),
    ensures
        embeds(entry, body),
{
    let (a, b) = choose|a: Seq<char>, b: Seq<char>|
        entry == a + body + b && no_newline(a) && no_newline(b);
    assert(entry == a + body + b);
}

/// A concatenation is line-break-free exactly when both halves are.
pub proof fn lemma_no_newline_concat(a: Seq<char>, b: Seq<char>)
    ensures
        no_newline(a + b) == (no_newline(a) && no_newline(b)),
{
    if no_newline(a) && no_newline(b) {
        assert forall|i: int| 0 <= i < (a + b).len() implies (a + b)[i] != '\n' by {
            if i < a.len() {
                assert((a + b)[i] == a[i]);
            } else {
                assert((a + b)[i] == b[i - a.len()]);
            }
        }
    }
    if no_newline(a + b) {
        assert forall|i: int| 0 <= i < a.len() implies a[i] != '\n' by {
            assert((a + b)[i] == a[i]);
        }
        assert forall|i: int| 0 <= i < b.len() implies b[i] != '\n' by {
            assert((a + b)[a.len() + i] == b[i]);
        }
    }
}

/// Inline-embedding a line-break-free body yields a line-break-free text.
pub proof fn lemma_embeds_inline_no_newline(entry: Seq<char>, body: Seq<char>)
    requires
        embeds_inline(entry, body),
        no_newline(body),
    ensures
        no_newline(entry),
{
    let (a, b) = choose|a: Seq<char>, b: Seq<char>|
        entry == a + body + b && no_newline(a) && no_newline(b);
    lemma_no_newline_concat(a, body);
    lemma_no_newline_concat(a + body, b);
}

/// Do the characters of `v` equal the characters of `s`?
pub fn chars_eq_str(v: &Vec<char>, s: &str) -> (r: bool)
    ensures
        r == (v@ == s@),
{
    let n = s.unicode_len();
    if v.len() != n {
        proof {
            assert(v@ != s@);
        }
        return false;
    }
    let mut i: usize = 0;
    while i < n
        invariant
            i <= n,
            n == s@.len(),
            v@.len() == n,
            forall|j: int| 0 <= j < i ==> v@[j] == s@[j],
        decreases n - i,
    {
        if v[i] != s.get_char(i) {
            proof {
                assert(v@[i as int] != s@[i as int]);
                assert(v@ != s@);
            }
            return false;
        }
        i = i + 1;
    }
    proof {
        assert(v@ =~= s@);
    }
    true
}

/// Do the characters of `v` start with the characters of `prefix`?
pub fn chars_start_with(v: &Vec<char>, prefix: &str) -> (r: bool)
    ensures
        r == (v@.len() >= prefix@.len() && v@.take(prefix@.len() as int) == prefix@),
{
    let n = prefix.unicode_len();
    if v.len() < n {
        return false;
    }
    let mut i: usize = 0;
    while i < n
        invariant
            i <= n,
            n == prefix@.len(),
            v@.len() >= n,
            forall|j: int| 0 <= j < i ==> v@[j] == prefix@[j],
        decreases n - i,
    {
        if v[i] != prefix.get_char(i) {
            proof {
                assert(v@.take(n as int)[i as int] != prefix@[i as int]);
            }
            return false;
        }
        i = i + 1;
    }
    proof {
        assert(v@.take(n as int) =~= prefix@);
    }
    true
}

} // verus!
