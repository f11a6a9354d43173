//! Character-level text operations with the meaning that `str` gives them:
//! whitespace trimming, line splitting, splitting at a separator and removal
//! of every occurrence of a pattern.

use vstd::prelude::*;

verus! {

/// `String::push` (std): appends the given character to the end of the string.
pub assume_specification[ String::push ](s: &mut String, ch: char)
    ensures
        final(s)@ == old(s)@.push(ch),
;

/// Unicode `White_Space`, the property behind `char::is_whitespace`.
pub open spec fn is_whitespace(c: char) -> bool {
    let v = c as u32;
    ||| v == 0x20
    ||| 0x09 <= v <= 0x0d
    ||| v == 0x85
    ||| v == 0xa0
    ||| v == 0x1680
    ||| 0x2000 <= v <= 0x200a
    ||| v == 0x2028
    ||| v == 0x2029
    ||| v == 0x202f
    ||| v == 0x205f
    ||| v == 0x3000
}

/// `s` without its leading whitespace.
pub open spec fn spec_trim_start(s: Seq<char>) -> Seq<char>
    decreases s.len(),
{
    if s.len() > 0 && is_whitespace(s[0]) {
        spec_trim_start(s.drop_first())
    } else {
        s
    }
}

/// `s` without its trailing whitespace.
pub open spec fn spec_trim_end(s: Seq<char>) -> Seq<char>
    decreases s.len(),
{
    if s.len() > 0 && is_whitespace(s.last()) {
        spec_trim_end(s.drop_last())
    } else {
        s
    }
}

/// `s` without leading and trailing whitespace (`str::trim`).
pub open spec fn spec_trim(s: Seq<char>) -> Seq<char> {
    spec_trim_end(spec_trim_start(s))
}

/// `s` with every occurrence of `pat` removed, the occurrences found from the
/// left without overlap (`str::replace(pat, "")` for a non-empty `pat`).
pub open spec fn spec_remove_all(s: Seq<char>, pat: Seq<char>) -> Seq<char>
    decreases s.len(),
{
    if s.len() == 0 || pat.len() == 0 {
        s
    } else if pat.is_prefix_of(s) {
        spec_remove_all(s.skip(pat.len() as int), pat)
    } else {
        seq![s[0]] + spec_remove_all(s.drop_first(), pat)
    }
}

/// The number of characters of `s` before the first `c` (all of them if
/// there is none).
pub open spec fn spec_prefix_len_without(s: Seq<char>, c: char) -> nat
    decreases s.len(),
{
    if s.len() == 0 || s[0] == c {
        0
    } else {
        1 + spec_prefix_len_without(s.drop_first(), c)
    }
}

/// The pieces of `s` between occurrences of `sep`, empty pieces included
/// (`str::split` with a character).
pub open spec fn spec_split(s: Seq<char>, sep: char) -> Seq<Seq<char>>
    decreases s.len(),
{
    let k = spec_prefix_len_without(s, sep);
    if k >= s.len() {
        seq![s]
    } else {
        seq![s.take(k as int)] + spec_split(s.skip(k + 1int), sep)
    }
}

/// `line` without one trailing carriage return.
pub open spec fn spec_strip_cr(line: Seq<char>) -> Seq<char> {
    if line.len() > 0 && line.last() == '\r' {
        line.drop_last()
    } else {
        line
    }
}

/// The lines of `s` (`str::lines`): split at `\n`, a `\r` right before the
/// `\n` dropped, and no empty line after a final line ending.
pub open spec fn spec_lines(s: Seq<char>) -> Seq<Seq<char>>
    decreases s.len(),
{
    if s.len() == 0 {
        seq![]
    } else {
        let k = spec_prefix_len_without(s, '\n');
        if k >= s.len() {
            seq![s]
        } else {
            seq![spec_strip_cr(s.take(k as int))] + spec_lines(s.skip(k + 1int))
        }
    }
}

/// The views of a vector of strings.
pub open spec fn views(v: Seq<String>) -> Seq<Seq<char>> {
    v.map_values(|s: String| s@)
}

/// The views of a vector of character vectors.
pub open spec fn char_views(v: Seq<Vec<char>>) -> Seq<Seq<char>> {
    v.map_values(|s: Vec<char>| s@)
}

/// The length before the first `c` is the first position of `c`.
pub proof fn lemma_prefix_len_without(s: Seq<char>, c: char, k: int)
    requires
        0 <= k <= s.len(),
        forall|j: int| 0 <= j < k ==> s[j] != c,
        k == s.len() || s[k] == c,
    ensures
        spec_prefix_len_without(s, c) == k,
    decreases k,
{
    if k > 0 {
        lemma_prefix_len_without(s.drop_first(), c, k - 1);
    }
}

/// The length before the first `c` never exceeds the length of `s`.
pub proof fn lemma_prefix_len_bound(s: Seq<char>, c: char)
    ensures
        spec_prefix_len_without(s, c) <= s.len(),
        spec_prefix_len_without(s, c) < s.len() ==> s[spec_prefix_len_without(s, c) as int] == c,
        forall|j: int| 0 <= j < spec_prefix_len_without(s, c) ==> s[j] != c,
    decreases s.len(),
{
    if s.len() > 0 && s[0] != c {
        lemma_prefix_len_bound(s.drop_first(), c);
        let t = s.drop_first();
        assert forall|j: int| 0 <= j < spec_prefix_len_without(s, c) implies s[j] != c by {
            if j > 0 {
                assert(s[j] == t[j - 1]);
            }
        }
    }
}

/// The characters of `s`, in order.
pub fn chars_of(s: &str) -> (cs: Vec<char>)
    ensures
        cs@ == s@,
{
    let mut cs: Vec<char> = Vec::new();
    for c in it: s.chars()
        invariant
            cs@ == it.seq().take(it.index() as int),
            it.seq() == s@,
    {
        cs.push(c);
    }
    cs
}

/// A `String` holding exactly the characters of `cs`.
pub fn string_of(cs: &Vec<char>) -> (s: String)
    ensures
        s@ == cs@,
{
    let mut s = String::new();
    let mut i: usize = 0;
    while i < cs.len()
        invariant
            i <= cs.len(),
            s@ == cs@.take(i as int),
        decreases cs.len() - i,
    {
        s.push(cs[i]);
        assert(cs@.take(i + 1) =~= cs@.take(i as int).push(cs@[i as int]));
        i += 1;
    }
    assert(cs@.take(cs.len() as int) =~= cs@);
    s
}

/// The characters of `cs` from `lo` up to `hi`.
pub fn copy_range(cs: &Vec<char>, lo: usize, hi: usize) -> (out: Vec<char>)
    requires
        lo <= hi <= cs.len(),
    ensures
        out@ == cs@.subrange(lo as int, hi as int),
{
    let mut out: Vec<char> = Vec::new();
    let mut i = lo;
    while i < hi
        invariant
            lo <= i <= hi <= cs.len(),
            out@ == cs@.subrange(lo as int, i as int),
        decreases hi - i,
    {
        out.push(cs[i]);
        assert(cs@.subrange(lo as int, i + 1) =~= cs@.subrange(lo as int, i as int).push(
            cs@[i as int],
        ));
        i += 1;
    }
    out
}

/// Whether `c` is whitespace (`char::is_whitespace`).
pub fn char_is_whitespace(c: char) -> (b: bool)
    ensures
        b == is_whitespace(c),
{
    let v = c as u32;
    v == 0x20 || (0x09 <= v && v <= 0x0d) || v == 0x85 || v == 0xa0 || v == 0x1680 || (0x2000
        <= v && v <= 0x200a) || v == 0x2028 || v == 0x2029 || v == 0x202f || v == 0x205f || v
        == 0x3000
}

/// `cs` without leading and trailing whitespace.
pub fn trim(cs: &Vec<char>) -> (out: Vec<char>)
    ensures
        out@ == spec_trim(cs@),
{
    let n = cs.len();
    let mut a: usize = 0;
    assert(cs@.subrange(0, n as int) =~= cs@);
    while a < n && char_is_whitespace(cs[a])
        invariant
            a <= n == cs.len(),
            spec_trim_start(cs@) == spec_trim_start(cs@.subrange(a as int, n as int)),
        decreases n - a,
    {
        assert(cs@.subrange(a as int, n as int).drop_first() =~= cs@.subrange(a + 1, n as int));
        a += 1;
    }
    assert(cs@.subrange(0, n as int) =~= cs@);
    let mut b: usize = n;
    while b > a && char_is_whitespace(cs[b - 1])
        invariant
            a <= b <= n == cs.len(),
            spec_trim_start(cs@) == spec_trim_start(cs@.subrange(a as int, n as int)),
            spec_trim_start(cs@.subrange(a as int, n as int)) == cs@.subrange(a as int, n as int),
            spec_trim_end(cs@.subrange(a as int, n as int)) == spec_trim_end(
                cs@.subrange(a as int, b as int),
            ),
        decreases b - a,
    {
        assert(cs@.subrange(a as int, b as int).drop_last() =~= cs@.subrange(a as int, b - 1));
        b -= 1;
    }
    copy_range(cs, a, b)
}

/// Whether `pat` occurs in `cs` at position `at`.
pub fn matches_at(cs: &Vec<char>, at: usize, pat: &Vec<char>) -> (b: bool)
    requires
        at <= cs.len(),
    ensures
        b == pat@.is_prefix_of(cs@.skip(at as int)),
{
    if pat.len() > cs.len() - at {
        return false;
    }
    let mut j: usize = 0;
    while j < pat.len()
        invariant
            j <= pat.len() <= cs.len() - at,
            at <= cs.len(),
            forall|k: int| 0 <= k < j ==> pat@[k] == cs@[at + k],
        decreases pat.len() - j,
    {
        if pat[j] != cs[at + j] {
            assert(cs@.skip(at as int)[j as int] == cs@[at + j]);
            return false;
        }
        j += 1;
    }
    assert(pat@ =~= cs@.skip(at as int).subrange(0, pat@.len() as int));
    true
}

/// Whether `cs` begins with `pat` (`str::starts_with`).
pub fn starts_with(cs: &Vec<char>, pat: &Vec<char>) -> (b: bool)
    ensures
        b == pat@.is_prefix_of(cs@),
{
    assert(cs@.skip(0) =~= cs@);
    matches_at(cs, 0, pat)
}

/// `cs` with every occurrence of the non-empty `pat` removed.
pub fn remove_all(cs: &Vec<char>, pat: &Vec<char>) -> (out: Vec<char>)
    requires
        pat.len() > 0,
    ensures
        out@ == spec_remove_all(cs@, pat@),
{
    let n = cs.len();
    let mut out: Vec<char> = Vec::new();
    let mut i: usize = 0;
    assert(cs@.skip(0) =~= cs@);
    while i < n
        invariant
            i <= n == cs.len(),
            pat.len() > 0,
            out@ + spec_remove_all(cs@.skip(i as int), pat@) == spec_remove_all(cs@, pat@),
        decreases n - i,
    {
        let ghost rest = cs@.skip(i as int);
        if matches_at(cs, i, pat) {
            assert(rest.skip(pat@.len() as int) =~= cs@.skip(i + pat.len()));
            i = i + pat.len();
        } else {
            assert(rest.drop_first() =~= cs@.skip(i + 1));
            assert(rest[0] == cs@[i as int]);
            assert(out@.push(cs@[i as int]) + spec_remove_all(cs@.skip(i + 1), pat@) =~= out@ + (
            seq![rest[0]] + spec_remove_all(rest.drop_first(), pat@)));
            out.push(cs[i]);
            i = i + 1;
        }
    }
    assert(cs@.skip(n as int) =~= Seq::<char>::empty());
    assert(out@ + Seq::<char>::empty() =~= out@);
    out
}

/// The position of the first `c` in `cs` at or after `from`, or the length of
/// `cs` if there is none.
pub fn find_char(cs: &Vec<char>, from: usize, c: char) -> (k: usize)
    requires
        from <= cs.len(),
    ensures
        from <= k <= cs.len(),
        k - from == spec_prefix_len_without(cs@.skip(from as int), c),
        forall|j: int| from <= j < k ==> cs@[j] != c,
        k < cs.len() ==> cs@[k as int] == c,
{
    let mut k = from;
    while k < cs.len() && cs[k] != c
        invariant
            from <= k <= cs.len(),
            forall|j: int| from <= j < k ==> cs@[j] != c,
        decreases cs.len() - k,
    {
        k += 1;
    }
    proof {
        lemma_prefix_len_without(cs@.skip(from as int), c, k - from);
    }
    k
}

/// The pieces of `cs` between occurrences of `sep` (`str::split`).
pub fn split(cs: &Vec<char>, sep: char) -> (pieces: Vec<Vec<char>>)
    ensures
        char_views(pieces@) == spec_split(cs@, sep),
{
    let n = cs.len();
    let mut pieces: Vec<Vec<char>> = Vec::new();
    let mut start: usize = 0;
    assert(cs@.skip(0) =~= cs@);
    loop
        invariant
            start <= n == cs.len(),
            char_views(pieces@) + spec_split(cs@.skip(start as int), sep) == spec_split(cs@, sep),
        decreases n - start,
    {
        let k = find_char(cs, start, sep);
        let piece = copy_range(cs, start, k);
        let ghost rest = cs@.skip(start as int);
        let ghost before = pieces@;
        assert(piece@ =~= rest.take((k - start) as int));
        pieces.push(piece);
        assert(char_views(pieces@) =~= char_views(before) + seq![piece@]);
        if k == n {
            assert(rest.take((k - start) as int) =~= rest);
            assert(char_views(before) + seq![rest] =~= char_views(pieces@));
            return pieces;
        }
        assert(rest.skip(k - start + 1) =~= cs@.skip(k + 1));
        assert(char_views(before) + spec_split(rest, sep) =~= char_views(pieces@) + spec_split(
            cs@.skip(k + 1),
            sep,
        ));
        start = k + 1;
    }
}

/// `line` without one trailing carriage return.
pub fn strip_cr(line: Vec<char>) -> (out: Vec<char>)
    ensures
        out@ == spec_strip_cr(line@),
{
    let mut line = line;
    if line.len() > 0 && line[line.len() - 1] == '\r' {
        line.pop();
    }
    line
}

/// The lines of `cs` (`str::lines`).
pub fn lines(cs: &Vec<char>) -> (ls: Vec<Vec<char>>)
    ensures
        char_views(ls@) == spec_lines(cs@),
{
    let n = cs.len();
    let mut ls: Vec<Vec<char>> = Vec::new();
    let mut start: usize = 0;
    assert(cs@.skip(0) =~= cs@);
    while start < n
        invariant
            start <= n == cs.len(),
            char_views(ls@) + spec_lines(cs@.skip(start as int)) == spec_lines(cs@),
        decreases n - start,
    {
        let k = find_char(cs, start, '\n');
        let ghost rest = cs@.skip(start as int);
        let ghost before = ls@;
        if k == n {
            let piece = copy_range(cs, start, k);
            assert(piece@ =~= rest);
            ls.push(piece);
            assert(char_views(ls@) =~= char_views(before) + seq![piece@]);
            assert(cs@.skip(n as int) =~= Seq::<char>::empty());
            assert(char_views(ls@) + spec_lines(cs@.skip(n as int)) =~= char_views(before)
                + spec_lines(rest));
            start = n;
        } else {
            let piece = strip_cr(copy_range(cs, start, k));
            assert(cs@.subrange(start as int, k as int) =~= rest.take((k - start) as int));
            ls.push(piece);
            assert(char_views(ls@) =~= char_views(before) + seq![piece@]);
            assert(rest.skip(k - start + 1) =~= cs@.skip(k + 1));
            assert(char_views(before) + spec_lines(rest) =~= char_views(ls@) + spec_lines(
                cs@.skip(k + 1),
            ));
            start = k + 1;
        }
    }
    assert(cs@.skip(n as int) =~= Seq::<char>::empty());
    assert(char_views(ls@) + Seq::<Seq<char>>::empty() =~= char_views(ls@));
    ls
}

/// Every character of `a` occurs in `b`.
pub open spec fn chars_within(a: Seq<char>, b: Seq<char>) -> bool {
    forall|i: int| 0 <= i < a.len() ==> b.contains(#[trigger] a[i])
}

/// A character that `b` lacks, `a` lacks too when its characters come from `b`.
pub proof fn lemma_within_lacks(a: Seq<char>, b: Seq<char>, c: char)
    requires
        chars_within(a, b),
        !b.contains(c),
    ensures
        !a.contains(c),
{
    if a.contains(c) {
        let i = choose|i: int| 0 <= i < a.len() && a[i] == c;
        assert(b.contains(a[i]));
    }
}

/// Drawing characters from `b`, itself drawn from `c`, draws them from `c`.
pub proof fn lemma_within_trans(a: Seq<char>, b: Seq<char>, c: Seq<char>)
    requires
        chars_within(a, b),
        chars_within(b, c),
    ensures
        chars_within(a, c),
{
    assert forall|i: int| 0 <= i < a.len() implies c.contains(#[trigger] a[i]) by {
        assert(b.contains(a[i]));
        let j = choose|j: int| 0 <= j < b.len() && b[j] == a[i];
        assert(c.contains(b[j]));
    }
}

/// A subrange draws its characters from the whole.
pub proof fn lemma_subrange_within(s: Seq<char>, lo: int, hi: int)
    requires
        0 <= lo <= hi <= s.len(),
    ensures
        chars_within(s.subrange(lo, hi), s),
{
    assert forall|i: int| 0 <= i < s.subrange(lo, hi).len() implies s.contains(
        #[trigger] s.subrange(lo, hi)[i],
    ) by {
        assert(s[lo + i] == s.subrange(lo, hi)[i]);
    }
}

/// Trimming the start leaves a suffix whose first character, if any, is not
/// whitespace.
pub proof fn lemma_trim_start_shape(s: Seq<char>)
    ensures
        spec_trim_start(s).len() <= s.len(),
        spec_trim_start(s) == s.skip(s.len() - spec_trim_start(s).len()),
        spec_trim_start(s).len() > 0 ==> !is_whitespace(spec_trim_start(s)[0]),
    decreases s.len(),
{
    if s.len() > 0 && is_whitespace(s[0]) {
        lemma_trim_start_shape(s.drop_first());
        assert(s.drop_first().skip(s.drop_first().len() - spec_trim_start(s).len()) =~= s.skip(
            s.len() - spec_trim_start(s).len(),
        ));
    } else {
        assert(s.skip(0) =~= s);
    }
}

/// Trimming the end leaves a prefix whose last character, if any, is not
/// whitespace.
pub proof fn lemma_trim_end_shape(s: Seq<char>)
    ensures
        spec_trim_end(s).len() <= s.len(),
        spec_trim_end(s) == s.take(spec_trim_end(s).len() as int),
        spec_trim_end(s).len() > 0 ==> !is_whitespace(spec_trim_end(s).last()),
    decreases s.len(),
{
    if s.len() > 0 && is_whitespace(s.last()) {
        lemma_trim_end_shape(s.drop_last());
        assert(s.drop_last().take(spec_trim_end(s).len() as int) =~= s.take(
            spec_trim_end(s).len() as int,
        ));
    } else {
        assert(s.take(s.len() as int) =~= s);
    }
}

/// A trimmed text draws its characters from the original and neither begins
/// nor ends with whitespace.
pub proof fn lemma_trim_shape(s: Seq<char>)
    ensures
        chars_within(spec_trim(s), s),
        spec_trim(s).len() > 0 ==> !is_whitespace(spec_trim(s)[0]) && !is_whitespace(
            spec_trim(s).last(),
        ),
{
    let u = spec_trim_start(s);
    lemma_trim_start_shape(s);
    lemma_trim_end_shape(u);
    let t = spec_trim_end(u);
    lemma_subrange_within(s, s.len() - u.len(), s.len() as int);
    assert(s.skip(s.len() - u.len()) =~= s.subrange(s.len() - u.len(), s.len() as int));
    lemma_subrange_within(u, 0, t.len() as int);
    assert(u.take(t.len() as int) =~= u.subrange(0, t.len() as int));
    lemma_within_trans(t, u, s);
    if t.len() > 0 {
        assert(t[0] == u[0]);
    }
}

/// Removing occurrences of a pattern keeps only characters of the original.
pub proof fn lemma_remove_all_within(s: Seq<char>, pat: Seq<char>)
    ensures
        chars_within(spec_remove_all(s, pat), s),
    decreases s.len(),
{
    if s.len() == 0 || pat.len() == 0 {
    } else if pat.is_prefix_of(s) {
        let t = s.skip(pat.len() as int);
        lemma_remove_all_within(t, pat);
        lemma_subrange_within(s, pat.len() as int, s.len() as int);
        assert(t =~= s.subrange(pat.len() as int, s.len() as int));
        lemma_within_trans(spec_remove_all(s, pat), t, s);
    } else {
        let t = s.drop_first();
        lemma_remove_all_within(t, pat);
        lemma_subrange_within(s, 1, s.len() as int);
        assert(t =~= s.subrange(1, s.len() as int));
        lemma_within_trans(spec_remove_all(t, pat), t, s);
        let r = spec_remove_all(s, pat);
        assert forall|i: int| 0 <= i < r.len() implies s.contains(#[trigger] r[i]) by {
            if i == 0 {
                assert(s[0] == r[0]);
            } else {
                assert(r[i] == spec_remove_all(t, pat)[i - 1]);
            }
        }
    }
}

/// Removing every occurrence of a single character leaves none of it.
pub proof fn lemma_remove_char_lacks(s: Seq<char>, c: char)
    ensures
        !spec_remove_all(s, seq![c]).contains(c),
    decreases s.len(),
{
    let pat = seq![c];
    if s.len() == 0 {
    } else if pat.is_prefix_of(s) {
        lemma_remove_char_lacks(s.skip(1), c);
    } else {
        lemma_remove_char_lacks(s.drop_first(), c);
        assert(s[0] != c) by {
            if s[0] == c {
                assert(pat =~= s.subrange(0, 1));
            }
        }
        let r = spec_remove_all(s, pat);
        let t = spec_remove_all(s.drop_first(), pat);
        if r.contains(c) {
            let i = choose|i: int| 0 <= i < r.len() && r[i] == c;
            assert(i > 0);
            assert(t[i - 1] == c);
        }
    }
}

/// The pieces of a split hold no separator and draw their characters from
/// the text.
pub proof fn lemma_split_pieces(s: Seq<char>, sep: char)
    ensures
        forall|i: int|
            0 <= i < spec_split(s, sep).len() ==> !(#[trigger] spec_split(s, sep)[i]).contains(sep)
                && chars_within(spec_split(s, sep)[i], s),
    decreases s.len(),
{
    let k = spec_prefix_len_without(s, sep);
    lemma_prefix_len_bound(s, sep);
    let head = s.take(k as int);
    assert(!head.contains(sep)) by {
        if head.contains(sep) {
            let j = choose|j: int| 0 <= j < head.len() && head[j] == sep;
            assert(s[j] == sep);
        }
    }
    lemma_subrange_within(s, 0, k as int);
    assert(head =~= s.subrange(0, k as int));
    if k >= s.len() {
        assert(s =~= head);
    } else {
        let rest = s.skip(k + 1int);
        lemma_split_pieces(rest, sep);
        lemma_subrange_within(s, k + 1int, s.len() as int);
        assert(rest =~= s.subrange(k + 1int, s.len() as int));
        assert forall|i: int| 0 <= i < spec_split(s, sep).len() implies !(#[trigger] spec_split(
            s,
            sep,
        )[i]).contains(sep) && chars_within(spec_split(s, sep)[i], s) by {
            if i > 0 {
                assert(spec_split(s, sep)[i] == spec_split(rest, sep)[i - 1]);
                lemma_within_trans(spec_split(rest, sep)[i - 1], rest, s);
            }
        }
    }
}

/// The lines of a text that ends a line (or is empty) followed by more text
/// are its lines followed by the lines of the rest.
pub proof fn lemma_lines_append(head: Seq<char>, rest: Seq<char>)
    requires
        head.len() == 0 || head.last() == '\n',
    ensures
        spec_lines(head + rest) == spec_lines(head) + spec_lines(rest),
    decreases head.len(),
{
    let s = head + rest;
    if head.len() == 0 {
        assert(s =~= rest);
        assert(spec_lines(head) =~= Seq::<Seq<char>>::empty());
        assert(spec_lines(rest) =~= Seq::<Seq<char>>::empty() + spec_lines(rest));
    } else {
        lemma_prefix_len_bound(head, '\n');
        let k = spec_prefix_len_without(head, '\n');
        if k >= head.len() {
            assert(head[head.len() - 1] != '\n');
        }
        assert(k < head.len());
        assert forall|j: int| 0 <= j < k implies s[j] != '\n' by {
            assert(s[j] == head[j]);
        }
        assert(s[k as int] == head[k as int]);
        lemma_prefix_len_without(s, '\n', k as int);
        let tail = head.skip(k + 1int);
        assert(tail.len() == 0 || tail.last() == '\n');
        lemma_lines_append(tail, rest);
        assert(s.take(k as int) =~= head.take(k as int));
        assert(s.skip(k + 1int) =~= tail + rest);
        assert(spec_lines(s) =~= seq![spec_strip_cr(head.take(k as int))] + (spec_lines(tail)
            + spec_lines(rest)));
    }
}

/// A final line ending adds no line to a text whose last line is unended;
/// it only drops a carriage return at the end of that last line.
pub proof fn lemma_lines_final_newline(s: Seq<char>)
    requires
        s.len() > 0,
        s.last() != '\n',
    ensures
        spec_lines(s).len() > 0,
        spec_lines(s.push('\n')) == spec_lines(s).update(
            spec_lines(s).len() - 1,
            spec_strip_cr(spec_lines(s).last()),
        ),
    decreases s.len(),
{
    let t = s.push('\n');
    lemma_prefix_len_bound(s, '\n');
    let k = spec_prefix_len_without(s, '\n');
    assert forall|j: int| 0 <= j < k implies t[j] != '\n' by {
        assert(t[j] == s[j]);
    }
    let e = Seq::<char>::empty();
    assert(spec_lines(e) == Seq::<Seq<char>>::empty());
    if k >= s.len() {
        assert(t[s.len() as int] == '\n');
        lemma_prefix_len_without(t, '\n', s.len() as int);
        assert(t.take(s.len() as int) =~= s);
        assert(t.skip(s.len() + 1int) =~= e);
        assert(spec_lines(s) == seq![s]);
        assert(spec_lines(t) == seq![spec_strip_cr(t.take(s.len() as int))] + spec_lines(
            t.skip(s.len() + 1int),
        ));
        assert(spec_lines(t) =~= seq![s].update(0, spec_strip_cr(s)));
    } else {
        assert(t[k as int] == s[k as int]);
        lemma_prefix_len_without(t, '\n', k as int);
        let rest = s.skip(k + 1int);
        assert(t.take(k as int) =~= s.take(k as int));
        if rest.len() == 0 {
            assert(s.last() == s[k as int]);
        }
        assert(rest.last() == s.last());
        lemma_lines_final_newline(rest);
        assert(t.skip(k + 1int) =~= rest.push('\n'));
        let head = spec_strip_cr(s.take(k as int));
        let lr = spec_lines(rest);
        assert(spec_lines(s) == seq![head] + lr);
        assert(spec_lines(t) == seq![head] + spec_lines(rest.push('\n')));
        assert(spec_lines(t) =~= (seq![head] + lr).update(
            lr.len() as int,
            spec_strip_cr(lr.last()),
        ));
    }
}

/// Trimming the start of a text with one more character at its end.
pub proof fn lemma_trim_start_push(x: Seq<char>, c: char)
    ensures
        spec_trim_start(x.push(c)) == if spec_trim_start(x).len() > 0 {
            spec_trim_start(x).push(c)
        } else {
            spec_trim_start(seq![c])
        },
    decreases x.len(),
{
    if x.len() == 0 {
        assert(x.push(c) =~= seq![c]);
    } else {
        assert(x.push(c)[0] == x[0]);
        if is_whitespace(x[0]) {
            assert(x.push(c).drop_first() =~= x.drop_first().push(c));
            lemma_trim_start_push(x.drop_first(), c);
        }
    }
}

/// Trailing whitespace never changes what trimming leaves.
pub proof fn lemma_trim_push_whitespace(x: Seq<char>, w: char)
    requires
        is_whitespace(w),
    ensures
        spec_trim(x.push(w)) == spec_trim(x),
{
    lemma_trim_start_push(x, w);
    let u = spec_trim_start(x);
    let e = Seq::<char>::empty();
    assert(seq![w].drop_first() =~= e);
    assert(spec_trim_start(seq![w]) == spec_trim_start(e));
    assert(spec_trim_end(e) == e);
    if u.len() > 0 {
        assert(u.push(w).drop_last() =~= u);
        assert(spec_trim_end(u.push(w)) == spec_trim_end(u));
    } else {
        assert(u =~= e);
    }
}

/// Removing a character other than the last keeps the last in place.
pub proof fn lemma_remove_char_push(x: Seq<char>, c: char, d: char)
    requires
        c != d,
    ensures
        spec_remove_all(x.push(c), seq![d]) == spec_remove_all(x, seq![d]).push(c),
    decreases x.len(),
{
    let pat = seq![d];
    let y = x.push(c);
    if x.len() == 0 {
        assert(y =~= seq![c]);
        if pat.is_prefix_of(y) {
            assert(y[0] == pat[0]);
        }
        assert(y.drop_first() =~= Seq::<char>::empty());
        assert(spec_remove_all(Seq::<char>::empty(), pat) == Seq::<char>::empty());
        assert(seq![y[0]] + Seq::<char>::empty() =~= Seq::<char>::empty().push(c));
    } else {
        assert(y[0] == x[0]);
        assert(pat.is_prefix_of(y) == pat.is_prefix_of(x)) by {
            assert(y.subrange(0, 1) =~= x.subrange(0, 1));
        }
        if pat.is_prefix_of(x) {
            assert(y.skip(1) =~= x.skip(1).push(c));
            lemma_remove_char_push(x.skip(1), c, d);
        } else {
            assert(y.drop_first() =~= x.drop_first().push(c));
            lemma_remove_char_push(x.drop_first(), c, d);
            assert(seq![x[0]] + spec_remove_all(x.drop_first(), pat).push(c) =~= (seq![x[0]]
                + spec_remove_all(x.drop_first(), pat)).push(c));
        }
    }
}

} // verus!
