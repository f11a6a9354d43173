//! The modeline of a query file: the leading block of `;` comment lines, in
//! which a line `; inherits: a, b` names the languages whose queries the file
//! builds on.

use vstd::prelude::*;

use crate::text::{
    char_views, chars_of, chars_within, is_whitespace, lemma_lines_append,
    lemma_remove_all_within, lemma_remove_char_lacks, lemma_split_pieces, lemma_trim_shape,
    lemma_lines_final_newline, lemma_remove_char_push, lemma_trim_push_whitespace,
    lemma_within_lacks, lemma_within_trans, lines, remove_all, spec_lines, spec_remove_all,
    spec_split, spec_trim, split, starts_with, string_of, trim, views,
};

verus! {

/// What the leading comment block of a query file declares.
#[derive(Debug, Clone, PartialEq)]
pub struct Modeline {
    /// The languages named on `inherits:` lines, in order.
    pub inherits: Vec<String>,
    /// Whether the file extends the queries it inherits; never set by parsing.
    pub extends: bool,
}

/// The languages one comment line names: the line with its `;`s removed and
/// trimmed must begin with `inherits: `; what follows `inherits:` is split at
/// commas and each piece is trimmed.
pub open spec fn spec_line_inherits(line: Seq<char>) -> Seq<Seq<char>> {
    let trimmed = spec_trim(spec_remove_all(line, ";"@));
    if "inherits: "@.is_prefix_of(trimmed) {
        spec_split(spec_trim(spec_remove_all(trimmed, "inherits:"@)), ',').map_values(
            |p: Seq<char>| spec_trim(p),
        )
    } else {
        seq![]
    }
}

/// The languages named by the leading lines that begin with `;`; the first
/// line that does not begin with `;` ends the block.
pub open spec fn spec_block_inherits(lines: Seq<Seq<char>>) -> Seq<Seq<char>>
    decreases lines.len(),
{
    if lines.len() == 0 || !";"@.is_prefix_of(lines[0]) {
        seq![]
    } else {
        spec_line_inherits(lines[0]) + spec_block_inherits(lines.drop_first())
    }
}

/// The languages that the modeline of `source` inherits from.
pub open spec fn spec_modeline_inherits(source: Seq<char>) -> Seq<Seq<char>> {
    spec_block_inherits(spec_lines(source))
}

/// The languages named on one comment line.
fn line_inherits(line: &Vec<char>, semicolon: &Vec<char>, marker: &Vec<char>, key: &Vec<char>) -> (names: Vec<String>)
    requires
        semicolon@ == ";"@,
        marker@ == "inherits: "@,
        key@ == "inherits:"@,
        semicolon@.len() > 0,
        key@.len() > 0,
    ensures
        views(names@) == spec_line_inherits(line@),
{
    let mut names: Vec<String> = Vec::new();
    let trimmed = trim(&remove_all(line, semicolon));
    if !starts_with(&trimmed, marker) {
        assert(views(names@) =~= Seq::<Seq<char>>::empty());
        return names;
    }
    let pieces = split(&trim(&remove_all(&trimmed, key)), ',');
    let ghost expected = spec_split(spec_trim(spec_remove_all(trimmed@, "inherits:"@)), ',');
    let mut i: usize = 0;
    while i < pieces.len()
        invariant
            i <= pieces.len(),
            char_views(pieces@) == expected,
            views(names@) == expected.take(i as int).map_values(|p: Seq<char>| spec_trim(p)),
        decreases pieces.len() - i,
    {
        let name = string_of(&trim(&pieces[i]));
        let ghost before = names@;
        names.push(name);
        assert(expected[i as int] == pieces@[i as int]@);
        assert(views(names@) =~= views(before).push(spec_trim(expected[i as int])));
        assert(expected.take(i + 1) =~= expected.take(i as int).push(expected[i as int]));
        assert(views(names@) =~= expected.take(i + 1).map_values(|p: Seq<char>| spec_trim(p)));
        i += 1;
    }
    assert(expected.take(pieces.len() as int) =~= expected);
    names
}

impl Modeline {
    /// Reads the modeline at the top of a query file.
    pub fn get(source: &str) -> (m: Modeline)
        ensures
            views(m.inherits@) == spec_modeline_inherits(source@),
            !m.extends,
    {
        let cs = chars_of(source);
        let ls = lines(&cs);
        let semicolon = chars_of(";");
        let marker = chars_of("inherits: ");
        let key = chars_of("inherits:");
        proof {
            reveal_strlit(";");
            reveal_strlit("inherits:");
        }
        let ghost all = char_views(ls@);
        let mut inherits: Vec<String> = Vec::new();
        let mut i: usize = 0;
        assert(all.skip(0) =~= all);
        while i < ls.len() && starts_with(&ls[i], &semicolon)
            invariant
                i <= ls.len(),
                all == char_views(ls@),
                semicolon@ == ";"@,
                marker@ == "inherits: "@,
                key@ == "inherits:"@,
                semicolon@.len() > 0,
                key@.len() > 0,
                views(inherits@) + spec_block_inherits(all.skip(i as int)) == spec_block_inherits(
                    all,
                ),
            decreases ls.len() - i,
        {
            let names = line_inherits(&ls[i], &semicolon, &marker, &key);
            let ghost before = inherits@;
            let mut more = names;
            inherits.append(&mut more);
            assert(all.skip(i as int)[0] == ls@[i as int]@);
            assert(all.skip(i as int).drop_first() =~= all.skip(i + 1));
            assert(views(inherits@) =~= views(before) + views(names@));
            i += 1;
        }
        assert(spec_block_inherits(all.skip(i as int)) =~= Seq::<Seq<char>>::empty());
        assert(views(inherits@) + Seq::<Seq<char>>::empty() =~= views(inherits@));
        Modeline { inherits, extends: false }
    }
}

/// Whether `name` is clean: it neither begins nor ends with whitespace and
/// holds no `,` and no `;`.
pub open spec fn is_clean_name(name: Seq<char>) -> bool {
    &&& !name.contains(',')
    &&& !name.contains(';')
    &&& name.len() > 0 ==> !is_whitespace(name[0]) && !is_whitespace(name.last())
}

/// A block whose next line does not begin with `;` ends there.
proof fn lemma_block_append(first: Seq<Seq<char>>, rest: Seq<Seq<char>>)
    requires
        rest.len() == 0 || !";"@.is_prefix_of(rest[0]),
    ensures
        spec_block_inherits(first + rest) == spec_block_inherits(first),
    decreases first.len(),
{
    if first.len() == 0 {
        assert(first + rest =~= rest);
    } else {
        assert((first + rest)[0] == first[0]);
        assert((first + rest).drop_first() =~= first.drop_first() + rest);
        lemma_block_append(first.drop_first(), rest);
    }
}

/// Only the leading comment block counts: text that follows a line that does
/// not begin with `;` never changes what a modeline inherits. Here `head` is
/// empty or ends a line, and `rest` starts with a line that does not begin
/// with `;`.
pub proof fn lemma_modeline_ends_at_first_code_line(head: Seq<char>, rest: Seq<char>)
    requires
        head.len() == 0 || head.last() == '\n',
        rest.len() == 0 || rest[0] != ';',
    ensures
        spec_modeline_inherits(head + rest) == spec_modeline_inherits(head),
{
    reveal_strlit(";");
    lemma_lines_append(head, rest);
    let ls = spec_lines(rest);
    if rest.len() > 0 {
        crate::text::lemma_prefix_len_bound(rest, '\n');
        let k = crate::text::spec_prefix_len_without(rest, '\n');
        let line = ls[0];
        if k >= rest.len() {
            assert(line == rest);
        } else {
            assert(line == crate::text::spec_strip_cr(rest.take(k as int)));
        }
        if line.len() > 0 {
            assert(line[0] == rest[0]);
        }
        if ";"@.is_prefix_of(line) {
            assert(line[0] == ";"@[0]);
        }
    }
    lemma_block_append(spec_lines(head), ls);
}

/// Every name a comment line inherits is clean.
proof fn lemma_line_names_clean(line: Seq<char>)
    ensures
        forall|i: int|
            0 <= i < spec_line_inherits(line).len() ==> is_clean_name(
                #[trigger] spec_line_inherits(line)[i],
            ),
{
    reveal_strlit(";");
    let removed = spec_remove_all(line, ";"@);
    let trimmed = spec_trim(removed);
    lemma_remove_char_lacks(line, ';');
    assert(";"@ =~= seq![';']);
    lemma_trim_shape(removed);
    lemma_within_lacks(trimmed, removed, ';');
    let stripped = spec_remove_all(trimmed, "inherits:"@);
    lemma_remove_all_within(trimmed, "inherits:"@);
    lemma_within_lacks(stripped, trimmed, ';');
    let body = spec_trim(stripped);
    lemma_trim_shape(stripped);
    lemma_within_lacks(body, stripped, ';');
    let pieces = spec_split(body, ',');
    lemma_split_pieces(body, ',');
    if "inherits: "@.is_prefix_of(trimmed) {
        assert forall|i: int|
            0 <= i < spec_line_inherits(line).len() implies is_clean_name(
            #[trigger] spec_line_inherits(line)[i],
        ) by {
            let p = pieces[i];
            assert(spec_line_inherits(line)[i] == spec_trim(p));
            lemma_within_lacks(p, body, ';');
            lemma_trim_shape(p);
            lemma_within_lacks(spec_trim(p), p, ';');
            lemma_within_lacks(spec_trim(p), p, ',');
        }
    }
}

/// Every name of a block of lines is clean.
proof fn lemma_block_names_clean(ls: Seq<Seq<char>>)
    ensures
        forall|i: int|
            0 <= i < spec_block_inherits(ls).len() ==> is_clean_name(
                #[trigger] spec_block_inherits(ls)[i],
            ),
    decreases ls.len(),
{
    if ls.len() > 0 && ";"@.is_prefix_of(ls[0]) {
        lemma_line_names_clean(ls[0]);
        lemma_block_names_clean(ls.drop_first());
        let a = spec_line_inherits(ls[0]);
        let b = spec_block_inherits(ls.drop_first());
        assert forall|i: int|
            0 <= i < spec_block_inherits(ls).len() implies is_clean_name(
            #[trigger] spec_block_inherits(ls)[i],
        ) by {
            if i < a.len() {
                assert(spec_block_inherits(ls)[i] == a[i]);
            } else {
                assert(spec_block_inherits(ls)[i] == b[i - a.len()]);
            }
        }
    }
}

/// Every inherited language name is clean: trimmed, and free of the `,` that
/// separates names and of the `;` that marks comments.
pub proof fn lemma_inherited_names_are_clean(source: Seq<char>)
    ensures
        forall|i: int|
            0 <= i < spec_modeline_inherits(source).len() ==> is_clean_name(
                #[trigger] spec_modeline_inherits(source)[i],
            ),
{
    lemma_block_names_clean(spec_lines(source));
}

/// The names a line inherits do not change when the line loses a final
/// carriage return, nor does whether it begins with `;`.
proof fn lemma_line_without_cr(line: Seq<char>)
    requires
        line.len() > 0,
        line.last() == '\r',
    ensures
        spec_line_inherits(line.drop_last()) == spec_line_inherits(line),
        ";"@.is_prefix_of(line.drop_last()) == ";"@.is_prefix_of(line),
{
    reveal_strlit(";");
    let short = line.drop_last();
    assert(short.push('\r') =~= line);
    assert(";"@ =~= seq![';']);
    lemma_remove_char_push(short, '\r', ';');
    lemma_trim_push_whitespace(spec_remove_all(short, ";"@), '\r');
    assert(";"@.len() == 1 && ";"@[0] == ';');
    if short.len() > 0 {
        assert(short[0] == line[0]);
        assert(short.subrange(0, 1) =~= line.subrange(0, 1));
    } else {
        assert(line[0] == '\r');
        if ";"@.is_prefix_of(line) {
            assert(line.subrange(0, 1)[0] == line[0]);
        }
    }
}

/// A block whose last line loses a final carriage return inherits the same.
proof fn lemma_block_last_without_cr(first: Seq<Seq<char>>, line: Seq<char>)
    requires
        line.len() > 0,
        line.last() == '\r',
    ensures
        spec_block_inherits(first.push(line.drop_last())) == spec_block_inherits(first.push(line)),
    decreases first.len(),
{
    lemma_line_without_cr(line);
    let a = first.push(line.drop_last());
    let b = first.push(line);
    if first.len() == 0 {
        assert(a.drop_first() =~= Seq::<Seq<char>>::empty());
        assert(b.drop_first() =~= Seq::<Seq<char>>::empty());
        assert(a[0] == line.drop_last());
        assert(b[0] == line);
    } else {
        assert(a[0] == first[0] && b[0] == first[0]);
        assert(a.drop_first() =~= first.drop_first().push(line.drop_last()));
        assert(b.drop_first() =~= first.drop_first().push(line));
        lemma_block_last_without_cr(first.drop_first(), line);
    }
}

/// A final line ending never changes the modeline: `source` and `source`
/// followed by `\n` inherit the same languages.
pub proof fn lemma_modeline_final_newline(source: Seq<char>)
    ensures
        spec_modeline_inherits(source.push('\n')) == spec_modeline_inherits(source),
{
    reveal_strlit(";");
    if source.len() == 0 || source.last() == '\n' {
        let nl = seq!['\n'];
        assert(source.push('\n') =~= source + nl);
        lemma_lines_append(source, nl);
        crate::text::lemma_prefix_len_without(nl, '\n', 0);
        assert(nl.skip(1) =~= Seq::<char>::empty());
        assert(nl.take(0) =~= Seq::<char>::empty());
        let e = Seq::<char>::empty();
        assert(spec_lines(e) == Seq::<Seq<char>>::empty());
        assert(crate::text::spec_strip_cr(e) == e);
        assert(spec_lines(nl) == seq![crate::text::spec_strip_cr(nl.take(0))] + spec_lines(
            nl.skip(1),
        ));
        assert(spec_lines(nl) =~= seq![e]);
        if ";"@.is_prefix_of(Seq::<char>::empty()) {
            assert(false);
        }
        lemma_block_append(spec_lines(source), spec_lines(nl));
    } else {
        lemma_lines_final_newline(source);
        let ls = spec_lines(source);
        let last = ls.last();
        let first = ls.drop_last();
        if last.len() > 0 && last.last() == '\r' {
            assert(ls =~= first.push(last));
            assert(ls.update(ls.len() - 1, crate::text::spec_strip_cr(last)) =~= first.push(
                last.drop_last(),
            ));
            lemma_block_last_without_cr(first, last);
        } else {
            assert(ls.update(ls.len() - 1, crate::text::spec_strip_cr(last)) =~= ls);
        }
    }
}

/// A leading comment line contributes exactly its own names and never ends
/// the block: for a line `line` (without a line feed) that begins with `;`,
/// the modeline of `line`, a line feed and `rest` is the names of `line`
/// followed by the modeline of `rest`.
pub proof fn lemma_comment_line_continues_block(line: Seq<char>, rest: Seq<char>)
    requires
        !line.contains('\n'),
        line.len() > 0,
        line[0] == ';',
    ensures
        spec_modeline_inherits(line.push('\n') + rest) == spec_line_inherits(line)
            + spec_modeline_inherits(rest),
{
    reveal_strlit(";");
    let head = line.push('\n');
    lemma_lines_append(head, rest);
    assert forall|j: int| 0 <= j < line.len() implies head[j] != '\n' by {
        assert(head[j] == line[j]);
        if line[j] == '\n' {
            assert(line.contains('\n'));
        }
    }
    crate::text::lemma_prefix_len_without(head, '\n', line.len() as int);
    let e = Seq::<char>::empty();
    assert(spec_lines(e) == Seq::<Seq<char>>::empty());
    assert(head.take(line.len() as int) =~= line);
    assert(head.skip(line.len() + 1int) =~= e);
    let first = crate::text::spec_strip_cr(line);
    assert(spec_lines(head) == seq![first] + spec_lines(e));
    assert(spec_lines(head) =~= seq![first]);
    assert(";"@.len() == 1 && ";"@[0] == ';');
    if line.last() == '\r' && line.len() > 0 {
        lemma_line_without_cr(line);
    }
    assert(spec_line_inherits(first) == spec_line_inherits(line));
    assert(";"@.is_prefix_of(line)) by {
        assert(line.subrange(0, 1) =~= ";"@);
    }
    assert(";"@.is_prefix_of(first));
    let all = seq![first] + spec_lines(rest);
    assert(all[0] == first);
    assert(all.drop_first() =~= spec_lines(rest));
}

/// A leading comment line that declares no inheritance neither adds names nor
/// ends the block: when `line` begins with `;` and, with its `;`s removed and
/// trimmed, does not begin with `inherits: `, the modeline of `line`, a line
/// feed and `rest` is the modeline of `rest`.
pub proof fn lemma_other_comment_line_is_skipped(line: Seq<char>, rest: Seq<char>)
    requires
        !line.contains('\n'),
        line.len() > 0,
        line[0] == ';',
        !"inherits: "@.is_prefix_of(spec_trim(spec_remove_all(line, ";"@))),
    ensures
        spec_modeline_inherits(line.push('\n') + rest) == spec_modeline_inherits(rest),
{
    lemma_comment_line_continues_block(line, rest);
    assert(spec_line_inherits(line) =~= Seq::<Seq<char>>::empty());
    assert(Seq::<Seq<char>>::empty() + spec_modeline_inherits(rest) =~= spec_modeline_inherits(
        rest,
    ));
}

} // verus!
