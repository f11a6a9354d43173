//! Paths as strings, with Unix path rules (the only target, since grammars
//! are loaded with `dlopen`): adjoining, final component and extension, and
//! the search for a file among subdirectories.

use vstd::prelude::*;

use crate::grammar::opt_view;
use crate::text::{
    char_views, chars_of, copy_range, lemma_split_pieces, spec_split, split, string_of,
};

verus! {


/// The last of `pieces` that is neither empty nor `.`.
pub open spec fn spec_last_component(pieces: Seq<Seq<char>>) -> Option<Seq<char>>
    decreases pieces.len(),
{
    if pieces.len() == 0 {
        None
    } else if pieces.last().len() == 0 || pieces.last() == seq!['.'] {
        spec_last_component(pieces.drop_last())
    } else {
        Some(pieces.last())
    }
}

/// The final component of `path` as `Path::file_name` gives it on Unix: the
/// last of the `/`-separated pieces that is neither empty nor `.`; `None`
/// when there is none (the empty path, `/`, `.`) or when it is `..`.
pub open spec fn spec_file_name(path: Seq<char>) -> Option<Seq<char>> {
    match spec_last_component(spec_split(path, '/')) {
        Some(c) => if c == seq!['.', '.'] {
            None
        } else {
            Some(c)
        },
        None => None,
    }
}

/// Whether `path` is absolute on Unix: it starts at the root.
pub open spec fn is_absolute(path: Seq<char>) -> bool {
    path.len() > 0 && path[0] == '/'
}

/// The extension that a final component `name` carries: the part after its
/// last `.`, unless it has no `.` or its only `.` is the first character.
pub open spec fn spec_extension_of_name(name: Seq<char>) -> Option<Seq<char>> {
    match name.index_of_last('.') {
        Some(k) => if k == 0 {
            None
        } else {
            Some(name.skip(k + 1))
        },
        None => None,
    }
}

/// The extension of `path` (`Path::extension`).
pub open spec fn spec_extension(path: Seq<char>) -> Option<Seq<char>> {
    match spec_file_name(path) {
        Some(name) => spec_extension_of_name(name),
        None => None,
    }
}

/// `base` joined with `path` as `Path::join` does it on Unix: an absolute
/// `path` replaces `base`; a relative one is appended, with a `/` between
/// them unless `base` is empty or already ends in `/`.
pub open spec fn spec_path_join(base: Seq<char>, path: Seq<char>) -> Seq<char> {
    if is_absolute(path) {
        path
    } else if base.len() == 0 || base.last() == '/' {
        base + path
    } else {
        base + seq!['/'] + path
    }
}

/// `base` joined with `path` (`Path::join`, Unix paths).
pub fn path_join(base: &str, path: &str) -> (joined: String)
    ensures
        joined@ == spec_path_join(base@, path@),
{
    let p = chars_of(path);
    if p.len() > 0 && p[0] == '/' {
        return string_of(&p);
    }
    let b = chars_of(base);
    let mut joined = string_of(&b);
    if b.len() > 0 && b[b.len() - 1] != '/' {
        joined.push('/');
    }
    joined.append(path);
    joined
}

/// The final component of `path` (`Path::file_name`, Unix paths). A
/// component is never empty and holds no `/`.
pub fn file_name(path: &str) -> (name: Option<String>)
    ensures
        opt_view(name) == spec_file_name(path@),
        name matches Some(n) ==> n@.len() > 0 && !n@.contains('/'),
{
    let cs = chars_of(path);
    let pieces = split(&cs, '/');
    let ghost all = char_views(pieces@);
    proof {
        lemma_split_pieces(cs@, '/');
    }
    let mut k: usize = pieces.len();
    assert(all.take(k as int) =~= all);
    while k > 0 && (pieces[k - 1].len() == 0 || (pieces[k - 1].len() == 1 && pieces[k - 1][0]
        == '.'))
        invariant
            k <= pieces.len(),
            all == char_views(pieces@),
            spec_last_component(all.take(k as int)) == spec_last_component(all),
        decreases k,
    {
        let ghost piece = pieces@[k - 1]@;
        assert(all.take(k as int).last() == piece);
        assert(piece.len() == 0 || piece =~= seq!['.']);
        assert(all.take(k as int).drop_last() =~= all.take(k - 1));
        k -= 1;
    }
    if k == 0 {
        return None;
    }
    let last = &pieces[k - 1];
    let ghost piece = last@;
    assert(all.take(k as int).last() == piece);
    assert(piece.len() > 0 && piece != seq!['.']) by {
        if piece.len() == 1 && piece == seq!['.'] {
            assert(piece[0] == '.');
        }
    }
    assert(all[k - 1] == piece);
    assert(!piece.contains('/'));
    if last.len() == 2 && last[0] == '.' && last[1] == '.' {
        assert(piece =~= seq!['.', '.']);
        None
    } else {
        assert(piece != seq!['.', '.']) by {
            if piece == seq!['.', '.'] {
                assert(piece[0] == '.' && piece[1] == '.');
            }
        }
        Some(string_of(last))
    }
}

/// The extension of `path` (`Path::extension`): the part of its file name
/// after the final `.`; `None` without a file name, without a `.`, or when the
/// file name begins with its only `.`.
pub fn extension(path: &str) -> (ext: Option<String>)
    ensures
        opt_view(ext) == spec_extension(path@),
{
    match file_name(path) {
        None => None,
        Some(n) => {
            let cs = chars_of(n.as_str());
            let mut k: usize = cs.len();
            while k > 0 && cs[k - 1] != '.'
                invariant
                    k <= cs.len(),
                    forall|j: int| k <= j < cs.len() ==> cs@[j] != '.',
                decreases k,
            {
                k -= 1;
            }
            proof {
                cs@.index_of_last_ensures('.');
            }
            if k == 0 {
                assert(!cs@.contains('.') || cs@[0] == '.') by {
                    if cs@.contains('.') {
                        let i = choose|i: int| 0 <= i < cs@.len() && cs@[i] == '.';
                        assert(cs@[i] == '.');
                    }
                }
                None
            } else if k == 1 {
                None
            } else {
                assert(cs@.contains('.')) by {
                    assert(cs@[k - 1] == '.');
                }
                let rest = copy_range(&cs, k, cs.len());
                assert(rest@ =~= cs@.skip(k as int));
                Some(string_of(&rest))
            }
        },
    }
}

/// Whether the probe `is_file`, asked about a string whose view is `path`,
/// can answer `answer`.
pub open spec fn probe_answers<F: Fn(&String) -> bool>(is_file: F, path: Seq<char>, answer: bool) -> bool {
    exists|q: String| q@ == path && #[trigger] is_file.ensures((&q,), answer)
}

/// Looks for `filename` in the subdirectories `subdirs` of a directory, in
/// their order: the first candidate `subdir` joined with `filename` for which
/// the probe `is_file` answers `true` is returned; `None` when it answered
/// `false` for every candidate.
pub fn find_in_path<F: Fn(&String) -> bool>(subdirs: &Vec<String>, filename: &str, is_file: F) -> (found: Option<String>)
    requires
        forall|p: &String| #[trigger] is_file.requires((p,)),
    ensures
        found matches Some(p) ==> exists|i: int|
            0 <= i < subdirs.len() && p@ == spec_path_join(#[trigger] subdirs@[i]@, filename@)
                && is_file.ensures((&p,), true) && forall|j: int|
                0 <= j < i ==> probe_answers(is_file, spec_path_join(#[trigger] subdirs@[j]@, filename@), false),
        found is None ==> forall|j: int|
            0 <= j < subdirs.len() ==> probe_answers(is_file, spec_path_join(#[trigger] subdirs@[j]@, filename@), false),
{
    let mut i: usize = 0;
    while i < subdirs.len()
        invariant
            i <= subdirs.len(),
            forall|p: &String| #[trigger] is_file.requires((p,)),
            forall|j: int|
                0 <= j < i ==> probe_answers(is_file, spec_path_join(#[trigger] subdirs@[j]@, filename@), false),
        decreases subdirs.len() - i,
    {
        let candidate = path_join(subdirs[i].as_str(), filename);
        if is_file(&candidate) {
            return Some(candidate);
        }
        assert(probe_answers(is_file, spec_path_join(subdirs@[i as int]@, filename@), false));
        i += 1;
    }
    None
}

} // verus!
