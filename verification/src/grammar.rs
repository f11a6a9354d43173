//! Choosing a grammar out of the `tree-sitter` section of a grammar
//! directory's `package.json`: the language a configuration declares, where its
//! parser lies, which configuration a file extension selects, and the query
//! sources and names that loading a grammar needs.

use vstd::prelude::*;

use crate::paths::{extension, file_name, path_join, spec_extension, spec_file_name, spec_path_join};
use crate::text::{chars_of, copy_range, remove_all, spec_remove_all, starts_with, string_of, views};

verus! {

/// One entry of the `tree-sitter` list of a grammar's `package.json`.
pub struct TreeSitterConfig {
    /// The directory of the grammar, relative to the package.
    pub path: Option<String>,
    /// Highlight query files, relative to the package.
    pub highlights: Vec<String>,
    /// Injection query files, relative to the package.
    pub injections: Vec<String>,
    /// Locals query files, relative to the package.
    pub locals: Vec<String>,
    /// The file extensions the grammar handles.
    pub file_types: Vec<String>,
}

/// A grammar found on disk: its parser library and its query sources.
pub struct Grammar {
    /// The shared object holding the parser.
    pub parser: String,
    /// The highlight queries, concatenated.
    pub highlights: String,
    /// The locals queries, concatenated.
    pub locals: String,
    /// The injection queries, concatenated.
    pub injections: String,
}

/// The view of an optional string.
pub open spec fn opt_view(o: Option<String>) -> Option<Seq<char>> {
    match o {
        Some(s) => Some(s@),
        None => None,
    }
}

/// The prefix that grammar package directories carry.
pub open spec fn grammar_prefix() -> Seq<char> {
    "tree-sitter-"@
}

/// The language a configuration declares when grammars are loaded: the final
/// component of its `path`, or else the package directory's name without its
/// leading `tree-sitter-`; `None` when there is no such name (the directory
/// name does not start with `tree-sitter-`, or the path has no final
/// component).
pub open spec fn spec_config_language(grammar_dir: Seq<char>, path: Option<Seq<char>>) -> Option<
    Seq<char>,
> {
    match path {
        Some(p) => spec_file_name(p),
        None => match spec_file_name(grammar_dir) {
            Some(n) => if grammar_prefix().is_prefix_of(n) {
                Some(n.skip(grammar_prefix().len() as int))
            } else {
                None
            },
            None => None,
        },
    }
}

/// Where the parser of a configuration lies: `<dir>/<path>/parser.so` when
/// the configuration has a `path`, else `<dir>/<language>.so`.
pub open spec fn spec_parser_path(grammar_dir: Seq<char>, path: Option<Seq<char>>, language: Seq<
    char,
>) -> Seq<char> {
    match path {
        Some(p) => spec_path_join(spec_path_join(grammar_dir, p), "parser.so"@),
        None => spec_path_join(grammar_dir, language + ".so"@),
    }
}

/// The language a configuration declares when a file's language is
/// detected: as for loading, except that every `tree-sitter-` is removed from
/// the directory name.
pub open spec fn spec_detected_language(grammar_dir: Seq<char>, path: Option<Seq<char>>) -> Option<
    Seq<char>,
> {
    match path {
        Some(p) => spec_file_name(p),
        None => match spec_file_name(grammar_dir) {
            Some(n) => Some(spec_remove_all(n, grammar_prefix())),
            None => None,
        },
    }
}

/// Whether the configurations from `lo` up to `hi` all declare a language,
/// and none of them `language`.
pub open spec fn others_from_to(
    grammar_dir: Seq<char>,
    configs: Seq<TreeSitterConfig>,
    language: Seq<char>,
    lo: int,
    hi: int,
) -> bool {
    forall|k: int|
        lo <= k < hi ==> (#[trigger] spec_config_language(grammar_dir, opt_view(configs[k].path))
            matches Some(n) && n != language)
}

/// Whether a configuration handles files with extension `ext`.
pub open spec fn handles(config: TreeSitterConfig, ext: Seq<char>) -> bool {
    views(config.file_types@).contains(ext)
}

/// The outcome of scanning the configurations of one package for a language.
/// Scanning is driven by its caller: on `Candidate` the caller checks whether
/// the parser file exists and hands the answer to `after_parser_check`.
pub enum ConfigStep {
    /// The configuration at `index` declares the language; its parser is
    /// expected at `parser`, which is still to be checked.
    Candidate { index: usize, parser: String },
    /// The configuration at `index` declares the language and its parser
    /// exists at `parser`: it is the grammar to load.
    Load { index: usize, parser: String },
    /// The configuration at `index` declares no language.
    Unnamed { index: usize },
    /// No further configuration declares the language.
    Exhausted,
}

/// Whether `step` is what scanning the configurations from `from` on for
/// `language` gives: the first configuration that declares `language` (with
/// its parser path) or declares no language, or exhaustion when every
/// remaining one declares another language.
pub open spec fn scans_to(
    grammar_dir: Seq<char>,
    configs: Seq<TreeSitterConfig>,
    language: Seq<char>,
    from: int,
    step: ConfigStep,
) -> bool {
    match step {
        ConfigStep::Candidate { index, parser } => {
            &&& from <= index < configs.len()
            &&& others_from_to(grammar_dir, configs, language, from, index as int)
            &&& spec_config_language(grammar_dir, opt_view(configs[index as int].path)) == Some(
                language,
            )
            &&& parser@ == spec_parser_path(
                grammar_dir,
                opt_view(configs[index as int].path),
                language,
            )
        },
        ConfigStep::Load { .. } => false,
        ConfigStep::Unnamed { index } => {
            &&& from <= index < configs.len()
            &&& others_from_to(grammar_dir, configs, language, from, index as int)
            &&& spec_config_language(grammar_dir, opt_view(configs[index as int].path)) is None
        },
        ConfigStep::Exhausted => others_from_to(
            grammar_dir,
            configs,
            language,
            from,
            configs.len() as int,
        ),
    }
}

/// The outcome of looking up a file extension in one package.
pub enum Detection {
    /// The first configuration that handles the extension declares this
    /// language.
    Found(String),
    /// The first configuration that handles the extension declares no
    /// language.
    Unnamed,
    /// No configuration handles the extension.
    NotFound,
}

/// The language a configuration declares when grammars are loaded.
pub fn config_language(grammar_dir: &str, path: &Option<String>) -> (name: Option<String>)
    ensures
        opt_view(name) == spec_config_language(grammar_dir@, opt_view(*path)),
{
    match path {
        Some(p) => file_name(p.as_str()),
        None => match file_name(grammar_dir) {
            Some(n) => {
                let cs = chars_of(n.as_str());
                let prefix = chars_of("tree-sitter-");
                if starts_with(&cs, &prefix) {
                    let rest = copy_range(&cs, prefix.len(), cs.len());
                    assert(rest@ =~= cs@.skip(prefix@.len() as int));
                    Some(string_of(&rest))
                } else {
                    None
                }
            },
            None => None,
        },
    }
}

/// The language a configuration declares when a file's language is detected.
pub fn detected_language(grammar_dir: &str, path: &Option<String>) -> (name: Option<String>)
    ensures
        opt_view(name) == spec_detected_language(grammar_dir@, opt_view(*path)),
{
    match path {
        Some(p) => file_name(p.as_str()),
        None => match file_name(grammar_dir) {
            Some(n) => {
                let prefix = chars_of("tree-sitter-");
                proof {
                    reveal_strlit("tree-sitter-");
                }
                Some(string_of(&remove_all(&chars_of(n.as_str()), &prefix)))
            },
            None => None,
        },
    }
}

/// Where the parser of a configuration that declares `language` lies.
pub fn parser_path(grammar_dir: &str, path: &Option<String>, language: &str) -> (parser: String)
    ensures
        parser@ == spec_parser_path(grammar_dir@, opt_view(*path), language@),
{
    match path {
        Some(p) => {
            let dir = path_join(grammar_dir, p.as_str());
            path_join(dir.as_str(), "parser.so")
        },
        None => {
            let mut file = language.to_owned();
            file.append(".so");
            path_join(grammar_dir, file.as_str())
        },
    }
}

/// Scans the configurations of the package in `grammar_dir`, from `from` on,
/// for the first one that declares `language` or declares none.
pub fn next_grammar_candidate(
    language: &str,
    grammar_dir: &str,
    configs: &Vec<TreeSitterConfig>,
    from: usize,
) -> (step: ConfigStep)
    requires
        from <= configs.len(),
    ensures
        scans_to(grammar_dir@, configs@, language@, from as int, step),
{
    let wanted = language.to_owned();
    let mut i = from;
    while i < configs.len()
        invariant
            from <= i <= configs.len(),
            wanted@ == language@,
            others_from_to(grammar_dir@, configs@, language@, from as int, i as int),
        decreases configs.len() - i,
    {
        match config_language(grammar_dir, &configs[i].path) {
            None => {
                return ConfigStep::Unnamed { index: i };
            },
            Some(name) => {
                if name == wanted {
                    let parser = parser_path(grammar_dir, &configs[i].path, language);
                    return ConfigStep::Candidate { index: i, parser };
                }
                assert(spec_config_language(grammar_dir@, opt_view(configs@[i as int].path))
                    == Some(name@));
            },
        }
        i += 1;
    }
    ConfigStep::Exhausted
}

/// Whether `config` handles files with extension `ext`.
pub fn config_handles(config: &TreeSitterConfig, ext: &String) -> (b: bool)
    ensures
        b == handles(*config, ext@),
{
    let mut j: usize = 0;
    while j < config.file_types.len()
        invariant
            j <= config.file_types.len(),
            forall|k: int| 0 <= k < j ==> config.file_types@[k]@ != ext@,
        decreases config.file_types.len() - j,
    {
        if config.file_types[j] == *ext {
            assert(views(config.file_types@)[j as int] == ext@);
            return true;
        }
        j += 1;
    }
    assert forall|k: int| 0 <= k < views(config.file_types@).len() implies views(
        config.file_types@,
    )[k] != ext@ by {
        assert(views(config.file_types@)[k] == config.file_types@[k]@);
    }
    false
}

/// Looks up the extension `ext` among the configurations of the package in
/// `grammar_dir`: the first configuration that handles it decides.
pub fn detect_in_package(ext: &str, grammar_dir: &str, configs: &Vec<TreeSitterConfig>) -> (d:
    Detection)
    ensures
        match d {
            Detection::Found(name) => exists|i: int|
                0 <= i < configs.len() && #[trigger] handles(configs@[i], ext@) && (forall|k: int|
                    0 <= k < i ==> !handles(#[trigger] configs@[k], ext@)) && spec_detected_language(
                    grammar_dir@,
                    opt_view(configs@[i].path),
                ) == Some(name@),
            Detection::Unnamed => exists|i: int|
                0 <= i < configs.len() && #[trigger] handles(configs@[i], ext@) && (forall|k: int|
                    0 <= k < i ==> !handles(#[trigger] configs@[k], ext@)) && spec_detected_language(
                    grammar_dir@,
                    opt_view(configs@[i].path),
                ) is None,
            Detection::NotFound => forall|k: int|
                0 <= k < configs.len() ==> !handles(#[trigger] configs@[k], ext@),
        },
{
    let wanted = ext.to_owned();
    let mut i: usize = 0;
    while i < configs.len()
        invariant
            i <= configs.len(),
            wanted@ == ext@,
            forall|k: int| 0 <= k < i ==> !handles(#[trigger] configs@[k], ext@),
        decreases configs.len() - i,
    {
        if config_handles(&configs[i], &wanted) {
            return match detected_language(grammar_dir, &configs[i].path) {
                Some(name) => Detection::Found(name),
                None => Detection::Unnamed,
            };
        }
        i += 1;
    }
    Detection::NotFound
}

/// The concatenation of `parts`, in order.
pub fn concat_all(parts: &Vec<String>) -> (s: String)
    ensures
        s@ == views(parts@).flatten(),
{
    let mut s = String::new();
    let mut i: usize = 0;
    let ghost all = views(parts@);
    assert(all.skip(0) =~= all);
    while i < parts.len()
        invariant
            i <= parts.len(),
            all == views(parts@),
            s@ + all.skip(i as int).flatten() == all.flatten(),
        decreases parts.len() - i,
    {
        let ghost before = s@;
        s.append(parts[i].as_str());
        assert(all.skip(i as int).drop_first() =~= all.skip(i + 1));
        assert(all.skip(i as int)[0] == parts@[i as int]@);
        assert(before + all.skip(i as int).flatten() =~= s@ + all.skip(i + 1).flatten());
        i += 1;
    }
    assert(all.skip(i as int) =~= Seq::<Seq<char>>::empty());
    assert(s@ + Seq::<char>::empty() =~= s@);
    s
}

/// The files `rels`, relative to the package in `grammar_dir`.
pub fn query_paths(grammar_dir: &str, rels: &Vec<String>) -> (paths: Vec<String>)
    ensures
        paths.len() == rels.len(),
        forall|i: int| 0 <= i < rels.len() ==> #[trigger] paths@[i]@ == spec_path_join(grammar_dir@, rels@[i]@),
{
    let mut paths: Vec<String> = Vec::new();
    let mut i: usize = 0;
    while i < rels.len()
        invariant
            i <= rels.len(),
            paths.len() == i,
            forall|k: int| 0 <= k < i ==> #[trigger] paths@[k]@ == spec_path_join(grammar_dir@, rels@[k]@),
        decreases rels.len() - i,
    {
        paths.push(path_join(grammar_dir, rels[i].as_str()));
        i += 1;
    }
    paths
}

impl Grammar {
    /// The grammar with parser `parser` whose query sources are the contents
    /// of its query files, each kind concatenated in the order of its files.
    pub fn new(parser: String, highlights: &Vec<String>, injections: &Vec<String>, locals: &Vec<
        String,
    >) -> (g: Grammar)
        ensures
            g.parser@ == parser@,
            g.highlights@ == views(highlights@).flatten(),
            g.injections@ == views(injections@).flatten(),
            g.locals@ == views(locals@).flatten(),
    {
        Grammar {
            parser,
            highlights: concat_all(highlights),
            locals: concat_all(locals),
            injections: concat_all(injections),
        }
    }
}

/// The name of the function that a grammar's parser library exports for
/// `language`: `tree_sitter_<language>`.
pub open spec fn spec_symbol_name(language: Seq<char>) -> Seq<char> {
    "tree_sitter_"@ + language
}

/// The exported function name for `language`.
pub fn language_symbol_name(language: &str) -> (symbol: String)
    ensures
        symbol@ == spec_symbol_name(language@),
{
    let mut symbol = "tree_sitter_".to_owned();
    symbol.append(language);
    symbol
}

/// The directory of a bundled grammar: `tree-sitter-<name>-grammar`.
pub open spec fn spec_bundled_dir_name(name: Seq<char>) -> Seq<char> {
    "tree-sitter-"@ + name + "-grammar"@
}

/// The directory name of the bundled grammar `name`.
pub fn bundled_dir_name(name: &str) -> (dir: String)
    ensures
        dir@ == spec_bundled_dir_name(name@),
{
    let mut dir = "tree-sitter-".to_owned();
    dir.append(name);
    dir.append("-grammar");
    dir
}

/// The parser of the bundled grammar `name` under `root`:
/// `<root>/tree-sitter-<name>-grammar/parser`.
pub fn bundled_parser_path(root: &str, name: &str) -> (parser: String)
    ensures
        parser@ == spec_path_join(spec_path_join(root@, spec_bundled_dir_name(name@)), "parser"@),
{
    let dir = path_join(root, bundled_dir_name(name).as_str());
    path_join(dir.as_str(), "parser")
}

/// The query file `query` of the bundled grammar `name` under `root`:
/// `<root>/tree-sitter-<name>-grammar/queries/<query>`.
pub fn bundled_query_path(root: &str, name: &str, query: &str) -> (path: String)
    ensures
        path@ == spec_path_join(
            spec_path_join(spec_path_join(root@, spec_bundled_dir_name(name@)), "queries"@),
            query@,
        ),
{
    let dir = path_join(root, bundled_dir_name(name).as_str());
    let queries = path_join(dir.as_str(), "queries");
    path_join(queries.as_str(), query)
}

/// Whether `pat` occurs nowhere in `s`.
pub open spec fn occurs_nowhere(s: Seq<char>, pat: Seq<char>) -> bool {
    forall|i: int| 0 <= i <= s.len() ==> !pat.is_prefix_of(#[trigger] s.skip(i))
}

/// Removing a pattern that occurs nowhere leaves the text as it is.
proof fn lemma_remove_absent(s: Seq<char>, pat: Seq<char>)
    requires
        occurs_nowhere(s, pat),
    ensures
        spec_remove_all(s, pat) == s,
    decreases s.len(),
{
    if s.len() > 0 && pat.len() > 0 {
        assert(s.skip(0) =~= s);
        let t = s.drop_first();
        assert forall|i: int| 0 <= i <= t.len() implies !pat.is_prefix_of(#[trigger] t.skip(i)) by {
            assert(t.skip(i) =~= s.skip(i + 1));
        }
        lemma_remove_absent(t, pat);
        assert(seq![s[0]] + t =~= s);
    }
}

/// Detection names the language that loading looks for: for a configuration
/// with a `path` always, and for one without when its package directory is
/// `tree-sitter-<x>` with no further `tree-sitter-` in `x`. So the language
/// that a file's extension selects is found again by name.
pub proof fn lemma_detected_language_is_loadable(grammar_dir: Seq<char>, path: Option<Seq<char>>)
    requires
        path is None ==> (spec_file_name(grammar_dir) matches Some(n) && grammar_prefix().is_prefix_of(
            n,
        ) && occurs_nowhere(n.skip(grammar_prefix().len() as int), grammar_prefix())),
    ensures
        spec_detected_language(grammar_dir, path) == spec_config_language(grammar_dir, path),
{
    if path is None {
        reveal_strlit("tree-sitter-");
        let n = spec_file_name(grammar_dir)->0;
        let p = grammar_prefix();
        let x = n.skip(p.len() as int);
        lemma_remove_absent(x, p);
        assert(n.len() > 0);
    }
}

/// Why a file's language could not be detected.
pub enum DetectError {
    /// The file name has no extension.
    NoExtension,
    /// No grammar handles the extension.
    NoLanguage(String),
}

impl DetectError {
    /// The message that reports the error.
    pub open spec fn spec_message(&self) -> Seq<char> {
        match self {
            DetectError::NoExtension => "Couldn't get extension"@,
            DetectError::NoLanguage(ext) => "Could not find language for ."@ + ext@,
        }
    }

    /// The message that reports the error.
    pub fn message(&self) -> (m: String)
        ensures
            m@ == self.spec_message(),
    {
        match self {
            DetectError::NoExtension => "Couldn't get extension".to_owned(),
            DetectError::NoLanguage(ext) => {
                let mut m = "Could not find language for .".to_owned();
                m.append(ext.as_str());
                m
            },
        }
    }
}

/// The extension by which the language of `file` is detected.
pub fn file_extension(file: &str) -> (ext: Result<String, DetectError>)
    ensures
        ext matches Ok(e) ==> spec_extension(file@) == Some(e@),
        ext is Err ==> spec_extension(file@) is None && ext matches Err(DetectError::NoExtension),
{
    match extension(file) {
        Some(e) => Ok(e),
        None => Err(DetectError::NoExtension),
    }
}

/// The message reporting that no grammar provides `language`.
pub open spec fn spec_not_found_message(language: Seq<char>) -> Seq<char> {
    "Couldn't find language "@ + language
}

/// The message reporting that no grammar provides `language`.
pub fn not_found_message(language: &str) -> (m: String)
    ensures
        m@ == spec_not_found_message(language@),
{
    let mut m = "Couldn't find language ".to_owned();
    m.append(language);
    m
}

/// The next step once the parser of the candidate at `index` has been
/// checked: load that grammar when its parser exists, else scan on from the
/// configuration after it.
pub fn after_parser_check(
    language: &str,
    grammar_dir: &str,
    configs: &Vec<TreeSitterConfig>,
    index: usize,
    parser: String,
    parser_exists: bool,
) -> (step: ConfigStep)
    requires
        index < configs.len(),
    ensures
        parser_exists ==> step == (ConfigStep::Load { index, parser }),
        !parser_exists ==> scans_to(grammar_dir@, configs@, language@, index + 1, step),
{
    if parser_exists {
        ConfigStep::Load { index, parser }
    } else {
        next_grammar_candidate(language, grammar_dir, configs, index + 1)
    }
}

/// A configuration handles an extension exactly when the extension is one of
/// its file types, at whatever position it is listed.
pub proof fn lemma_handles_any_listed_type(config: TreeSitterConfig, ext: Seq<char>)
    ensures
        handles(config, ext) <==> exists|j: int|
            0 <= j < config.file_types@.len() && (#[trigger] config.file_types@[j])@ == ext,
{
    let v = views(config.file_types@);
    if handles(config, ext) {
        let j = choose|j: int| 0 <= j < v.len() && v[j] == ext;
        assert(config.file_types@[j]@ == ext);
    }
    if exists|j: int| 0 <= j < config.file_types@.len() && (#[trigger] config.file_types@[j])@
        == ext {
        let j = choose|j: int|
            0 <= j < config.file_types@.len() && (#[trigger] config.file_types@[j])@ == ext;
        assert(v[j] == ext);
    }
}

/// For a configuration with a relative `path`, the parser lies in that path
/// under the package: `<dir>/<path>/parser.so`, whatever the language, with
/// every component of the path kept.
pub proof fn lemma_parser_in_config_path(
    grammar_dir: Seq<char>,
    path: Seq<char>,
    language: Seq<char>,
    other: Seq<char>,
)
    requires
        grammar_dir.len() > 0,
        grammar_dir.last() != '/',
        path.len() > 0,
        path[0] != '/',
        path.last() != '/',
    ensures
        spec_parser_path(grammar_dir, Some(path), language) == grammar_dir + seq!['/'] + path
            + seq!['/'] + "parser.so"@,
        spec_parser_path(grammar_dir, Some(path), language) == spec_parser_path(
            grammar_dir,
            Some(path),
            other,
        ),
{
    reveal_strlit("parser.so");
    let inner = grammar_dir + seq!['/'] + path;
    assert(inner.last() == path.last());
    assert(inner + seq!['/'] + "parser.so"@ =~= grammar_dir + seq!['/'] + path + seq!['/']
        + "parser.so"@);
}

/// For a configuration without a path, the parser is `<dir>/<language>.so`.
pub proof fn lemma_parser_named_after_language(grammar_dir: Seq<char>, language: Seq<char>)
    requires
        grammar_dir.len() > 0,
        grammar_dir.last() != '/',
        language.len() > 0,
        language[0] != '/',
    ensures
        spec_parser_path(grammar_dir, None, language) == grammar_dir + seq!['/'] + language
            + ".so"@,
{
    assert((language + ".so"@)[0] == language[0]);
    assert(grammar_dir + seq!['/'] + (language + ".so"@) =~= grammar_dir + seq!['/'] + language
        + ".so"@);
}

/// The exported function name is `tree_sitter_` followed by the language
/// name unchanged: it is twelve characters longer, ends with the language
/// name, and different languages get different names.
pub proof fn lemma_symbol_name_keeps_language(language: Seq<char>, other: Seq<char>)
    ensures
        spec_symbol_name(language).len() == language.len() + 12,
        spec_symbol_name(language).skip(12) == language,
        spec_symbol_name(language).take(12) == spec_symbol_name(other).take(12),
        language != other ==> spec_symbol_name(language) != spec_symbol_name(other),
{
    reveal_strlit("tree_sitter_");
    let p = "tree_sitter_"@;
    assert((p + language).skip(12) =~= language);
    assert((p + other).skip(12) =~= other);
    assert((p + language).take(12) =~= p);
    assert((p + other).take(12) =~= p);
}

} // verus!
