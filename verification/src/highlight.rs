//! Building the highlighting configuration of a loaded grammar with
//! `tree_sitter_highlight`, and the capture names that highlighting
//! recognizes.

use vstd::prelude::*;

use tree_sitter::{Language, QueryError};
use tree_sitter_highlight::HighlightConfiguration;

use crate::grammar::Grammar;
use crate::text::views;

verus! {

#[verifier::external_type_specification]
#[verifier::external_body]
pub struct ExLanguage(tree_sitter::Language);

#[verifier::external_type_specification]
#[verifier::external_body]
pub struct ExQueryError(tree_sitter::QueryError);

#[verifier::external_type_specification]
#[verifier::external_body]
pub struct ExHighlightConfiguration(tree_sitter_highlight::HighlightConfiguration);

/// A highlighting configuration together with what it was built from: the
/// parser's language, the language name, the three query texts handed to the
/// query compiler, and the highlight names it was configured to recognize
/// (`None` before it is configured). Only the trusted builders below set the
/// record, so it always describes the configuration it holds.
pub struct HighlightSetup {
    config: HighlightConfiguration,
    language: Ghost<Language>,
    name: Ghost<Seq<char>>,
    highlights: Ghost<Seq<char>>,
    injections: Ghost<Seq<char>>,
    locals: Ghost<Seq<char>>,
    recognized: Ghost<Option<Seq<Seq<char>>>>,
}

impl HighlightSetup {
    /// The language the queries were compiled against.
    pub closed spec fn language(&self) -> Language {
        self.language@
    }

    /// The language name the configuration was built under.
    pub closed spec fn name(&self) -> Seq<char> {
        self.name@
    }

    /// The highlight query text compiled into the configuration.
    pub closed spec fn highlights(&self) -> Seq<char> {
        self.highlights@
    }

    /// The injection query text compiled into the configuration.
    pub closed spec fn injections(&self) -> Seq<char> {
        self.injections@
    }

    /// The locals query text compiled into the configuration.
    pub closed spec fn locals(&self) -> Seq<char> {
        self.locals@
    }

    /// The highlight names the configuration recognizes, in the order that
    /// gives each its index in the highlights it reports.
    pub closed spec fn recognized(&self) -> Option<Seq<Seq<char>>> {
        self.recognized@
    }

    /// The configuration the record describes.
    pub closed spec fn configuration(&self) -> HighlightConfiguration {
        self.config
    }

    /// The configuration that highlighting runs with.
    pub fn config(&self) -> (c: &HighlightConfiguration)
        ensures
            *c == self.configuration(),
    {
        &self.config
    }

    /// The configuration, taken out of its record.
    pub fn into_config(self) -> (c: HighlightConfiguration)
        ensures
            c == self.configuration(),
    {
        self.config
    }
}

/// `HighlightConfiguration::new` (tree_sitter_highlight): compiles the
/// injection, locals and highlight queries against `language` under the
/// language name `name`. A configuration records the language, the name and
/// the three texts it was handed. Whether the queries compile (a
/// configuration or a `QueryError`) is decided by the query compiler against
/// the grammar that `language` points to, and is not stated.
#[verifier::external_body]
fn new_configuration(
    language: Language,
    name: &str,
    highlights: &str,
    injections: &str,
    locals: &str,
) -> (r: Result<HighlightSetup, QueryError>)
    ensures
        r matches Ok(s) ==> {
            &&& s.language() == language
            &&& s.name() == name@
            &&& s.highlights() == highlights@
            &&& s.injections() == injections@
            &&& s.locals() == locals@
            &&& s.recognized() is None
        },
{
    let compiled_for = Ghost(language);
    match HighlightConfiguration::new(language, name, highlights, injections, locals) {
        Ok(config) => Ok(HighlightSetup {
            config,
            language: compiled_for,
            name: Ghost(name@),
            highlights: Ghost(highlights@),
            injections: Ghost(injections@),
            locals: Ghost(locals@),
            recognized: Ghost(None),
        }),
        Err(e) => Err(e),
    }
}

/// `HighlightConfiguration::configure` (tree_sitter_highlight): sets the
/// highlight names that highlighting will report; a reported `Highlight(i)`
/// refers to `recognized[i]`. The record of the names is updated, the rest of
/// the record kept; what configure does inside the opaque configuration is
/// not stated.
#[verifier::external_body]
fn configure(setup: &mut HighlightSetup, recognized: &Vec<String>)
    ensures
        final(setup).language() == old(setup).language(),
        final(setup).name() == old(setup).name(),
        final(setup).highlights() == old(setup).highlights(),
        final(setup).injections() == old(setup).injections(),
        final(setup).locals() == old(setup).locals(),
        final(setup).recognized() == Some(views(recognized@)),
{
    setup.config.configure(recognized);
    setup.recognized = Ghost(Some(views(recognized@)));
}

/// The highlighting configuration of a grammar whose parser gave `language`:
/// the grammar's highlight, injection and locals queries compiled against
/// `language` under the name `name`, then configured to recognize the
/// highlight names `recognized`. A query that does not compile is reported.
pub fn highlight_configuration(
    language: Language,
    name: &str,
    grammar: &Grammar,
    recognized: &Vec<String>,
) -> (r: Result<HighlightSetup, QueryError>)
    ensures
        r matches Ok(s) ==> {
            &&& s.language() == language
            &&& s.name() == name@
            &&& s.highlights() == grammar.highlights@
            &&& s.injections() == grammar.injections@
            &&& s.locals() == grammar.locals@
            &&& s.recognized() == Some(views(recognized@))
        },
{
    let mut setup = new_configuration(
        language,
        name,
        grammar.highlights.as_str(),
        grammar.injections.as_str(),
        grammar.locals.as_str(),
    )?;
    configure(&mut setup, recognized);
    Ok(setup)
}

/// The highlight names that the highlighter front end recognizes, in the
/// order that gives each its index.
pub open spec fn spec_standard_capture_names() -> Seq<Seq<char>> {
    seq![
        "attribute"@,
        "boolean"@,
        "carriage-return"@,
        "comment"@,
        "comment.documentation"@,
        "constant"@,
        "constant.builtin"@,
        "constructor"@,
        "constructor.builtin"@,
        "embedded"@,
        "error"@,
        "escape"@,
        "function"@,
        "function.builtin"@,
        "keyword"@,
        "markup"@,
        "markup.bold"@,
        "markup.heading"@,
        "markup.italic"@,
        "markup.link"@,
        "markup.link.url"@,
        "markup.list"@,
        "markup.list.checked"@,
        "markup.list.numbered"@,
        "markup.list.unchecked"@,
        "markup.list.unnumbered"@,
        "markup.quote"@,
        "markup.raw"@,
        "markup.raw.block"@,
        "markup.raw.inline"@,
        "markup.strikethrough"@,
        "module"@,
        "number"@,
        "operator"@,
        "property"@,
        "property.builtin"@,
        "punctuation"@,
        "punctuation.bracket"@,
        "punctuation.delimiter"@,
        "punctuation.special"@,
        "string"@,
        "string.escape"@,
        "string.regexp"@,
        "string.special"@,
        "string.special.symbol"@,
        "tag"@,
        "type"@,
        "type.builtin"@,
        "variable"@,
        "variable.builtin"@,
        "variable.member"@,
        "variable.parameter"@,
    ]
}

/// The highlight names that the bundled-grammar loader configures.
pub open spec fn spec_basic_capture_names() -> Seq<Seq<char>> {
    seq![
        "attribute"@,
        "constant"@,
        "function.builtin"@,
        "function"@,
        "keyword"@,
        "operator"@,
        "property"@,
        "punctuation"@,
        "punctuation.bracket"@,
        "punctuation.delimiter"@,
        "string"@,
        "string.special"@,
        "tag"@,
        "type"@,
        "type.builtin"@,
        "variable"@,
        "variable.builtin"@,
        "variable.parameter"@,
    ]
}

/// The views of a vector of string slices.
pub open spec fn str_views(v: Seq<&str>) -> Seq<Seq<char>> {
    v.map_values(|s: &str| s@)
}

/// The highlight names that the highlighter front end recognizes.
pub fn standard_capture_names() -> (names: Vec<&'static str>)
    ensures
        str_views(names@) == spec_standard_capture_names(),
{
    let names = vec![
        "attribute",
        "boolean",
        "carriage-return",
        "comment",
        "comment.documentation",
        "constant",
        "constant.builtin",
        "constructor",
        "constructor.builtin",
        "embedded",
        "error",
        "escape",
        "function",
        "function.builtin",
        "keyword",
        "markup",
        "markup.bold",
        "markup.heading",
        "markup.italic",
        "markup.link",
        "markup.link.url",
        "markup.list",
        "markup.list.checked",
        "markup.list.numbered",
        "markup.list.unchecked",
        "markup.list.unnumbered",
        "markup.quote",
        "markup.raw",
        "markup.raw.block",
        "markup.raw.inline",
        "markup.strikethrough",
        "module",
        "number",
        "operator",
        "property",
        "property.builtin",
        "punctuation",
        "punctuation.bracket",
        "punctuation.delimiter",
        "punctuation.special",
        "string",
        "string.escape",
        "string.regexp",
        "string.special",
        "string.special.symbol",
        "tag",
        "type",
        "type.builtin",
        "variable",
        "variable.builtin",
        "variable.member",
        "variable.parameter",
    ];
    assert(str_views(names@) =~= spec_standard_capture_names());
    names
}

/// The highlight names that the bundled-grammar loader configures.
pub fn basic_capture_names() -> (names: Vec<&'static str>)
    ensures
        str_views(names@) == spec_basic_capture_names(),
{
    let names = vec![
        "attribute",
        "constant",
        "function.builtin",
        "function",
        "keyword",
        "operator",
        "property",
        "punctuation",
        "punctuation.bracket",
        "punctuation.delimiter",
        "string",
        "string.special",
        "tag",
        "type",
        "type.builtin",
        "variable",
        "variable.builtin",
        "variable.parameter",
    ];
    assert(str_views(names@) =~= spec_basic_capture_names());
    names
}

} // verus!
