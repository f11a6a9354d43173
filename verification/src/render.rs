//! The terminal output of the highlighter front end: what is printed when a
//! highlight starts and ends, according to a style sheet.

use vstd::prelude::*;

use crate::grammar::opt_view;
use crate::highlight::{spec_standard_capture_names, standard_capture_names};

verus! {

/// Terminal styles for highlight names: a prefix, an end marker, and a theme
/// that maps highlight names to styles. No name has two entries in the theme.
pub struct StyleSheet {
    prefix: String,
    end: String,
    theme: Vec<(String, String)>,
}

/// The views of theme entries.
pub open spec fn theme_views(theme: Seq<(String, String)>) -> Seq<(Seq<char>, Seq<char>)> {
    theme.map_values(|e: (String, String)| (e.0@, e.1@))
}

/// Whether no name has two entries in `theme`.
pub open spec fn unique_names(theme: Seq<(Seq<char>, Seq<char>)>) -> bool {
    forall|i: int, j: int| 0 <= i < j < theme.len() ==> #[trigger] theme[i].0 != #[trigger] theme[j].0
}

impl View for StyleSheet {
    /// The prefix, the end marker and the theme entries.
    type V = (Seq<char>, Seq<char>, Seq<(Seq<char>, Seq<char>)>);

    closed spec fn view(&self) -> Self::V {
        (self.prefix@, self.end@, theme_views(self.theme@))
    }
}

/// The style the theme gives `capture`: that of its entry for `capture`.
pub open spec fn spec_style(theme: Seq<(Seq<char>, Seq<char>)>, capture: Seq<char>) -> Option<
    Seq<char>,
>
    decreases theme.len(),
{
    if theme.len() == 0 {
        None
    } else if theme[0].0 == capture {
        Some(theme[0].1)
    } else {
        spec_style(theme.drop_first(), capture)
    }
}

/// What is printed when the highlight with index `highlight` starts: the
/// prefix and the style of its name, if the theme styles it, and then, when
/// debugging, `(` and the name and a space.
pub open spec fn spec_highlight_start(
    sheet: (Seq<char>, Seq<char>, Seq<(Seq<char>, Seq<char>)>),
    highlight: int,
    debug: bool,
) -> Seq<char> {
    let capture = spec_standard_capture_names()[highlight];
    (match spec_style(sheet.2, capture) {
        Some(style) => sheet.0 + style,
        None => seq![],
    }) + (if debug {
        "("@ + capture + " "@
    } else {
        seq![]
    })
}

/// What is printed when a highlight ends: `)` when debugging, then the end
/// marker.
pub open spec fn spec_highlight_end(
    sheet: (Seq<char>, Seq<char>, Seq<(Seq<char>, Seq<char>)>),
    debug: bool,
) -> Seq<char> {
    (if debug {
        ")"@
    } else {
        seq![]
    }) + sheet.1
}

/// Whether a file of this encoding is refused for highlighting.
pub open spec fn spec_refuses_encoding(encoding: Seq<char>) -> bool {
    encoding == "binary"@
}

/// Whether a file whose encoding was detected as `encoding` is refused: only
/// binary files are.
pub fn refuses_encoding(encoding: &str) -> (refused: bool)
    ensures
        refused == spec_refuses_encoding(encoding@),
{
    encoding.to_owned() == "binary".to_owned()
}

impl StyleSheet {
    #[verifier::type_invariant]
    spec fn names_unique(self) -> bool {
        unique_names(theme_views(self.theme@))
    }

    /// The style sheet with this prefix, end marker and theme; `None` when a
    /// name has two entries in `theme`.
    pub fn new(prefix: String, end: String, theme: Vec<(String, String)>) -> (sheet: Option<
        StyleSheet,
    >)
        ensures
            sheet is Some <==> unique_names(theme_views(theme@)),
            sheet matches Some(s) ==> s@ == (prefix@, end@, theme_views(theme@)),
    {
        let ghost tv = theme_views(theme@);
        let mut j: usize = 0;
        while j < theme.len()
            invariant
                j <= theme.len(),
                tv == theme_views(theme@),
                forall|a: int, b: int| 0 <= a < b < j ==> #[trigger] tv[a].0 != #[trigger] tv[b].0,
            decreases theme.len() - j,
        {
            let mut i: usize = 0;
            while i < j
                invariant
                    i <= j < theme.len(),
                    tv == theme_views(theme@),
                    forall|a: int| 0 <= a < i ==> #[trigger] tv[a].0 != tv[j as int].0,
                decreases j - i,
            {
                if theme[i].0 == theme[j].0 {
                    assert(tv[i as int].0 == tv[j as int].0);
                    return None;
                }
                i += 1;
            }
            j += 1;
        }
        Some(StyleSheet { prefix, end, theme })
    }

    /// The prefix printed before a style.
    pub fn prefix(&self) -> (p: &String)
        ensures
            p@ == self@.0,
    {
        &self.prefix
    }

    /// The end marker.
    pub fn end(&self) -> (e: &String)
        ensures
            e@ == self@.1,
    {
        &self.end
    }

    /// The theme entries.
    pub fn theme(&self) -> (t: &Vec<(String, String)>)
        ensures
            theme_views(t@) == self@.2,
    {
        &self.theme
    }

    /// The style of `capture`, if the theme has one.
    pub fn style(&self, capture: &str) -> (style: Option<String>)
        ensures
            opt_view(style) == spec_style(self@.2, capture@),
            style matches Some(s) ==> self@.2.contains((capture@, s@)),
            style is None ==> forall|i: int| 0 <= i < self@.2.len() ==> #[trigger] self@.2[i].0 != capture@,
    {
        let wanted = capture.to_owned();
        let mut i: usize = 0;
        let ghost theme = theme_views(self.theme@);
        assert(theme.skip(0) =~= theme);
        while i < self.theme.len()
            invariant
                i <= self.theme.len(),
                theme == theme_views(self.theme@),
                wanted@ == capture@,
                spec_style(theme.skip(i as int), capture@) == spec_style(theme, capture@),
                forall|k: int| 0 <= k < i ==> #[trigger] theme[k].0 != capture@,
            decreases self.theme.len() - i,
        {
            assert(theme.skip(i as int)[0] == theme[i as int]);
            if self.theme[i].0 == wanted {
                assert(theme[i as int] == (capture@, self.theme@[i as int].1@));
                return Some(self.theme[i].1.clone());
            }
            assert(theme.skip(i as int).drop_first() =~= theme.skip(i + 1));
            i += 1;
        }
        assert(theme.skip(i as int) =~= Seq::<(Seq<char>, Seq<char>)>::empty());
        None
    }

    /// What is printed when the highlight with index `highlight` starts.
    pub fn highlight_start(&self, highlight: usize, debug: bool) -> (out: String)
        requires
            highlight < spec_standard_capture_names().len(),
        ensures
            out@ == spec_highlight_start(self@, highlight as int, debug),
            unique_names(self@.2),
    {
        proof {
            use_type_invariant(self);
        }
        let names = standard_capture_names();
        let capture = names[highlight];
        let mut out = String::new();
        if let Some(style) = self.style(capture) {
            out.append(self.prefix.as_str());
            out.append(style.as_str());
        }
        if debug {
            out.append("(");
            out.append(capture);
            out.append(" ");
        }
        out
    }

    /// What is printed when a highlight ends.
    pub fn highlight_end(&self, debug: bool) -> (out: String)
        ensures
            out@ == spec_highlight_end(self@, debug),
    {
        let mut out = String::new();
        if debug {
            out.append(")");
        }
        out.append(self.end.as_str());
        out
    }
}

/// In a theme where no name repeats, the style of a name is that of its
/// entry.
pub proof fn lemma_style_of_entry(theme: Seq<(Seq<char>, Seq<char>)>, i: int)
    requires
        unique_names(theme),
        0 <= i < theme.len(),
    ensures
        spec_style(theme, theme[i].0) == Some(theme[i].1),
    decreases i,
{
    if i > 0 {
        assert(theme[0].0 != theme[i].0);
        let rest = theme.drop_first();
        assert forall|a: int, b: int| 0 <= a < b < rest.len() implies #[trigger] rest[a].0
            != #[trigger] rest[b].0 by {
            assert(rest[a] == theme[a + 1] && rest[b] == theme[b + 1]);
        }
        assert(rest[i - 1] == theme[i]);
        lemma_style_of_entry(rest, i - 1);
    }
}

/// A name without an entry has no style.
pub proof fn lemma_style_of_absent(theme: Seq<(Seq<char>, Seq<char>)>, capture: Seq<char>)
    requires
        forall|i: int| 0 <= i < theme.len() ==> #[trigger] theme[i].0 != capture,
    ensures
        spec_style(theme, capture) is None,
    decreases theme.len(),
{
    if theme.len() > 0 {
        assert(theme[0].0 != capture);
        let rest = theme.drop_first();
        assert forall|i: int| 0 <= i < rest.len() implies #[trigger] rest[i].0 != capture by {
            assert(rest[i] == theme[i + 1]);
        }
        lemma_style_of_absent(rest, capture);
    }
}

/// When the theme has an entry for the full name of the highlight, what is
/// printed when it starts begins with the prefix and that entry's style
/// (and, without debugging, is exactly that).
pub proof fn lemma_highlight_start_uses_entry(
    sheet: (Seq<char>, Seq<char>, Seq<(Seq<char>, Seq<char>)>),
    highlight: int,
    debug: bool,
    i: int,
)
    requires
        0 <= highlight < spec_standard_capture_names().len(),
        unique_names(sheet.2),
        0 <= i < sheet.2.len(),
        sheet.2[i].0 == spec_standard_capture_names()[highlight],
    ensures
        (sheet.0 + sheet.2[i].1).is_prefix_of(spec_highlight_start(sheet, highlight, debug)),
        spec_highlight_start(sheet, highlight, false) == sheet.0 + sheet.2[i].1,
{
    lemma_style_of_entry(sheet.2, i);
    let styled = sheet.0 + sheet.2[i].1;
    let tail = if debug {
        "("@ + spec_standard_capture_names()[highlight] + " "@
    } else {
        seq![]
    };
    assert(spec_highlight_start(sheet, highlight, debug) == styled + tail);
    assert((styled + tail).subrange(0, styled.len() as int) =~= styled);
    assert(styled + Seq::<char>::empty() =~= styled);
}

/// When the theme has no entry for the full name of the highlight, nothing
/// is printed when it starts, unless debugging.
pub proof fn lemma_highlight_start_unstyled(
    sheet: (Seq<char>, Seq<char>, Seq<(Seq<char>, Seq<char>)>),
    highlight: int,
)
    requires
        0 <= highlight < spec_standard_capture_names().len(),
        forall|i: int|
            0 <= i < sheet.2.len() ==> #[trigger] sheet.2[i].0 != spec_standard_capture_names()[highlight],
    ensures
        spec_highlight_start(sheet, highlight, false) == Seq::<char>::empty(),
{
    lemma_style_of_absent(sheet.2, spec_standard_capture_names()[highlight]);
    assert(Seq::<char>::empty() + Seq::<char>::empty() =~= Seq::<char>::empty());
}

} // verus!
