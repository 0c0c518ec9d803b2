//! The sentinel lines of a reply, and the classifier that recognises them.
//!
//! A reply is read line by line. A line is recognised by its trimmed form.
//! Two dialects are understood side by side: tags (`<explain>`,
//! `<file path="...">`, `</file>`), which the system prompt asks for, and
//! banners (`=== EXPLAIN START ===`, `=== path === START ===`,
//! `=== path === END ===`).

use crate::text::{
    chars_of, ends_with, find, first_occurrence, occurs_at, slices_equal, starts_with, string_of,
    trim, trim_slice,
};
use vstd::prelude::*;
use vstd::slice::slice_subrange;

verus! {

/// What a line of a reply is.
#[derive(Clone, Copy, Debug, PartialEq, Eq, Structural)]
pub enum LineKind {
    /// Opens a block of reasoning that is thrown away.
    ThinkOpen,
    /// Closes a block of reasoning.
    ThinkClose,
    /// Opens the explanation.
    ExplainOpen,
    /// Closes the explanation.
    ExplainClose,
    /// Opens a file section; the line carries the path.
    FileOpen,
    /// Closes a file section, whichever path opened it.
    FileClose,
    /// Any other line.
    Text,
}

/// A line that begins with this opens a block of reasoning.
pub open spec fn think_open() -> Seq<char> {
    "<think>"@
}

/// A line that begins with this closes a block of reasoning.
pub open spec fn think_close() -> Seq<char> {
    "</think>"@
}

/// Opens the explanation, as a tag.
pub open spec fn explain_open_tag() -> Seq<char> {
    "<explain>"@
}

/// Closes the explanation, as a tag.
pub open spec fn explain_close_tag() -> Seq<char> {
    "</explain>"@
}

/// Opens the explanation, as a banner.
pub open spec fn explain_open_banner() -> Seq<char> {
    "=== EXPLAIN START ==="@
}

/// Closes the explanation, as a banner.
pub open spec fn explain_close_banner() -> Seq<char> {
    "=== EXPLAIN END ==="@
}

/// How a tag that opens a file section begins.
pub open spec fn file_tag_lead() -> Seq<char> {
    "<file"@
}

/// How a tag that opens a file section ends.
pub open spec fn file_tag_tail() -> Seq<char> {
    ">"@
}

/// What stands before the path in an opening tag.
pub open spec fn path_key() -> Seq<char> {
    "path=\""@
}

/// What stands after the path in an opening tag.
pub open spec fn quote() -> Seq<char> {
    "\""@
}

/// Closes a file section, as a tag.
pub open spec fn file_close_tag() -> Seq<char> {
    "</file>"@
}

/// How a banner of a file section begins.
pub open spec fn banner_lead() -> Seq<char> {
    "=== "@
}

/// How a banner that opens a file section ends.
pub open spec fn banner_open_tail() -> Seq<char> {
    " === START ==="@
}

/// How a banner that closes a file section ends.
pub open spec fn banner_close_tail() -> Seq<char> {
    " === END ==="@
}

/// `t` begins with `lead` and ends with `tail`, and the two do not overlap.
pub open spec fn framed_by(t: Seq<char>, lead: Seq<char>, tail: Seq<char>) -> bool {
    lead.len() + tail.len() <= t.len() && lead.is_prefix_of(t) && tail.is_suffix_of(t)
}

/// A tag that opens a file section: `<file ...>`.
pub open spec fn is_tag_opener(t: Seq<char>) -> bool {
    file_tag_lead().is_prefix_of(t) && file_tag_tail().is_suffix_of(t)
}

/// A banner that opens a file section: `=== path === START ===`.
pub open spec fn is_banner_opener(t: Seq<char>) -> bool {
    framed_by(t, banner_lead(), banner_open_tail())
}

/// A banner that closes a file section: `=== anything === END ===`.
pub open spec fn is_banner_closer(t: Seq<char>) -> bool {
    framed_by(t, banner_lead(), banner_close_tail())
}

/// The path in an opening tag: what stands between the first `path="` and the
/// next double quote, taken as it is. Empty where either is missing.
pub open spec fn tag_path(t: Seq<char>) -> Seq<char> {
    match first_occurrence(t, path_key()) {
        Some(p) => {
            let start = p + path_key().len();
            match first_occurrence(t.skip(start), quote()) {
                Some(e) => t.subrange(start, start + e),
                None => Seq::empty(),
            }
        },
        None => Seq::empty(),
    }
}

/// The path in an opening banner: what stands between `=== ` and
/// ` === START ===`, taken as it is.
pub open spec fn banner_path(t: Seq<char>) -> Seq<char> {
    t.subrange(banner_lead().len() as int, t.len() - banner_open_tail().len())
}

/// What a trimmed line is. The order of the tests is the order of precedence.
pub open spec fn kind_of_trimmed(t: Seq<char>) -> LineKind {
    if think_open().is_prefix_of(t) {
        LineKind::ThinkOpen
    } else if think_close().is_prefix_of(t) {
        LineKind::ThinkClose
    } else if t == explain_open_tag() || t == explain_open_banner() {
        LineKind::ExplainOpen
    } else if t == explain_close_tag() || t == explain_close_banner() {
        LineKind::ExplainClose
    } else if is_tag_opener(t) || is_banner_opener(t) {
        LineKind::FileOpen
    } else if t == file_close_tag() || is_banner_closer(t) {
        LineKind::FileClose
    } else {
        LineKind::Text
    }
}

/// What a line is.
pub open spec fn kind_of(line: Seq<char>) -> LineKind {
    kind_of_trimmed(trim(line))
}

/// The path that a trimmed opening line carries. A line that opens nothing
/// carries none.
pub open spec fn path_of_trimmed(t: Seq<char>) -> Seq<char> {
    if is_tag_opener(t) {
        tag_path(t)
    } else if is_banner_opener(t) {
        banner_path(t)
    } else {
        Seq::empty()
    }
}

/// The path that an opening line carries.
pub open spec fn path_of(line: Seq<char>) -> Seq<char> {
    path_of_trimmed(trim(line))
}

/// The sentinel literals, in the order in which a classifier holds them.
pub open spec fn sentinel_literals() -> Seq<Seq<char>> {
    seq![
        think_open(),
        think_close(),
        explain_open_tag(),
        explain_close_tag(),
        explain_open_banner(),
        explain_close_banner(),
        file_tag_lead(),
        file_tag_tail(),
        path_key(),
        quote(),
        file_close_tag(),
        banner_lead(),
        banner_open_tail(),
        banner_close_tail(),
    ]
}

/// The sentinel literals, decoded once.
pub struct Sentinels {
    think_open: Vec<char>,
    think_close: Vec<char>,
    explain_open_tag: Vec<char>,
    explain_close_tag: Vec<char>,
    explain_open_banner: Vec<char>,
    explain_close_banner: Vec<char>,
    file_tag_lead: Vec<char>,
    file_tag_tail: Vec<char>,
    path_key: Vec<char>,
    quote: Vec<char>,
    file_close_tag: Vec<char>,
    banner_lead: Vec<char>,
    banner_open_tail: Vec<char>,
    banner_close_tail: Vec<char>,
}

impl View for Sentinels {
    type V = Seq<Seq<char>>;

    /// The character sequences that the classifier holds, in order.
    closed spec fn view(&self) -> Seq<Seq<char>> {
        seq![
            self.think_open@,
            self.think_close@,
            self.explain_open_tag@,
            self.explain_close_tag@,
            self.explain_open_banner@,
            self.explain_close_banner@,
            self.file_tag_lead@,
            self.file_tag_tail@,
            self.path_key@,
            self.quote@,
            self.file_close_tag@,
            self.banner_lead@,
            self.banner_open_tail@,
            self.banner_close_tail@,
        ]
    }
}

impl Sentinels {
    /// Every field holds its literal.
    #[verifier::type_invariant]
    spec fn wf(self) -> bool {
        &&& self.think_open@ == think_open()
        &&& self.think_close@ == think_close()
        &&& self.explain_open_tag@ == explain_open_tag()
        &&& self.explain_close_tag@ == explain_close_tag()
        &&& self.explain_open_banner@ == explain_open_banner()
        &&& self.explain_close_banner@ == explain_close_banner()
        &&& self.file_tag_lead@ == file_tag_lead()
        &&& self.file_tag_tail@ == file_tag_tail()
        &&& self.path_key@ == path_key()
        &&& self.quote@ == quote()
        &&& self.file_close_tag@ == file_close_tag()
        &&& self.banner_lead@ == banner_lead()
        &&& self.banner_open_tail@ == banner_open_tail()
        &&& self.banner_close_tail@ == banner_close_tail()
    }

    /// Decodes the literals: the classifier holds each sentinel literal as a
    /// sequence of characters.
    pub fn new() -> (g: Self)
        ensures
            g@ == sentinel_literals(),
    {
        let g = Sentinels {
            think_open: chars_of("<think>"),
            think_close: chars_of("</think>"),
            explain_open_tag: chars_of("<explain>"),
            explain_close_tag: chars_of("</explain>"),
            explain_open_banner: chars_of("=== EXPLAIN START ==="),
            explain_close_banner: chars_of("=== EXPLAIN END ==="),
            file_tag_lead: chars_of("<file"),
            file_tag_tail: chars_of(">"),
            path_key: chars_of("path=\""),
            quote: chars_of("\""),
            file_close_tag: chars_of("</file>"),
            banner_lead: chars_of("=== "),
            banner_open_tail: chars_of(" === START ==="),
            banner_close_tail: chars_of(" === END ==="),
        };
        assert(g@ =~= sentinel_literals());
        g
    }

    fn framed_by(t: &[char], lead: &[char], tail: &[char]) -> (r: bool)
        ensures
            r == framed_by(t@, lead@, tail@),
    {
        lead.len() <= t.len() && tail.len() <= t.len() - lead.len() && starts_with(t, lead)
            && ends_with(t, tail)
    }

    /// What the trimmed line `t` is.
    pub fn kind_of_trimmed(&self, t: &[char]) -> (k: LineKind)
        ensures
            k == kind_of_trimmed(t@),
    {
        proof {
            use_type_invariant(self);
        }
        if starts_with(t, self.think_open.as_slice()) {
            LineKind::ThinkOpen
        } else if starts_with(t, self.think_close.as_slice()) {
            LineKind::ThinkClose
        } else if slices_equal(t, self.explain_open_tag.as_slice()) || slices_equal(
            t,
            self.explain_open_banner.as_slice(),
        ) {
            LineKind::ExplainOpen
        } else if slices_equal(t, self.explain_close_tag.as_slice()) || slices_equal(
            t,
            self.explain_close_banner.as_slice(),
        ) {
            LineKind::ExplainClose
        } else if (starts_with(t, self.file_tag_lead.as_slice()) && ends_with(
            t,
            self.file_tag_tail.as_slice(),
        )) || Self::framed_by(t, self.banner_lead.as_slice(), self.banner_open_tail.as_slice()) {
            LineKind::FileOpen
        } else if slices_equal(t, self.file_close_tag.as_slice()) || Self::framed_by(
            t,
            self.banner_lead.as_slice(),
            self.banner_close_tail.as_slice(),
        ) {
            LineKind::FileClose
        } else {
            LineKind::Text
        }
    }

    /// What `line` is.
    pub fn kind_of(&self, line: &[char]) -> (k: LineKind)
        ensures
            k == kind_of(line@),
    {
        self.kind_of_trimmed(trim_slice(line))
    }

    /// The path that the opening line `line` carries.
    pub fn path_of(&self, line: &[char]) -> (path: String)
        ensures
            path@ == path_of(line@),
    {
        proof {
            use_type_invariant(self);
        }
        let t = trim_slice(line);
        if starts_with(t, self.file_tag_lead.as_slice()) && ends_with(
            t,
            self.file_tag_tail.as_slice(),
        ) {
            let n: usize = t.len();
            match find(t, self.path_key.as_slice()) {
                Some(p) => {
                    assert(occurs_at(t@, path_key(), p as int));
                    let start: usize = p + self.path_key.len();
                    let rest = slice_subrange(t, start, n);
                    match find(rest, self.quote.as_slice()) {
                        Some(e) => string_of(slice_subrange(t, start, start + e)),
                        None => String::new(),
                    }
                },
                None => String::new(),
            }
        } else if Self::framed_by(
            t,
            self.banner_lead.as_slice(),
            self.banner_open_tail.as_slice(),
        ) {
            string_of(
                slice_subrange(t, self.banner_lead.len(), t.len() - self.banner_open_tail.len()),
            )
        } else {
            String::new()
        }
    }
}

} // verus!
