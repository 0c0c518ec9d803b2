//! The reply format, written out: which lines are sentinels, which are
//! plain, and that what is written in this format is read back as it was.

use crate::grammar::{
    banner_close_tail, banner_lead, banner_open_tail, explain_close_banner, explain_close_tag,
    explain_open_banner, explain_open_tag, file_close_tag, file_tag_lead, file_tag_tail,
    is_banner_opener, is_tag_opener, kind_of, path_key, path_of, quote, tag_path, think_close,
    think_open, LineKind,
};
use crate::guard::{verdict_of, VerdictView};
use crate::laws::{
    all_well_formed, explanation_of_parts, files_of_parts, lemma_well_formed_reply,
    lemma_well_formed_reply_is_written, lines_of_parts, stays_in_explanation, trailing_of_parts,
    Part, Section,
};
use crate::llm::{file_block, parse_reply};
use crate::materialize::{announcement, plan_of, writes, ActionView};
use crate::scan::Reply;
use crate::text::{
    is_space, join_lines, lemma_first_newline, lemma_first_occurrence_is, lemma_trim_identity,
    lines_of, occurs_at, strip_cr, trim,
};
use vstd::prelude::*;

verus! {

/// What the sentinel literals hold.
pub proof fn lemma_sentinel_literals()
    ensures
        think_open() == seq!['<', 't', 'h', 'i', 'n', 'k', '>'],
        think_close() == seq!['<', '/', 't', 'h', 'i', 'n', 'k', '>'],
        explain_open_tag() == seq!['<', 'e', 'x', 'p', 'l', 'a', 'i', 'n', '>'],
        explain_close_tag() == seq!['<', '/', 'e', 'x', 'p', 'l', 'a', 'i', 'n', '>'],
        explain_open_banner().len() == 21,
        explain_open_banner()[0] == '=',
        explain_close_banner().len() == 19,
        explain_close_banner()[0] == '=',
        file_tag_lead() == seq!['<', 'f', 'i', 'l', 'e'],
        file_tag_tail() == seq!['>'],
        path_key() == seq!['p', 'a', 't', 'h', '=', '"'],
        quote() == seq!['"'],
        file_close_tag() == seq!['<', '/', 'f', 'i', 'l', 'e', '>'],
        banner_lead() == seq!['=', '=', '=', ' '],
        banner_open_tail().len() == 14,
        banner_close_tail().len() == 12,
{
    reveal_strlit("<think>");
    reveal_strlit("</think>");
    reveal_strlit("<explain>");
    reveal_strlit("</explain>");
    reveal_strlit("=== EXPLAIN START ===");
    reveal_strlit("=== EXPLAIN END ===");
    reveal_strlit("<file");
    reveal_strlit(">");
    reveal_strlit("path=\"");
    reveal_strlit("\"");
    reveal_strlit("</file>");
    reveal_strlit("=== ");
    reveal_strlit(" === START ===");
    reveal_strlit(" === END ===");
    assert(think_open() =~= seq!['<', 't', 'h', 'i', 'n', 'k', '>']);
    assert(think_close() =~= seq!['<', '/', 't', 'h', 'i', 'n', 'k', '>']);
    assert(explain_open_tag() =~= seq!['<', 'e', 'x', 'p', 'l', 'a', 'i', 'n', '>']);
    assert(explain_close_tag() =~= seq!['<', '/', 'e', 'x', 'p', 'l', 'a', 'i', 'n', '>']);
    assert(file_tag_lead() =~= seq!['<', 'f', 'i', 'l', 'e']);
    assert(file_tag_tail() =~= seq!['>']);
    assert(path_key() =~= seq!['p', 'a', 't', 'h', '=', '"']);
    assert(quote() =~= seq!['"']);
    assert(file_close_tag() =~= seq!['<', '/', 'f', 'i', 'l', 'e', '>']);
    assert(banner_lead() =~= seq!['=', '=', '=', ' ']);
}

/// A sentinel begins with `<` or `=`: a line whose trimmed form is empty or
/// begins with another character is plain text.
pub proof fn lemma_plain_line(line: Seq<char>)
    requires
        trim(line).len() == 0 || (trim(line)[0] != '<' && trim(line)[0] != '='),
    ensures
        kind_of(line) == LineKind::Text,
{
    lemma_sentinel_literals();
    let t = trim(line);
    assert(!think_open().is_prefix_of(t)) by {
        if think_open().is_prefix_of(t) {
            assert(t.subrange(0, 7)[0] == think_open()[0]);
        }
    }
    assert(!think_close().is_prefix_of(t)) by {
        if think_close().is_prefix_of(t) {
            assert(t.subrange(0, 8)[0] == think_close()[0]);
        }
    }
    assert(!file_tag_lead().is_prefix_of(t)) by {
        if file_tag_lead().is_prefix_of(t) {
            assert(t.subrange(0, 5)[0] == file_tag_lead()[0]);
        }
    }
    assert(!banner_lead().is_prefix_of(t)) by {
        if banner_lead().is_prefix_of(t) {
            assert(t.subrange(0, 4)[0] == banner_lead()[0]);
        }
    }
    assert(t != explain_open_tag());
    assert(t != explain_close_tag());
    assert(t != explain_open_banner());
    assert(t != explain_close_banner());
    assert(t != file_close_tag());
}

/// The line that opens the section of the file at `path`, as a tag.
pub open spec fn open_tag(path: Seq<char>) -> Seq<char> {
    "<file path=\""@ + path + "\">"@
}

/// The line that closes a section, as a tag.
pub open spec fn close_tag() -> Seq<char> {
    "</file>"@
}

/// An input file stands in the user prompt as it would in a reply: between
/// the opening tag for its path and the closing tag, each on a line of its
/// own.
pub proof fn lemma_file_block(path: Seq<char>, content: Seq<char>)
    ensures
        file_block(path, content) == open_tag(path) + seq!['\n'] + content + seq!['\n']
            + close_tag() + seq!['\n'],
{
    reveal_strlit("<file path=\"");
    reveal_strlit("\">");
    reveal_strlit("\">\n");
    reveal_strlit("</file>");
    reveal_strlit("\n</file>\n");
    assert("\">\n"@ =~= "\">"@ + seq!['\n']);
    assert("\n</file>\n"@ =~= seq!['\n'] + "</file>"@ + seq!['\n']);
    assert(file_block(path, content) =~= open_tag(path) + seq!['\n'] + content + seq!['\n']
        + close_tag() + seq!['\n']);
}

/// `s` holds no character `c`.
pub open spec fn free_of(s: Seq<char>, c: char) -> bool {
    forall|i: int| 0 <= i < s.len() ==> s[i] != c
}

/// The opening tag for a path is read as an opening line that carries this
/// path, provided the path holds no double quote.
#[verifier::rlimit(20)]
pub proof fn lemma_open_tag(path: Seq<char>)
    requires
        free_of(path, '"'),
    ensures
        kind_of(open_tag(path)) == LineKind::FileOpen,
        path_of(open_tag(path)) == path,
        trim(open_tag(path)) == open_tag(path),
{
    lemma_sentinel_literals();
    reveal_strlit("<file path=\"");
    reveal_strlit("\">");
    let head = "<file path=\""@;
    let tail = "\">"@;
    let line = open_tag(path);
    let n = path.len() as int;
    assert(head =~= seq!['<', 'f', 'i', 'l', 'e', ' ', 'p', 'a', 't', 'h', '=', '"']);
    assert(tail =~= seq!['"', '>']);
    assert(line.len() == n + 14);
    assert(forall|i: int| 0 <= i < 12 ==> line[i] == head[i]);
    assert(forall|i: int| 0 <= i < n ==> line[12 + i] == path[i]);
    assert(line[12 + n] == '"');
    assert(line[13 + n] == '>');
    lemma_trim_identity(line);
    let t = trim(line);
    assert(!think_open().is_prefix_of(t)) by {
        if think_open().is_prefix_of(t) {
            assert(t.subrange(0, 7)[1] == think_open()[1]);
        }
    }
    assert(!think_close().is_prefix_of(t)) by {
        if think_close().is_prefix_of(t) {
            assert(t.subrange(0, 8)[1] == think_close()[1]);
        }
    }
    assert(t != explain_open_tag()) by {
        if t == explain_open_tag() {
            assert(t[1] == explain_open_tag()[1]);
        }
    }
    assert(t != explain_close_tag()) by {
        if t == explain_close_tag() {
            assert(t[1] == explain_close_tag()[1]);
        }
    }
    assert(t != explain_open_banner());
    assert(t != explain_close_banner());
    assert(file_tag_lead().is_prefix_of(t)) by {
        assert(t.subrange(0, 5) =~= file_tag_lead());
    }
    assert(file_tag_tail().is_suffix_of(t)) by {
        assert(t.subrange(t.len() - 1, t.len() as int) =~= file_tag_tail());
    }
    assert(is_tag_opener(t));
    assert(occurs_at(t, path_key(), 6)) by {
        assert(t.subrange(6, 12) =~= path_key());
    }
    assert forall|j: int| 0 <= j < 6 implies !occurs_at(t, path_key(), j) by {
        if occurs_at(t, path_key(), j) {
            assert(t.subrange(j, j + 6)[0] == path_key()[0]);
        }
    }
    lemma_first_occurrence_is(t, path_key(), 6);
    let rest = t.skip(12);
    assert(occurs_at(rest, quote(), n)) by {
        assert(rest.subrange(n, n + 1) =~= quote());
    }
    assert forall|j: int| 0 <= j < n implies !occurs_at(rest, quote(), j) by {
        if occurs_at(rest, quote(), j) {
            assert(rest.subrange(j, j + 1)[0] == quote()[0]);
            assert(rest[j] == path[j]);
        }
    }
    lemma_first_occurrence_is(rest, quote(), n);
    assert(t.subrange(12, 12 + n) =~= path);
    assert(tag_path(t) == path);
}

/// The closing tag is read as a closing line.
pub proof fn lemma_close_tag()
    ensures
        kind_of(close_tag()) == LineKind::FileClose,
        trim(close_tag()) == close_tag(),
{
    lemma_sentinel_literals();
    let t = close_tag();
    lemma_trim_identity(t);
    assert(!think_open().is_prefix_of(t)) by {
        if think_open().is_prefix_of(t) {
            assert(t.subrange(0, 7)[1] == think_open()[1]);
        }
    }
    assert(!file_tag_lead().is_prefix_of(t)) by {
        if file_tag_lead().is_prefix_of(t) {
            assert(t.subrange(0, 5)[1] == file_tag_lead()[1]);
        }
    }
    assert(!banner_lead().is_prefix_of(t)) by {
        if banner_lead().is_prefix_of(t) {
            assert(t.subrange(0, 4)[0] == banner_lead()[0]);
        }
    }
}

/// The tags of the explanation are read as its opening and closing lines.
pub proof fn lemma_explain_tags()
    ensures
        kind_of(explain_open_tag()) == LineKind::ExplainOpen,
        kind_of(explain_close_tag()) == LineKind::ExplainClose,
        trim(explain_open_tag()) == explain_open_tag(),
        trim(explain_close_tag()) == explain_close_tag(),
{
    lemma_sentinel_literals();
    let o = explain_open_tag();
    let c = explain_close_tag();
    lemma_trim_identity(o);
    lemma_trim_identity(c);
    assert(!think_open().is_prefix_of(o)) by {
        if think_open().is_prefix_of(o) {
            assert(o.subrange(0, 7)[1] == think_open()[1]);
        }
    }
    assert(!think_close().is_prefix_of(o)) by {
        if think_close().is_prefix_of(o) {
            assert(o.subrange(0, 8)[1] == think_close()[1]);
        }
    }
    assert(!think_open().is_prefix_of(c)) by {
        if think_open().is_prefix_of(c) {
            assert(c.subrange(0, 7)[1] == think_open()[1]);
        }
    }
    assert(!think_close().is_prefix_of(c)) by {
        if think_close().is_prefix_of(c) {
            assert(c.subrange(0, 8)[2] == think_close()[2]);
        }
    }
    assert(c != o);
    assert(c != explain_open_banner());
}

/// The markers of reasoning are read as its opening and closing lines, with
/// whatever follows them on the line.
pub proof fn lemma_think_tags(rest: Seq<char>)
    requires
        rest.len() == 0 || !is_space(rest.last()),
    ensures
        kind_of(think_open() + rest) == LineKind::ThinkOpen,
        kind_of(think_close() + rest) == LineKind::ThinkClose,
{
    lemma_sentinel_literals();
    let o = think_open() + rest;
    let c = think_close() + rest;
    assert(o[0] == '<');
    assert(c[0] == '<');
    assert(rest.len() == 0 ==> o.last() == '>' && c.last() == '>');
    assert(rest.len() > 0 ==> o.last() == rest.last() && c.last() == rest.last());
    lemma_trim_identity(o);
    lemma_trim_identity(c);
    assert(think_open().is_prefix_of(o)) by {
        assert(o.subrange(0, 7) =~= think_open());
    }
    assert(think_close().is_prefix_of(c)) by {
        assert(c.subrange(0, 8) =~= think_close());
    }
    assert(!think_open().is_prefix_of(c)) by {
        if think_open().is_prefix_of(c) {
            assert(c.subrange(0, 7)[1] == think_open()[1]);
        }
    }
}

/// The line that opens the section of the file at `path`, as a banner.
pub open spec fn open_banner(path: Seq<char>) -> Seq<char> {
    banner_lead() + path + banner_open_tail()
}

/// The line that closes the section of the file at `path`, as a banner.
pub open spec fn close_banner(path: Seq<char>) -> Seq<char> {
    banner_lead() + path + banner_close_tail()
}

/// The opening banner for a path is read as an opening line that carries
/// this path, whatever the path holds.
pub proof fn lemma_open_banner(path: Seq<char>)
    ensures
        kind_of(open_banner(path)) == LineKind::FileOpen,
        path_of(open_banner(path)) == path,
{
    lemma_sentinel_literals();
    reveal_strlit("=== EXPLAIN START ===");
    reveal_strlit("=== EXPLAIN END ===");
    reveal_strlit(" === START ===");
    let line = open_banner(path);
    let n = path.len() as int;
    assert(line.len() == n + 18);
    assert(line[0] == '=');
    assert(line.last() == banner_open_tail()[13]);
    lemma_trim_identity(line);
    let t = trim(line);
    assert(!think_open().is_prefix_of(t)) by {
        if think_open().is_prefix_of(t) {
            assert(t.subrange(0, 7)[0] == think_open()[0]);
        }
    }
    assert(!think_close().is_prefix_of(t)) by {
        if think_close().is_prefix_of(t) {
            assert(t.subrange(0, 8)[0] == think_close()[0]);
        }
    }
    assert(t != explain_open_tag());
    assert(t != explain_close_tag());
    assert(t != explain_open_banner()) by {
        if t == explain_open_banner() {
            assert(n == 3);
            assert(t[7] == banner_open_tail()[0]);
            assert(explain_open_banner()[7] == 'L');
        }
    }
    assert(t != explain_close_banner()) by {
        if t == explain_close_banner() {
            assert(n == 1);
            assert(t[5] == banner_open_tail()[0]);
            assert(explain_close_banner()[5] == 'X');
        }
    }
    assert(!file_tag_lead().is_prefix_of(t)) by {
        if file_tag_lead().is_prefix_of(t) {
            assert(t.subrange(0, 5)[0] == file_tag_lead()[0]);
        }
    }
    assert(banner_lead().is_prefix_of(t)) by {
        assert(t.subrange(0, 4) =~= banner_lead());
    }
    assert(banner_open_tail().is_suffix_of(t)) by {
        assert(t.subrange(t.len() - 14, t.len() as int) =~= banner_open_tail());
    }
    assert(t.subrange(4, t.len() - 14) =~= path);
}

/// The closing banner for a path is read as a closing line, whatever the
/// path holds.
pub proof fn lemma_close_banner(path: Seq<char>)
    ensures
        kind_of(close_banner(path)) == LineKind::FileClose,
{
    lemma_sentinel_literals();
    reveal_strlit("=== EXPLAIN START ===");
    reveal_strlit("=== EXPLAIN END ===");
    reveal_strlit(" === START ===");
    reveal_strlit(" === END ===");
    let line = close_banner(path);
    let n = path.len() as int;
    assert(line.len() == n + 16);
    assert(line[0] == '=');
    assert(line.last() == banner_close_tail()[11]);
    lemma_trim_identity(line);
    let t = trim(line);
    assert(!think_open().is_prefix_of(t)) by {
        if think_open().is_prefix_of(t) {
            assert(t.subrange(0, 7)[0] == think_open()[0]);
        }
    }
    assert(!think_close().is_prefix_of(t)) by {
        if think_close().is_prefix_of(t) {
            assert(t.subrange(0, 8)[0] == think_close()[0]);
        }
    }
    assert(t != explain_open_tag());
    assert(t != explain_close_tag());
    assert(t != explain_open_banner()) by {
        if t == explain_open_banner() {
            assert(n == 5);
            assert(t[9] == banner_close_tail()[0]);
            assert(explain_open_banner()[9] == 'I');
        }
    }
    assert(t != explain_close_banner()) by {
        if t == explain_close_banner() {
            assert(n == 3);
            assert(t[7] == banner_close_tail()[0]);
            assert(explain_close_banner()[7] == 'L');
        }
    }
    assert(!file_tag_lead().is_prefix_of(t)) by {
        if file_tag_lead().is_prefix_of(t) {
            assert(t.subrange(0, 5)[0] == file_tag_lead()[0]);
        }
    }
    assert(banner_lead().is_prefix_of(t)) by {
        assert(t.subrange(0, 4) =~= banner_lead());
    }
    assert(banner_close_tail().is_suffix_of(t)) by {
        assert(t.subrange(t.len() - 12, t.len() as int) =~= banner_close_tail());
    }
    assert(!is_banner_opener(t)) by {
        if banner_open_tail().is_suffix_of(t) {
            assert(t.subrange(t.len() - 14, t.len() as int)[9] == banner_open_tail()[9]);
            assert(t[t.len() - 5] == banner_close_tail()[7]);
        }
    }
}

/// A line that can stand in a text: it holds no line feed and does not end
/// with a carriage return.
pub open spec fn is_line(line: Seq<char>) -> bool {
    free_of(line, '\n') && (line.len() == 0 || line.last() != '\r')
}

/// Every element of `lines` can stand in a text.
pub open spec fn all_lines(lines: Seq<Seq<char>>) -> bool {
    forall|i: int| 0 <= i < lines.len() ==> is_line(#[trigger] lines[i])
}

/// Joining a line and further lines puts a line feed after the first.
pub proof fn lemma_join_first(first: Seq<char>, rest: Seq<Seq<char>>)
    requires
        rest.len() > 0,
    ensures
        join_lines(seq![first] + rest) == first + seq!['\n'] + join_lines(rest),
    decreases rest.len(),
{
    let all = seq![first] + rest;
    assert(all.drop_last() =~= seq![first] + rest.drop_last());
    assert(all.last() == rest.last());
    if rest.len() == 1 {
        assert(rest.drop_last() =~= Seq::<Seq<char>>::empty());
        assert(seq![first] + rest.drop_last() =~= seq![first]);
        assert(join_lines(seq![first]) == first);
        assert(join_lines(rest) == rest[0]);
    } else {
        lemma_join_first(first, rest.drop_last());
        assert(first + seq!['\n'] + join_lines(rest.drop_last()) + seq!['\n'] + rest.last()
            =~= first + seq!['\n'] + (join_lines(rest.drop_last()) + seq!['\n'] + rest.last()));
    }
}

/// Lines that are joined and terminated are read back as they were.
pub proof fn lemma_lines_of_terminated(lines: Seq<Seq<char>>)
    requires
        lines.len() > 0,
        all_lines(lines),
    ensures
        lines_of(join_lines(lines) + seq!['\n']) == lines,
    decreases lines.len(),
{
    let first = lines[0];
    let rest = lines.drop_first();
    let text = join_lines(lines) + seq!['\n'];
    let k = first.len() as int;
    assert(is_line(first));
    assert(lines =~= seq![first] + rest);
    if rest.len() == 0 {
        assert(join_lines(lines) == first);
        lemma_first_newline(text, k);
        assert(text.take(k) =~= first);
        assert(text.skip(k + 1) =~= Seq::<char>::empty());
        assert(lines_of(Seq::<char>::empty()) =~= Seq::<Seq<char>>::empty());
        assert(strip_cr(first) == first);
        assert(lines_of(text) =~= seq![first]);
    } else {
        lemma_join_first(first, rest);
        let tail = join_lines(rest) + seq!['\n'];
        assert(text =~= first + seq!['\n'] + tail);
        lemma_first_newline(text, k);
        assert(text.take(k) =~= first);
        assert(text.skip(k + 1) =~= tail);
        assert forall|i: int| 0 <= i < rest.len() implies is_line(#[trigger] rest[i]) by {
            assert(rest[i] == lines[i + 1]);
        }
        lemma_lines_of_terminated(rest);
        assert(lines_of(text) =~= seq![first] + rest);
    }
}

/// Lines that are joined are read back as they were, if the last is not
/// empty.
pub proof fn lemma_lines_of_joined(lines: Seq<Seq<char>>)
    requires
        lines.len() > 0,
        all_lines(lines),
        lines.last().len() > 0,
    ensures
        lines_of(join_lines(lines)) == lines,
    decreases lines.len(),
{
    let first = lines[0];
    let rest = lines.drop_first();
    let text = join_lines(lines);
    let k = first.len() as int;
    assert(is_line(first));
    assert(lines =~= seq![first] + rest);
    if rest.len() == 0 {
        assert(lines.last() == first);
        assert(lines.drop_last() =~= Seq::<Seq<char>>::empty());
        assert(text == first);
        lemma_first_newline(text, k);
        assert(lines_of(text) =~= seq![first]);
    } else {
        lemma_join_first(first, rest);
        let tail = join_lines(rest);
        assert(text =~= first + seq!['\n'] + tail);
        lemma_first_newline(text, k);
        assert(text.take(k) =~= first);
        assert(text.skip(k + 1) =~= tail);
        assert forall|i: int| 0 <= i < rest.len() implies is_line(#[trigger] rest[i]) by {
            assert(rest[i] == lines[i + 1]);
        }
        assert(rest.last() == lines.last());
        lemma_lines_of_joined(rest);
        assert(lines_of(text) =~= seq![first] + rest);
    }
}

/// A line that can stand in a text and is no sentinel: its trimmed form is
/// empty or begins with neither `<` nor `=`.
pub open spec fn is_plain_line(line: Seq<char>) -> bool {
    is_line(line) && (trim(line).len() == 0 || (trim(line)[0] != '<' && trim(line)[0] != '='))
}

/// Every element of `lines` is a plain line.
pub open spec fn all_plain(lines: Seq<Seq<char>>) -> bool {
    forall|i: int| 0 <= i < lines.len() ==> is_plain_line(#[trigger] lines[i])
}

/// A file as a reply spells it: a path and the lines of the file.
pub struct FileText {
    pub path: Seq<char>,
    pub lines: Seq<Seq<char>>,
}

impl FileText {
    /// The file can be spelled with tags: the path is not empty and holds
    /// neither a double quote nor a line feed, and the lines are plain.
    pub open spec fn writable(self) -> bool {
        &&& self.path.len() > 0
        &&& free_of(self.path, '"')
        &&& free_of(self.path, '\n')
        &&& all_plain(self.lines)
    }

    /// The section that spells the file.
    pub open spec fn section(self) -> Section {
        Section { open: open_tag(self.path), body: self.lines, close: close_tag() }
    }

    /// The file as a pair of path and content.
    pub open spec fn file(self) -> (Seq<char>, Seq<char>) {
        (self.path, join_lines(self.lines))
    }
}

/// Every file of `files` can be spelled with tags.
pub open spec fn all_writable(files: Seq<FileText>) -> bool {
    forall|i: int| 0 <= i < files.len() ==> (#[trigger] files[i]).writable()
}

/// The pieces of the reply that explains with `explanation` and then spells
/// `files`, in the format that the system prompt asks for.
pub open spec fn reply_parts(explanation: Seq<Seq<char>>, files: Seq<FileText>) -> Seq<Part> {
    seq![
        Part::Explanation {
            open: explain_open_tag(),
            body: explanation,
            close: explain_close_tag(),
        },
    ] + files.map_values(|f: FileText| Part::File(f.section()))
}

/// The text of that reply.
pub open spec fn reply_text(explanation: Seq<Seq<char>>, files: Seq<FileText>) -> Seq<char> {
    join_lines(lines_of_parts(reply_parts(explanation, files)))
}

/// The sentinel lines that are written can stand in a text.
pub proof fn lemma_tags_are_lines(path: Seq<char>)
    requires
        free_of(path, '\n'),
    ensures
        is_line(open_tag(path)),
        open_tag(path).len() > 0,
        is_line(close_tag()),
        close_tag().len() > 0,
        is_line(explain_open_tag()),
        is_line(explain_close_tag()),
        explain_close_tag().len() > 0,
{
    lemma_sentinel_literals();
    reveal_strlit("<file path=\"");
    reveal_strlit("\">");
    let head = "<file path=\""@;
    let tail = "\">"@;
    let line = open_tag(path);
    let n = path.len() as int;
    assert(head =~= seq!['<', 'f', 'i', 'l', 'e', ' ', 'p', 'a', 't', 'h', '=', '"']);
    assert(tail =~= seq!['"', '>']);
    assert(line.len() == n + 14);
    assert forall|i: int| 0 <= i < line.len() implies line[i] != '\n' by {
        if i < 12 {
            assert(line[i] == head[i]);
        } else if i < 12 + n {
            assert(line[i] == path[i - 12]);
        } else {
            assert(line[i] == tail[i - 12 - n]);
        }
    }
    assert(line.last() == '>');
}

/// The lines of one block that is written can stand in a text.
proof fn lemma_block_lines(open: Seq<char>, body: Seq<Seq<char>>, close: Seq<char>)
    requires
        is_line(open),
        all_lines(body),
        is_line(close),
    ensures
        all_lines(seq![open] + body + seq![close]),
        (seq![open] + body + seq![close]).last() == close,
{
    let lines = seq![open] + body + seq![close];
    assert forall|i: int| 0 <= i < lines.len() implies is_line(#[trigger] lines[i]) by {
        if i == 0 {
        } else if i <= body.len() {
            assert(lines[i] == body[i - 1]);
        } else {
        }
    }
}

/// Two runs of lines that can stand in a text make one.
proof fn lemma_all_lines_concat(a: Seq<Seq<char>>, b: Seq<Seq<char>>)
    requires
        all_lines(a),
        all_lines(b),
    ensures
        all_lines(a + b),
{
    assert forall|i: int| 0 <= i < (a + b).len() implies is_line(#[trigger] (a + b)[i]) by {
        if i < a.len() {
            assert((a + b)[i] == a[i]);
        } else {
            assert((a + b)[i] == b[i - a.len()]);
        }
    }
}

/// The explanation of a written reply is a well-formed piece, and its lines
/// can stand in a text.
proof fn lemma_explanation_part(explanation: Seq<Seq<char>>)
    requires
        all_plain(explanation),
    ensures
        ({
            let part = Part::Explanation {
                open: explain_open_tag(),
                body: explanation,
                close: explain_close_tag(),
            };
            &&& part.well_formed()
            &&& all_lines(part.lines())
            &&& part.lines().len() > 0
            &&& part.lines().last().len() > 0
        }),
{
    let part = Part::Explanation {
        open: explain_open_tag(),
        body: explanation,
        close: explain_close_tag(),
    };
    lemma_explain_tags();
    lemma_tags_are_lines(Seq::empty());
    assert forall|i: int| 0 <= i < explanation.len() implies stays_in_explanation(
        #[trigger] explanation[i],
    ) && is_line(explanation[i]) by {
        assert(is_plain_line(explanation[i]));
        lemma_plain_line(explanation[i]);
    }
    lemma_block_lines(explain_open_tag(), explanation, explain_close_tag());
}

/// The section of a writable file is a well-formed piece that holds this
/// file, and its lines can stand in a text.
proof fn lemma_file_part(file: FileText)
    requires
        file.writable(),
    ensures
        ({
            let part = Part::File(file.section());
            &&& part.well_formed()
            &&& all_lines(part.lines())
            &&& part.lines().len() > 0
            &&& part.lines().last().len() > 0
            &&& part.files() == seq![file.file()]
        }),
{
    let part = Part::File(file.section());
    lemma_open_tag(file.path);
    lemma_close_tag();
    lemma_tags_are_lines(file.path);
    assert forall|i: int| 0 <= i < file.lines.len() implies kind_of(#[trigger] file.lines[i])
        == LineKind::Text && is_line(file.lines[i]) by {
        assert(is_plain_line(file.lines[i]));
        lemma_plain_line(file.lines[i]);
    }
    lemma_block_lines(open_tag(file.path), file.lines, close_tag());
    assert(part.files() =~= seq![file.file()]);
}

/// The pieces of a written reply are well formed, their lines can stand in a
/// text, and they hold the explanation and the files that were written, and
/// no trailing text.
pub proof fn lemma_reply_parts(explanation: Seq<Seq<char>>, files: Seq<FileText>)
    requires
        all_plain(explanation),
        all_writable(files),
    ensures
        all_well_formed(reply_parts(explanation, files)),
        all_lines(lines_of_parts(reply_parts(explanation, files))),
        lines_of_parts(reply_parts(explanation, files)).len() > 0,
        lines_of_parts(reply_parts(explanation, files)).last().len() > 0,
        explanation_of_parts(reply_parts(explanation, files)) == explanation,
        files_of_parts(reply_parts(explanation, files)) == files.map_values(
            |f: FileText| f.file(),
        ),
        trailing_of_parts(reply_parts(explanation, files)) == Seq::<Seq<char>>::empty(),
    decreases files.len(),
{
    let parts = reply_parts(explanation, files);
    let written = files.map_values(|f: FileText| f.file());
    let nothing = Seq::<Part>::empty();
    if files.len() == 0 {
        let first = parts[0];
        lemma_explanation_part(explanation);
        assert(parts =~= seq![first]);
        assert(parts.drop_last() =~= nothing);
        assert(parts.last() == first);
        assert(lines_of_parts(nothing) =~= Seq::<Seq<char>>::empty());
        assert(explanation_of_parts(nothing) =~= Seq::<Seq<char>>::empty());
        assert(files_of_parts(nothing) =~= Seq::<(Seq<char>, Seq<char>)>::empty());
        assert(trailing_of_parts(nothing) =~= Seq::<Seq<char>>::empty());
        assert(lines_of_parts(parts) =~= first.lines());
        assert(explanation_of_parts(parts) =~= explanation);
        assert(files_of_parts(parts) =~= written);
        assert(trailing_of_parts(parts) =~= Seq::<Seq<char>>::empty());
    } else {
        let init = files.drop_last();
        let file = files.last();
        let before = reply_parts(explanation, init);
        let last = Part::File(file.section());
        assert forall|i: int| 0 <= i < init.len() implies (#[trigger] init[i]).writable() by {
            assert(init[i] == files[i]);
        }
        lemma_reply_parts(explanation, init);
        lemma_file_part(file);
        assert(parts.drop_last() =~= before);
        assert(parts.last() == last);
        assert forall|i: int| 0 <= i < parts.len() implies (#[trigger] parts[i]).well_formed() by {
            if i < before.len() {
                assert(parts[i] == before[i]);
            }
        }
        lemma_all_lines_concat(lines_of_parts(before), last.lines());
        assert(lines_of_parts(parts) == lines_of_parts(before) + last.lines());
        assert(lines_of_parts(parts).last() == last.lines().last());
        assert(init.map_values(|f: FileText| f.file()).push(file.file()) =~= written);
        assert(files_of_parts(parts) =~= written);
        assert(explanation_of_parts(parts) =~= explanation);
        assert(trailing_of_parts(parts) =~= Seq::<Seq<char>>::empty());
    }
}

/// What is written is read back: the reply that explains with plain lines
/// and spells writable files with tags parses into exactly this explanation
/// and these files, each with its path and with its lines joined by line
/// feeds, in the order in which they were written, and no trailing text.
pub proof fn lemma_written_reply_is_read_back(explanation: Seq<Seq<char>>, files: Seq<FileText>)
    requires
        all_plain(explanation),
        all_writable(files),
    ensures
        parse_reply(reply_text(explanation, files)) == Some(
            Reply {
                explanation: join_lines(explanation),
                files: files.map_values(|f: FileText| f.file()),
                trailing: Seq::empty(),
            },
        ),
{
    let parts = reply_parts(explanation, files);
    lemma_reply_parts(explanation, files);
    lemma_lines_of_joined(lines_of_parts(parts));
    lemma_well_formed_reply(reply_text(explanation, files), parts);
    assert(join_lines(Seq::<Seq<char>>::empty()) =~= Seq::<char>::empty());
}

/// What is written and allowed is carried out: the reply that spells
/// writable files, all at allowed paths, is approved, and a run that
/// storage does not fail writes exactly these files, each once, in their
/// order, after the explanation if it is not empty.
pub proof fn lemma_written_reply_is_carried_out(
    explanation: Seq<Seq<char>>,
    files: Seq<FileText>,
    allowed: Set<Seq<char>>,
)
    requires
        all_plain(explanation),
        all_writable(files),
        forall|i: int| 0 <= i < files.len() ==> allowed.contains((#[trigger] files[i]).path),
    ensures
        verdict_of(reply_text(explanation, files), allowed) == (VerdictView::Approved {
            explanation: join_lines(explanation),
            files: files.map_values(|f: FileText| f.file()),
        }),
        plan_of(reply_text(explanation, files), allowed).actions() == announcement(
            join_lines(explanation),
        ) + writes(files.map_values(|f: FileText| f.file())) + seq![ActionView::Done],
{
    let parts = reply_parts(explanation, files);
    let written = files.map_values(|f: FileText| f.file());
    lemma_reply_parts(explanation, files);
    lemma_lines_of_joined(lines_of_parts(parts));
    assert forall|i: int| 0 <= i < written.len() implies allowed.contains(
        (#[trigger] written[i]).0,
    ) by {
        assert(written[i].0 == files[i].path);
    }
    lemma_well_formed_reply_is_written(reply_text(explanation, files), parts, allowed);
}

} // verus!
