//! What holds of the scanner, the guard and the materializer on every input.

use crate::grammar::{kind_of, path_of, LineKind};
use crate::app::ErrorView;
use crate::guard::{
    all_allowed, disallowed_message, first_disallowed, lemma_first_disallowed, verdict_of,
    VerdictView,
};
use crate::llm::parse_reply;
use crate::materialize::{
    announcement, effect, lemma_actions_of_verdict, lemma_effect_elsewhere, lemma_effect_of_run,
    lemma_effect_without_writes, plan_of, stored, writes, writes_allowed_only, writes_nothing,
    ActionView,
};
use crate::scan::{initial_state, outcome, scan, step, truncated_message, Mode, ScanState};
use crate::text::{join_lines, lines_of};
use vstd::prelude::*;

verus! {

/// Scanning one line is one step.
pub proof fn lemma_scan_one(s: ScanState, line: Seq<char>)
    ensures
        scan(s, seq![line]) == step(s, line),
{
    assert(seq![line].drop_first() =~= Seq::<Seq<char>>::empty());
    reveal_with_fuel(scan, 2);
}

/// Scanning two runs of lines one after the other is scanning them as one.
pub proof fn lemma_scan_concat(s: ScanState, a: Seq<Seq<char>>, b: Seq<Seq<char>>)
    ensures
        scan(s, a + b) == scan(scan(s, a), b),
    decreases a.len(),
{
    if a.len() == 0 {
        assert(a + b =~= b);
    } else {
        assert((a + b).drop_first() =~= a.drop_first() + b);
        lemma_scan_concat(step(s, a[0]), a.drop_first(), b);
    }
}

/// No line of `lines` is of the kind `kind`.
pub open spec fn none_of_kind(lines: Seq<Seq<char>>, kind: LineKind) -> bool {
    forall|i: int| 0 <= i < lines.len() ==> kind_of(#[trigger] lines[i]) != kind
}

/// Every line of `lines` is plain text.
pub open spec fn all_text(lines: Seq<Seq<char>>) -> bool {
    forall|i: int| 0 <= i < lines.len() ==> kind_of(#[trigger] lines[i]) == LineKind::Text
}

/// Inside a block of reasoning nothing changes until the block is closed.
pub proof fn lemma_reasoning_changes_nothing(s: ScanState, inner: Seq<Seq<char>>)
    requires
        s.thinking,
        none_of_kind(inner, LineKind::ThinkClose),
    ensures
        scan(s, inner) == s,
    decreases inner.len(),
{
    if inner.len() > 0 {
        assert(kind_of(inner[0]) != LineKind::ThinkClose);
        assert(step(s, inner[0]) == s);
        assert forall|i: int| 0 <= i < inner.drop_first().len() implies kind_of(
            #[trigger] inner.drop_first()[i],
        ) != LineKind::ThinkClose by {
            assert(inner.drop_first()[i] == inner[i + 1]);
        }
        lemma_reasoning_changes_nothing(s, inner.drop_first());
    }
}

/// What stands inside a block of reasoning has no effect: the scanner ends in
/// the same state, with the same explanation, files and trailing text,
/// whatever lines stand between the opening line and the next closing line.
pub proof fn lemma_reasoning_is_discarded(
    s: ScanState,
    before: Seq<Seq<char>>,
    open: Seq<char>,
    inner: Seq<Seq<char>>,
    after: Seq<Seq<char>>,
)
    requires
        kind_of(open) == LineKind::ThinkOpen,
        none_of_kind(inner, LineKind::ThinkClose),
    ensures
        scan(s, before + seq![open] + inner + after) == scan(s, before + seq![open] + after),
{
    let at_open = scan(s, before + seq![open]);
    lemma_scan_concat(s, before, seq![open]);
    lemma_scan_one(scan(s, before), open);
    assert(at_open.thinking);
    lemma_reasoning_changes_nothing(at_open, inner);
    lemma_scan_concat(s, before + seq![open], inner);
    lemma_scan_concat(s, before + seq![open] + inner, after);
    lemma_scan_concat(s, before + seq![open], after);
}

/// A block of reasoning leaves no trace: outside reasoning, a reply with the
/// block, from its opening line to its closing line, is scanned as the reply
/// without it.
pub proof fn lemma_reasoning_leaves_no_trace(
    s: ScanState,
    before: Seq<Seq<char>>,
    open: Seq<char>,
    inner: Seq<Seq<char>>,
    close: Seq<char>,
    after: Seq<Seq<char>>,
)
    requires
        !scan(s, before).thinking,
        kind_of(open) == LineKind::ThinkOpen,
        none_of_kind(inner, LineKind::ThinkClose),
        kind_of(close) == LineKind::ThinkClose,
    ensures
        scan(s, before + seq![open] + inner + seq![close] + after) == scan(s, before + after),
{
    let start = scan(s, before);
    let opened = step(start, open);
    lemma_scan_concat(s, before, seq![open]);
    lemma_scan_one(start, open);
    lemma_reasoning_changes_nothing(opened, inner);
    lemma_scan_concat(s, before + seq![open], inner);
    lemma_scan_one(opened, close);
    lemma_scan_concat(s, before + seq![open] + inner, seq![close]);
    assert(step(opened, close) == start);
    lemma_scan_concat(s, before + seq![open] + inner + seq![close], after);
    lemma_scan_concat(s, before, after);
}

/// A file section stays open as long as no closing line is met.
pub proof fn lemma_section_stays_open(s: ScanState, lines: Seq<Seq<char>>)
    requires
        s.file_open,
        none_of_kind(lines, LineKind::FileClose),
    ensures
        scan(s, lines).file_open,
    decreases lines.len(),
{
    if lines.len() > 0 {
        assert(kind_of(lines[0]) != LineKind::FileClose);
        assert forall|i: int| 0 <= i < lines.drop_first().len() implies kind_of(
            #[trigger] lines.drop_first()[i],
        ) != LineKind::FileClose by {
            assert(lines.drop_first()[i] == lines[i + 1]);
        }
        lemma_section_stays_open(step(s, lines[0]), lines.drop_first());
    }
}

/// A file section that is opened and never closed makes the reply unusable:
/// if an opening line is met outside reasoning and explanation, and no
/// closing line follows it, the scanner hands out nothing.
pub proof fn lemma_unclosed_section_fails(
    s: ScanState,
    before: Seq<Seq<char>>,
    open: Seq<char>,
    after: Seq<Seq<char>>,
)
    requires
        kind_of(open) == LineKind::FileOpen,
        !scan(s, before).thinking,
        !scan(s, before).explaining,
        none_of_kind(after, LineKind::FileClose),
    ensures
        scan(s, before + seq![open] + after).file_open,
        outcome(scan(s, before + seq![open] + after)) is None,
{
    lemma_scan_concat(s, before, seq![open]);
    lemma_scan_one(scan(s, before), open);
    lemma_scan_concat(s, before + seq![open], after);
    lemma_section_stays_open(scan(s, before + seq![open]), after);
}

/// The same for a whole reply: if its lines are an opening line, met outside
/// reasoning and explanation, and after it no closing line, parsing fails.
pub proof fn lemma_unclosed_reply_fails(
    text: Seq<char>,
    before: Seq<Seq<char>>,
    open: Seq<char>,
    after: Seq<Seq<char>>,
)
    requires
        lines_of(text) == before + seq![open] + after,
        kind_of(open) == LineKind::FileOpen,
        !scan(initial_state(), before).thinking,
        !scan(initial_state(), before).explaining,
        none_of_kind(after, LineKind::FileClose),
    ensures
        parse_reply(text) is None,
{
    lemma_unclosed_section_fails(initial_state(), before, open, after);
}

/// A file section as a reply spells it: an opening line, the lines of the
/// file, a closing line.
pub struct Section {
    pub open: Seq<char>,
    pub body: Seq<Seq<char>>,
    pub close: Seq<char>,
}

impl Section {
    /// The opening line carries a path, the body holds no sentinel, and the
    /// closing line closes. The closing line is the same for every path and
    /// cannot be escaped: a file that holds such a line cannot be spelled.
    pub open spec fn well_formed(self) -> bool {
        &&& kind_of(self.open) == LineKind::FileOpen
        &&& path_of(self.open).len() > 0
        &&& all_text(self.body)
        &&& kind_of(self.close) == LineKind::FileClose
    }

    /// The lines of the section.
    pub open spec fn lines(self) -> Seq<Seq<char>> {
        seq![self.open] + self.body + seq![self.close]
    }

    /// The file that the section describes: its path, and its lines joined by
    /// line feeds.
    pub open spec fn file(self) -> (Seq<char>, Seq<char>) {
        (path_of(self.open), join_lines(self.body))
    }
}

/// A line that is neither of the sentinels of reasoning nor of explanation.
pub open spec fn stays_in_explanation(line: Seq<char>) -> bool {
    let kind = kind_of(line);
    kind != LineKind::ThinkOpen && kind != LineKind::ThinkClose && kind != LineKind::ExplainOpen
        && kind != LineKind::ExplainClose
}

/// One piece of a reply, as seen from outside every block.
pub enum Part {
    /// A plain line.
    Text(Seq<char>),
    /// A block of reasoning.
    Reasoning { open: Seq<char>, inner: Seq<Seq<char>>, close: Seq<char> },
    /// A block of explanation.
    Explanation { open: Seq<char>, body: Seq<Seq<char>>, close: Seq<char> },
    /// A file section.
    File(Section),
}

impl Part {
    /// A plain line is no sentinel; a block is opened and closed by lines of
    /// its kind, and holds no line that would end it early or be taken for
    /// another block.
    pub open spec fn well_formed(self) -> bool {
        match self {
            Part::Text(line) => kind_of(line) == LineKind::Text,
            Part::Reasoning { open, inner, close } => {
                &&& kind_of(open) == LineKind::ThinkOpen
                &&& none_of_kind(inner, LineKind::ThinkClose)
                &&& kind_of(close) == LineKind::ThinkClose
            },
            Part::Explanation { open, body, close } => {
                &&& kind_of(open) == LineKind::ExplainOpen
                &&& forall|i: int| 0 <= i < body.len() ==> stays_in_explanation(#[trigger] body[i])
                &&& kind_of(close) == LineKind::ExplainClose
            },
            Part::File(section) => section.well_formed(),
        }
    }

    /// The lines of the piece.
    pub open spec fn lines(self) -> Seq<Seq<char>> {
        match self {
            Part::Text(line) => seq![line],
            Part::Reasoning { open, inner, close } => seq![open] + inner + seq![close],
            Part::Explanation { open, body, close } => seq![open] + body + seq![close],
            Part::File(section) => section.lines(),
        }
    }

    /// The lines that the piece adds to the explanation.
    pub open spec fn explanation(self) -> Seq<Seq<char>> {
        match self {
            Part::Explanation { open, body, close } => body,
            _ => Seq::empty(),
        }
    }

    /// The files that the piece adds.
    pub open spec fn files(self) -> Seq<(Seq<char>, Seq<char>)> {
        match self {
            Part::File(section) => seq![section.file()],
            _ => Seq::empty(),
        }
    }

    /// The lines that the piece adds to the trailing text.
    pub open spec fn trailing(self) -> Seq<Seq<char>> {
        match self {
            Part::Text(line) => seq![line],
            _ => Seq::empty(),
        }
    }
}

/// Every piece is well formed.
pub open spec fn all_well_formed(parts: Seq<Part>) -> bool {
    forall|i: int| 0 <= i < parts.len() ==> (#[trigger] parts[i]).well_formed()
}

/// The lines of the pieces, in order.
pub open spec fn lines_of_parts(parts: Seq<Part>) -> Seq<Seq<char>>
    decreases parts.len(),
{
    if parts.len() == 0 {
        Seq::empty()
    } else {
        lines_of_parts(parts.drop_last()) + parts.last().lines()
    }
}

/// The lines of explanation in the pieces, in order.
pub open spec fn explanation_of_parts(parts: Seq<Part>) -> Seq<Seq<char>>
    decreases parts.len(),
{
    if parts.len() == 0 {
        Seq::empty()
    } else {
        explanation_of_parts(parts.drop_last()) + parts.last().explanation()
    }
}

/// The files in the pieces, in order.
pub open spec fn files_of_parts(parts: Seq<Part>) -> Seq<(Seq<char>, Seq<char>)>
    decreases parts.len(),
{
    if parts.len() == 0 {
        Seq::empty()
    } else {
        files_of_parts(parts.drop_last()) + parts.last().files()
    }
}

/// The plain lines among the pieces, in order.
pub open spec fn trailing_of_parts(parts: Seq<Part>) -> Seq<Seq<char>>
    decreases parts.len(),
{
    if parts.len() == 0 {
        Seq::empty()
    } else {
        trailing_of_parts(parts.drop_last()) + parts.last().trailing()
    }
}

/// Inside the explanation, lines that are no sentinel of reasoning or
/// explanation are taken as they are.
pub proof fn lemma_explanation_collects(s: ScanState, body: Seq<Seq<char>>)
    requires
        !s.thinking,
        s.explaining,
        forall|i: int| 0 <= i < body.len() ==> stays_in_explanation(#[trigger] body[i]),
    ensures
        scan(s, body) == (ScanState { explanation: s.explanation + body, ..s }),
    decreases body.len(),
{
    if body.len() == 0 {
        assert(s.explanation + body =~= s.explanation);
    } else {
        assert(stays_in_explanation(body[0]));
        let next = step(s, body[0]);
        assert forall|i: int| 0 <= i < body.drop_first().len() implies stays_in_explanation(
            #[trigger] body.drop_first()[i],
        ) by {
            assert(body.drop_first()[i] == body[i + 1]);
        }
        lemma_explanation_collects(next, body.drop_first());
        assert(next.explanation + body.drop_first() =~= s.explanation + body);
    }
}

/// Inside a file section, plain lines are taken as they are.
pub proof fn lemma_section_collects(s: ScanState, body: Seq<Seq<char>>)
    requires
        !s.thinking,
        !s.explaining,
        s.file_open,
        all_text(body),
    ensures
        scan(s, body) == (ScanState { body: s.body + body, ..s }),
    decreases body.len(),
{
    if body.len() == 0 {
        assert(s.body + body =~= s.body);
    } else {
        assert(kind_of(body[0]) == LineKind::Text);
        let next = step(s, body[0]);
        assert forall|i: int| 0 <= i < body.drop_first().len() implies kind_of(
            #[trigger] body.drop_first()[i],
        ) == LineKind::Text by {
            assert(body.drop_first()[i] == body[i + 1]);
        }
        lemma_section_collects(next, body.drop_first());
        assert(next.body + body.drop_first() =~= s.body + body);
    }
}

/// Outside every block, a well-formed section adds its file and leaves
/// explanation and trailing text alone.
pub proof fn lemma_section_adds_its_file(s: ScanState, section: Section)
    requires
        s.mode() == Mode::Normal,
        section.well_formed(),
    ensures
        scan(s, section.lines()) == (ScanState {
            path: path_of(section.open),
            body: section.body,
            files: s.files.push(section.file()),
            ..s
        }),
{
    let opened = step(s, section.open);
    lemma_scan_one(s, section.open);
    lemma_section_collects(opened, section.body);
    assert(opened.body + section.body =~= section.body);
    let filled = scan(opened, section.body);
    lemma_scan_one(filled, section.close);
    lemma_scan_concat(s, seq![section.open], section.body);
    lemma_scan_concat(s, seq![section.open] + section.body, seq![section.close]);
}

/// Outside every block, a well-formed piece adds what it holds to the
/// explanation, the files and the trailing text, and ends outside every block.
pub proof fn lemma_part(s: ScanState, part: Part)
    requires
        s.mode() == Mode::Normal,
        part.well_formed(),
    ensures
        scan(s, part.lines()).mode() == Mode::Normal,
        scan(s, part.lines()).explanation == s.explanation + part.explanation(),
        scan(s, part.lines()).files == s.files + part.files(),
        scan(s, part.lines()).trailing == s.trailing + part.trailing(),
{
    match part {
        Part::Text(line) => {
            lemma_scan_one(s, line);
            assert(s.explanation + part.explanation() =~= s.explanation);
            assert(s.files + part.files() =~= s.files);
            assert(s.trailing + part.trailing() =~= s.trailing.push(line));
        },
        Part::Reasoning { open, inner, close } => {
            let opened = step(s, open);
            lemma_scan_one(s, open);
            lemma_reasoning_changes_nothing(opened, inner);
            lemma_scan_one(opened, close);
            lemma_scan_concat(s, seq![open], inner);
            lemma_scan_concat(s, seq![open] + inner, seq![close]);
            assert(s.explanation + part.explanation() =~= s.explanation);
            assert(s.files + part.files() =~= s.files);
            assert(s.trailing + part.trailing() =~= s.trailing);
        },
        Part::Explanation { open, body, close } => {
            let opened = step(s, open);
            lemma_scan_one(s, open);
            lemma_explanation_collects(opened, body);
            lemma_scan_one(scan(opened, body), close);
            lemma_scan_concat(s, seq![open], body);
            lemma_scan_concat(s, seq![open] + body, seq![close]);
            assert(s.files + part.files() =~= s.files);
            assert(s.trailing + part.trailing() =~= s.trailing);
        },
        Part::File(section) => {
            lemma_section_adds_its_file(s, section);
            assert(s.explanation + part.explanation() =~= s.explanation);
            assert(s.files + part.files() =~= s.files.push(section.file()));
            assert(s.trailing + part.trailing() =~= s.trailing);
        },
    }
}

/// A run of well-formed pieces, met outside every block, adds the lines of
/// its explanations, its files and its plain lines, each in their order, and
/// nothing else.
pub proof fn lemma_parts(s: ScanState, parts: Seq<Part>)
    requires
        s.mode() == Mode::Normal,
        all_well_formed(parts),
    ensures
        scan(s, lines_of_parts(parts)).mode() == Mode::Normal,
        scan(s, lines_of_parts(parts)).explanation == s.explanation + explanation_of_parts(parts),
        scan(s, lines_of_parts(parts)).files == s.files + files_of_parts(parts),
        scan(s, lines_of_parts(parts)).trailing == s.trailing + trailing_of_parts(parts),
    decreases parts.len(),
{
    if parts.len() == 0 {
        assert(s.explanation + explanation_of_parts(parts) =~= s.explanation);
        assert(s.files + files_of_parts(parts) =~= s.files);
        assert(s.trailing + trailing_of_parts(parts) =~= s.trailing);
    } else {
        let init = parts.drop_last();
        let last = parts.last();
        assert forall|i: int| 0 <= i < init.len() implies (#[trigger] init[i]).well_formed() by {
            assert(init[i] == parts[i]);
        }
        lemma_parts(s, init);
        let mid = scan(s, lines_of_parts(init));
        lemma_part(mid, last);
        lemma_scan_concat(s, lines_of_parts(init), last.lines());
        assert(mid.explanation + last.explanation() =~= s.explanation + explanation_of_parts(
            parts,
        ));
        assert(mid.files + last.files() =~= s.files + files_of_parts(parts));
        assert(mid.trailing + last.trailing() =~= s.trailing + trailing_of_parts(parts));
    }
}

/// A reply made of well-formed pieces parses, and holds exactly what its
/// pieces hold: the explanation lines, the files of its sections in their
/// order and with their lines joined by line feeds, and the plain lines that
/// stand outside every block.
pub proof fn lemma_well_formed_reply(text: Seq<char>, parts: Seq<Part>)
    requires
        lines_of(text) == lines_of_parts(parts),
        all_well_formed(parts),
    ensures
        parse_reply(text) matches Some(reply) && reply.explanation == join_lines(
            explanation_of_parts(parts),
        ) && reply.files == files_of_parts(parts) && reply.trailing == join_lines(
            trailing_of_parts(parts),
        ),
{
    lemma_parts(initial_state(), parts);
    let end = scan(initial_state(), lines_of_parts(parts));
    assert(end.explanation =~= explanation_of_parts(parts));
    assert(end.files =~= files_of_parts(parts));
    assert(end.trailing =~= trailing_of_parts(parts));
}

/// The state `s` with another trailing text.
pub open spec fn with_trailing(s: ScanState, trailing: Seq<Seq<char>>) -> ScanState {
    ScanState { trailing, ..s }
}

/// The trailing text only grows, and nothing else depends on it: from two
/// states that differ in their trailing text alone, the same lines lead to
/// two states that differ in their trailing text alone, and add the same
/// lines to it.
pub proof fn lemma_trailing_is_independent(
    s: ScanState,
    trailing: Seq<Seq<char>>,
    lines: Seq<Seq<char>>,
)
    ensures
        s.trailing.len() <= scan(s, lines).trailing.len(),
        scan(s, lines).trailing.take(s.trailing.len() as int) == s.trailing,
        scan(with_trailing(s, trailing), lines) == with_trailing(
            scan(s, lines),
            trailing + scan(s, lines).trailing.skip(s.trailing.len() as int),
        ),
    decreases lines.len(),
{
    let k = s.trailing.len() as int;
    if lines.len() == 0 {
        assert(s.trailing.take(k) =~= s.trailing);
        assert(trailing + s.trailing.skip(k) =~= trailing);
    } else {
        let line = lines[0];
        let next = step(s, line);
        let rest = lines.drop_first();
        let end = scan(next, rest);
        lemma_trailing_is_independent(next, next.trailing, rest);
        if next.trailing == s.trailing {
            assert(step(with_trailing(s, trailing), line) == with_trailing(next, trailing));
            lemma_trailing_is_independent(next, trailing, rest);
        } else {
            assert(next.trailing == s.trailing.push(line));
            assert(step(with_trailing(s, trailing), line) == with_trailing(
                next,
                trailing.push(line),
            ));
            lemma_trailing_is_independent(next, trailing.push(line), rest);
            assert(end.trailing.take(k + 1) == s.trailing.push(line));
            assert(end.trailing.take(k) =~= end.trailing.take(k + 1).take(k));
            assert(s.trailing.push(line).take(k) =~= s.trailing);
            assert(end.trailing[k] == end.trailing.take(k + 1)[k]);
            assert(trailing.push(line) + end.trailing.skip(k + 1) =~= trailing + end.trailing.skip(
                k,
            ));
        }
    }
}

/// A plain line outside every block goes to the trailing text, at its place,
/// and has no other effect: with the line or without it, the scanner ends
/// with the same explanation and the same files, and fails on the same
/// inputs.
pub proof fn lemma_plain_line_outside_blocks(
    s: ScanState,
    before: Seq<Seq<char>>,
    line: Seq<char>,
    after: Seq<Seq<char>>,
)
    requires
        kind_of(line) == LineKind::Text,
        scan(s, before).mode() == Mode::Normal,
    ensures
        ({
            let k = scan(s, before).trailing.len() as int;
            let with = scan(s, before + seq![line] + after);
            let without = scan(s, before + after);
            &&& k <= without.trailing.len()
            &&& with == with_trailing(
                without,
                without.trailing.take(k).push(line) + without.trailing.skip(k),
            )
        }),
{
    let mid = scan(s, before);
    let k = mid.trailing.len() as int;
    let without = scan(s, before + after);
    lemma_scan_concat(s, before, after);
    lemma_scan_concat(s, before, seq![line]);
    lemma_scan_one(mid, line);
    lemma_scan_concat(s, before + seq![line], after);
    assert(step(mid, line) == with_trailing(mid, mid.trailing.push(line)));
    lemma_trailing_is_independent(mid, mid.trailing.push(line), after);
    assert(without.trailing.take(k) == mid.trailing);
}

/// Containment: whatever the reply holds, a run writes to allowed paths only.
/// If a parsed path is not allowed, the run keeps the raw reply aside, ends
/// with the failure that names the first such path, and writes nothing.
pub proof fn lemma_containment(text: Seq<char>, allowed: Set<Seq<char>>)
    ensures
        writes_allowed_only(plan_of(text, allowed).actions(), allowed),
        parse_reply(text) matches Some(reply) ==> (verdict_of(text, allowed) is Approved
            <==> all_allowed(reply.files, allowed)),
        parse_reply(text) matches Some(reply) ==> (!all_allowed(reply.files, allowed) ==> {
            let i = first_disallowed(reply.files, allowed).unwrap();
            let path = reply.files[i].0;
            &&& 0 <= i < reply.files.len()
            &&& !allowed.contains(path)
            &&& all_allowed(reply.files.take(i), allowed)
            &&& plan_of(text, allowed).actions() == seq![
                ActionView::Quarantine(text),
                ActionView::Fail(ErrorView::FileError(disallowed_message(path))),
            ]
            &&& writes_nothing(plan_of(text, allowed).actions())
        }),
{
    let verdict = verdict_of(text, allowed);
    let actions = plan_of(text, allowed).actions();
    lemma_actions_of_verdict(verdict, text);
    match parse_reply(text) {
        None => {},
        Some(reply) => {
            lemma_first_disallowed(reply.files, allowed);
            match verdict {
                VerdictView::Approved { explanation, files } => {
                    let head = announcement(explanation);
                    assert forall|k: int| 0 <= k < actions.len() implies ((
                    #[trigger] actions[k]) matches ActionView::Write { path, content }
                        ==> allowed.contains(path)) by {
                        if head.len() <= k < head.len() + files.len() {
                            assert(actions[k] == writes(files)[k - head.len()]);
                            assert(allowed.contains(files[k - head.len()].0));
                        }
                    }
                },
                _ => {},
            }
        },
    }
}

/// A reply that ends inside a file section is malformed, and nothing is
/// written: if its lines are an opening line, met outside reasoning and
/// explanation, and after it no closing line, the run ends with the parse
/// error as its only action.
pub proof fn lemma_unclosed_reply_writes_nothing(
    text: Seq<char>,
    allowed: Set<Seq<char>>,
    before: Seq<Seq<char>>,
    open: Seq<char>,
    after: Seq<Seq<char>>,
)
    requires
        lines_of(text) == before + seq![open] + after,
        kind_of(open) == LineKind::FileOpen,
        !scan(initial_state(), before).thinking,
        !scan(initial_state(), before).explaining,
        none_of_kind(after, LineKind::FileClose),
    ensures
        verdict_of(text, allowed) is Malformed,
        plan_of(text, allowed).actions() == seq![
            ActionView::Fail(ErrorView::ParseError(truncated_message())),
        ],
        writes_nothing(plan_of(text, allowed).actions()),
{
    lemma_unclosed_reply_fails(text, before, open, after);
    lemma_actions_of_verdict(verdict_of(text, allowed), text);
}

/// A reply made of well-formed pieces, whose sections name allowed paths
/// only, is approved, and a run that storage does not fail writes exactly the
/// files of its sections: each once, in the order of the sections, with the
/// lines of the section joined by line feeds, after the explanation if there
/// is one, and nothing else.
pub proof fn lemma_well_formed_reply_is_written(
    text: Seq<char>,
    parts: Seq<Part>,
    allowed: Set<Seq<char>>,
)
    requires
        lines_of(text) == lines_of_parts(parts),
        all_well_formed(parts),
        all_allowed(files_of_parts(parts), allowed),
    ensures
        verdict_of(text, allowed) == (VerdictView::Approved {
            explanation: join_lines(explanation_of_parts(parts)),
            files: files_of_parts(parts),
        }),
        plan_of(text, allowed).actions() == announcement(join_lines(explanation_of_parts(parts)))
            + writes(files_of_parts(parts)) + seq![ActionView::Done],
{
    lemma_well_formed_reply(text, parts);
    lemma_first_disallowed(files_of_parts(parts), allowed);
    if let Some(i) = first_disallowed(files_of_parts(parts), allowed) {
        assert(allowed.contains(files_of_parts(parts)[i].0));
    }
    lemma_actions_of_verdict(verdict_of(text, allowed), text);
}

/// A path outside the allow-list is never touched: whatever the reply, and
/// whatever storage holds, after the run such a path holds what it held
/// before, or is absent as it was.
pub proof fn lemma_disallowed_path_is_untouched(
    text: Seq<char>,
    allowed: Set<Seq<char>>,
    store: Map<Seq<char>, Seq<char>>,
    path: Seq<char>,
)
    requires
        !allowed.contains(path),
    ensures
        effect(store, plan_of(text, allowed).actions()).contains_key(path) == store.contains_key(
            path,
        ),
        store.contains_key(path) ==> effect(store, plan_of(text, allowed).actions())[path]
            == store[path],
{
    lemma_containment(text, allowed);
    lemma_effect_elsewhere(store, plan_of(text, allowed).actions(), allowed, path);
}

/// A reply that is not approved leaves storage as it was: nothing is written
/// for a reply that ends inside a file section, nor for one that names a
/// path outside the allow-list.
pub proof fn lemma_refused_reply_changes_nothing(
    text: Seq<char>,
    allowed: Set<Seq<char>>,
    store: Map<Seq<char>, Seq<char>>,
)
    requires
        !(verdict_of(text, allowed) is Approved),
    ensures
        writes_nothing(plan_of(text, allowed).actions()),
        effect(store, plan_of(text, allowed).actions()) == store,
{
    lemma_actions_of_verdict(verdict_of(text, allowed), text);
    lemma_effect_without_writes(store, plan_of(text, allowed).actions());
}

/// The effect of a run on a reply made of well-formed pieces, whose sections
/// name allowed paths only: the files of the sections are stored, in order,
/// a later one replacing an earlier one at the same path, and no other path
/// is touched.
pub proof fn lemma_well_formed_reply_is_stored(
    text: Seq<char>,
    parts: Seq<Part>,
    allowed: Set<Seq<char>>,
    store: Map<Seq<char>, Seq<char>>,
)
    requires
        lines_of(text) == lines_of_parts(parts),
        all_well_formed(parts),
        all_allowed(files_of_parts(parts), allowed),
    ensures
        effect(store, plan_of(text, allowed).actions()) == stored(store, files_of_parts(parts)),
{
    lemma_well_formed_reply_is_written(text, parts, allowed);
    lemma_effect_of_run(store, join_lines(explanation_of_parts(parts)), files_of_parts(parts));
}

} // verus!
