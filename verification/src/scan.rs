//! The line scanner: one forward pass over the lines of a reply.
//!
//! The scanner is a state machine. `step` is its transition function on
//! mathematical values, `Scanner` the executable machine that follows it line
//! by line.

use crate::grammar::{kind_of, path_of, LineKind, Sentinels};
use crate::text::{join_lines, lemma_join_push, string_of, strings_view};
use vstd::prelude::*;
use vstd::string::StringExecFns;

verus! {

/// Where the next plain line goes.
#[derive(Clone, Copy, Debug, PartialEq, Eq, Structural)]
pub enum Mode {
    /// Outside every block: plain lines are trailing text.
    Normal,
    /// Inside a block of reasoning: lines are thrown away.
    InThink,
    /// Inside the explanation.
    InExplain,
    /// Inside a file section.
    InFile,
}

/// The state of the scanner between two lines.
pub struct ScanState {
    /// A block of reasoning is open.
    pub thinking: bool,
    /// The explanation is open.
    pub explaining: bool,
    /// A file section is open.
    pub file_open: bool,
    /// The path of the file section opened last.
    pub path: Seq<char>,
    /// The lines of that section so far.
    pub body: Seq<Seq<char>>,
    /// The lines of the explanation so far.
    pub explanation: Seq<Seq<char>>,
    /// The file sections closed so far, in the order of their closing lines.
    pub files: Seq<(Seq<char>, Seq<char>)>,
    /// The plain lines met outside every block so far.
    pub trailing: Seq<Seq<char>>,
}

/// What a reply holds.
pub struct Reply {
    pub explanation: Seq<char>,
    pub files: Seq<(Seq<char>, Seq<char>)>,
    pub trailing: Seq<char>,
}

impl ScanState {
    /// Blocks nest: reasoning hides the explanation, which hides a file
    /// section.
    pub open spec fn mode(self) -> Mode {
        if self.thinking {
            Mode::InThink
        } else if self.explaining {
            Mode::InExplain
        } else if self.file_open {
            Mode::InFile
        } else {
            Mode::Normal
        }
    }
}

/// The state before the first line.
pub open spec fn initial_state() -> ScanState {
    ScanState {
        thinking: false,
        explaining: false,
        file_open: false,
        path: Seq::empty(),
        body: Seq::empty(),
        explanation: Seq::empty(),
        files: Seq::empty(),
        trailing: Seq::empty(),
    }
}

/// The files after a closing line: the section is kept unless its path is
/// empty.
pub open spec fn files_after_close(s: ScanState) -> Seq<(Seq<char>, Seq<char>)> {
    if s.path.len() > 0 {
        s.files.push((s.path, join_lines(s.body)))
    } else {
        s.files
    }
}

/// One transition: the state after `line`.
pub open spec fn step(s: ScanState, line: Seq<char>) -> ScanState {
    let kind = kind_of(line);
    if kind == LineKind::ThinkOpen {
        ScanState { thinking: true, ..s }
    } else if kind == LineKind::ThinkClose {
        ScanState { thinking: false, ..s }
    } else if s.thinking {
        s
    } else if kind == LineKind::ExplainOpen {
        ScanState { explaining: true, ..s }
    } else if kind == LineKind::ExplainClose {
        ScanState { explaining: false, ..s }
    } else if s.explaining {
        ScanState { explanation: s.explanation.push(line), ..s }
    } else if kind == LineKind::FileOpen {
        ScanState { file_open: true, path: path_of(line), body: Seq::empty(), ..s }
    } else if kind == LineKind::FileClose {
        ScanState { file_open: false, files: files_after_close(s), ..s }
    } else if s.file_open {
        ScanState { body: s.body.push(line), ..s }
    } else {
        ScanState { trailing: s.trailing.push(line), ..s }
    }
}

/// The state after all of `lines`, taken in order.
pub open spec fn scan(s: ScanState, lines: Seq<Seq<char>>) -> ScanState
    decreases lines.len(),
{
    if lines.len() == 0 {
        s
    } else {
        scan(step(s, lines[0]), lines.drop_first())
    }
}

/// What the scanner hands out at the end of the input: nothing if a file
/// section is still open.
pub open spec fn outcome(s: ScanState) -> Option<Reply> {
    if s.file_open {
        None
    } else {
        Some(
            Reply {
                explanation: join_lines(s.explanation),
                files: s.files,
                trailing: join_lines(s.trailing),
            },
        )
    }
}

/// The views of a list of pairs of path and content.
pub open spec fn files_view(v: Seq<(String, String)>) -> Seq<(Seq<char>, Seq<char>)> {
    v.map_values(|p: (String, String)| (p.0@, p.1@))
}

/// The message of the failure when the input ends inside a file section.
pub open spec fn truncated_message() -> Seq<char> {
    "Error: unexpected end of response while parsing a file section"@
}

/// The lines joined by single line feeds.
pub fn join(lines: &Vec<String>) -> (r: String)
    ensures
        r@ == join_lines(strings_view(lines@)),
{
    let mut r = String::new();
    let n: usize = lines.len();
    let mut i: usize = 0;
    while i < n
        invariant
            n == lines@.len(),
            i <= n,
            r@ == join_lines(strings_view(lines@).take(i as int)),
        decreases n - i,
    {
        proof {
            let done = strings_view(lines@).take(i as int);
            lemma_join_push(done, lines@[i as int]@);
            assert(strings_view(lines@).take(i + 1) =~= done.push(lines@[i as int]@));
        }
        if i > 0 {
            r.push('\n');
        }
        r.append(lines[i].as_str());
        i = i + 1;
    }
    assert(strings_view(lines@).take(n as int) =~= strings_view(lines@));
    r
}

/// The executable scanner.
pub struct Scanner {
    sentinels: Sentinels,
    thinking: bool,
    explaining: bool,
    file_open: bool,
    path: String,
    body: Vec<String>,
    explanation: Vec<String>,
    files: Vec<(String, String)>,
    trailing: Vec<String>,
}

impl View for Scanner {
    type V = ScanState;

    closed spec fn view(&self) -> ScanState {
        ScanState {
            thinking: self.thinking,
            explaining: self.explaining,
            file_open: self.file_open,
            path: self.path@,
            body: strings_view(self.body@),
            explanation: strings_view(self.explanation@),
            files: files_view(self.files@),
            trailing: strings_view(self.trailing@),
        }
    }
}

impl Scanner {
    /// A scanner before the first line.
    pub fn new() -> (s: Self)
        ensures
            s@ == initial_state(),
    {
        let s = Scanner {
            sentinels: Sentinels::new(),
            thinking: false,
            explaining: false,
            file_open: false,
            path: String::new(),
            body: Vec::new(),
            explanation: Vec::new(),
            files: Vec::new(),
            trailing: Vec::new(),
        };
        proof {
            assert(strings_view(s.body@) =~= Seq::empty());
            assert(strings_view(s.explanation@) =~= Seq::empty());
            assert(strings_view(s.trailing@) =~= Seq::empty());
            assert(files_view(s.files@) =~= Seq::empty());
        }
        s
    }

    /// Where the next plain line would go.
    pub fn mode(&self) -> (m: Mode)
        ensures
            m == self@.mode(),
    {
        if self.thinking {
            Mode::InThink
        } else if self.explaining {
            Mode::InExplain
        } else if self.file_open {
            Mode::InFile
        } else {
            Mode::Normal
        }
    }

    /// Takes one line.
    pub fn feed(&mut self, line: &[char])
        ensures
            final(self)@ == step(old(self)@, line@),
    {
        let kind = self.sentinels.kind_of(line);
        match kind {
            LineKind::ThinkOpen => {
                self.thinking = true;
                return ;
            },
            LineKind::ThinkClose => {
                self.thinking = false;
                return ;
            },
            _ => {},
        }
        if self.thinking {
            return ;
        }
        match kind {
            LineKind::ExplainOpen => {
                self.explaining = true;
                return ;
            },
            LineKind::ExplainClose => {
                self.explaining = false;
                return ;
            },
            _ => {},
        }
        if self.explaining {
            let text = string_of(line);
            proof {
                assert(strings_view(self.explanation@.push(text)) =~= strings_view(
                    self.explanation@,
                ).push(line@));
            }
            self.explanation.push(text);
            return ;
        }
        match kind {
            LineKind::FileOpen => {
                self.file_open = true;
                self.path = self.sentinels.path_of(line);
                self.body = Vec::new();
                proof {
                    assert(strings_view(self.body@) =~= Seq::empty());
                }
            },
            LineKind::FileClose => {
                self.file_open = false;
                if !self.path.as_str().is_empty() {
                    let content = join(&self.body);
                    let entry = (self.path.clone(), content);
                    proof {
                        assert(files_view(self.files@.push(entry)) =~= files_view(self.files@).push(
                            (entry.0@, entry.1@),
                        ));
                    }
                    self.files.push(entry);
                }
            },
            _ => {
                let text = string_of(line);
                if self.file_open {
                    proof {
                        assert(strings_view(self.body@.push(text)) =~= strings_view(self.body@).push(
                            line@,
                        ));
                    }
                    self.body.push(text);
                } else {
                    proof {
                        assert(strings_view(self.trailing@.push(text)) =~= strings_view(
                            self.trailing@,
                        ).push(line@));
                    }
                    self.trailing.push(text);
                }
            },
        }
    }

    /// Ends the input. Fails if a file section is still open.
    pub fn finish(self) -> (r: Result<(String, Vec<(String, String)>, String), String>)
        ensures
            match outcome(self@) {
                Some(reply) => r matches Ok(t) && t.0@ == reply.explanation && files_view(t.1@)
                    == reply.files && t.2@ == reply.trailing,
                None => r matches Err(e) && e@ == truncated_message(),
            },
    {
        if self.file_open {
            return Err(
                String::from_str("Error: unexpected end of response while parsing a file section"),
            );
        }
        let explanation = join(&self.explanation);
        let trailing = join(&self.trailing);
        Ok((explanation, self.files, trailing))
    }
}

} // verus!
