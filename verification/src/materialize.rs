//! Carrying out a reply: which actions a run takes on storage and on the
//! terminal, and in which order.
//!
//! The materializer decides; its caller prints and writes. It hands out one
//! action at a time, so that a failed write ends the run where it stands and
//! leaves what was written before it.

use crate::app::{ErrorView, LlmpalError};
use crate::guard::{
    disallowed_message, examine_reply, verdict_of, AllowedFileSet, Verdict, VerdictView,
};
use crate::scan::files_view;
use vstd::prelude::*;
use vstd::string::StringExecFns;

verus! {

/// What the caller is to do next.
#[derive(Debug, Clone, PartialEq, Eq)]
pub enum Action {
    /// Show the explanation to the user.
    Print(String),
    /// Write `content` to `path`, replacing what is there.
    Write { path: String, content: String },
    /// Keep the raw reply aside, in a file of its own.
    Quarantine(String),
    /// End the run with this error.
    Fail(LlmpalError),
    /// End the run: nothing is left to do.
    Done,
}

/// An action as a mathematical value.
pub enum ActionView {
    Print(Seq<char>),
    Write { path: Seq<char>, content: Seq<char> },
    Quarantine(Seq<char>),
    Fail(ErrorView),
    Done,
}

impl View for Action {
    type V = ActionView;

    open spec fn view(&self) -> ActionView {
        match self {
            Action::Print(text) => ActionView::Print(text@),
            Action::Write { path, content } => ActionView::Write {
                path: path@,
                content: content@,
            },
            Action::Quarantine(raw) => ActionView::Quarantine(raw@),
            Action::Fail(e) => ActionView::Fail(e@),
            Action::Done => ActionView::Done,
        }
    }
}

impl ActionView {
    /// The action ends the run.
    pub open spec fn is_last(self) -> bool {
        self is Done || self is Fail
    }
}

/// The state of the materializer between two actions.
pub enum Plan {
    /// An approved reply is carried out.
    Carry {
        explanation: Seq<char>,
        files: Seq<(Seq<char>, Seq<char>)>,
        /// The explanation has been dealt with.
        announced: bool,
        /// How many files have been handed out.
        next: nat,
    },
    /// A reply that names the path `path`, which is not allowed.
    Reject {
        raw: Seq<char>,
        path: Seq<char>,
        /// The raw reply has been handed out.
        kept: bool,
    },
    /// A reply that ends inside a file section.
    Malformed { message: Seq<char> },
    /// A write that storage refused has ended the run.
    Broken { message: Seq<char> },
}

impl Plan {
    /// How many actions are left before the last, at most.
    pub open spec fn left(self) -> nat {
        match self {
            Plan::Carry { explanation, files, announced, next } => ((if announced {
                0int
            } else {
                1int
            }) + if next <= files.len() {
                files.len() - next
            } else {
                0int
            }) as nat,
            Plan::Reject { raw, path, kept } => if kept {
                0
            } else {
                1
            },
            Plan::Malformed { message } => 0,
            Plan::Broken { message } => 0,
        }
    }

    /// The next action. Of an approved reply: the explanation once, if it is
    /// not empty; then each file in order; then `Done`. Of a rejected reply:
    /// the raw reply to keep aside, then the failure that names the path. Of
    /// a malformed reply: the failure. After a write that storage refused:
    /// the failure, and no further write.
    pub open spec fn action(self) -> ActionView {
        match self {
            Plan::Carry { explanation, files, announced, next } => {
                if !announced && explanation.len() > 0 {
                    ActionView::Print(explanation)
                } else if next < files.len() {
                    ActionView::Write { path: files[next as int].0, content: files[next as int].1 }
                } else {
                    ActionView::Done
                }
            },
            Plan::Reject { raw, path, kept } => {
                if !kept {
                    ActionView::Quarantine(raw)
                } else {
                    ActionView::Fail(ErrorView::FileError(disallowed_message(path)))
                }
            },
            Plan::Malformed { message } => ActionView::Fail(ErrorView::ParseError(message)),
            Plan::Broken { message } => ActionView::Fail(ErrorView::FileError(message)),
        }
    }

    /// The state after the next action.
    pub open spec fn advance(self) -> Plan {
        match self {
            Plan::Carry { explanation, files, announced, next } => {
                if !announced && explanation.len() > 0 {
                    Plan::Carry { explanation, files, announced: true, next }
                } else if next < files.len() {
                    Plan::Carry { explanation, files, announced: true, next: next + 1 }
                } else {
                    Plan::Carry { explanation, files, announced: true, next }
                }
            },
            Plan::Reject { raw, path, kept } => Plan::Reject { raw, path, kept: true },
            Plan::Malformed { message } => self,
            Plan::Broken { message } => self,
        }
    }

    /// All the actions from here on, the last included.
    pub open spec fn actions(self) -> Seq<ActionView>
        decreases self.left(),
    {
        if self.action().is_last() {
            seq![self.action()]
        } else {
            seq![self.action()] + self.advance().actions()
        }
    }
}

/// The state before the first action of an approved reply.
pub open spec fn start(explanation: Seq<char>, files: Seq<(Seq<char>, Seq<char>)>) -> Plan {
    Plan::Carry { explanation, files, announced: false, next: 0 }
}

/// The state before the first action after the verdict `verdict` on the
/// reply `raw`.
pub open spec fn plan_of_verdict(verdict: VerdictView, raw: Seq<char>) -> Plan {
    match verdict {
        VerdictView::Approved { explanation, files } => start(explanation, files),
        VerdictView::Rejected { path } => Plan::Reject { raw, path, kept: false },
        VerdictView::Malformed { message } => Plan::Malformed { message },
    }
}

/// The state before the first action on the reply `text` under the
/// allow-list `allowed`.
pub open spec fn plan_of(text: Seq<char>, allowed: Set<Seq<char>>) -> Plan {
    plan_of_verdict(verdict_of(text, allowed), text)
}

/// One write for each file, in order.
pub open spec fn writes(files: Seq<(Seq<char>, Seq<char>)>) -> Seq<ActionView> {
    Seq::new(files.len(), |i: int| ActionView::Write { path: files[i].0, content: files[i].1 })
}

/// The explanation as an action: none where it is empty.
pub open spec fn announcement(explanation: Seq<char>) -> Seq<ActionView> {
    if explanation.len() > 0 {
        seq![ActionView::Print(explanation)]
    } else {
        Seq::empty()
    }
}

/// The actions of a run after the verdict `verdict` on the reply `raw`, if
/// storage does not fail.
pub open spec fn actions_after(verdict: VerdictView, raw: Seq<char>) -> Seq<ActionView> {
    match verdict {
        VerdictView::Approved { explanation, files } => announcement(explanation) + writes(files)
            + seq![ActionView::Done],
        VerdictView::Rejected { path } => seq![
            ActionView::Quarantine(raw),
            ActionView::Fail(ErrorView::FileError(disallowed_message(path))),
        ],
        VerdictView::Malformed { message } => seq![
            ActionView::Fail(ErrorView::ParseError(message)),
        ],
    }
}

/// The message of the failure after a write that storage refused.
pub open spec fn write_failure_message(path: Seq<char>, cause: Seq<char>) -> Seq<char> {
    "writing file '"@ + path + "': "@ + cause
}

/// Once the explanation is dealt with, what is left is one write for each
/// file not yet handed out, in order, and `Done`.
pub proof fn lemma_actions_after_announcement(
    explanation: Seq<char>,
    files: Seq<(Seq<char>, Seq<char>)>,
    next: nat,
)
    requires
        next <= files.len(),
    ensures
        (Plan::Carry { explanation, files, announced: true, next }).actions() == writes(
            files.skip(next as int),
        ) + seq![ActionView::Done],
    decreases files.len() - next,
{
    let p = Plan::Carry { explanation, files, announced: true, next };
    let rest = files.skip(next as int);
    if next < files.len() {
        lemma_actions_after_announcement(explanation, files, next + 1);
        let tail = files.skip(next as int + 1);
        assert(writes(rest) =~= seq![p.action()] + writes(tail));
        assert(seq![p.action()] + (writes(tail) + seq![ActionView::Done]) =~= writes(rest)
            + seq![ActionView::Done]);
    } else {
        assert(writes(rest) =~= Seq::empty());
        assert(writes(rest) + seq![ActionView::Done] =~= seq![ActionView::Done]);
    }
}

/// A run on an approved reply that storage does not fail prints the
/// explanation once, if it is not empty, before any write; then writes each
/// file once, in the order of the list, with its content as it is; and does
/// nothing else.
pub proof fn lemma_actions_of_run(explanation: Seq<char>, files: Seq<(Seq<char>, Seq<char>)>)
    ensures
        start(explanation, files).actions() == announcement(explanation) + writes(files) + seq![
            ActionView::Done,
        ],
{
    let p = start(explanation, files);
    assert(files.skip(0) =~= files);
    lemma_actions_after_announcement(explanation, files, 0);
    let q = Plan::Carry { explanation, files, announced: true, next: 0 };
    if explanation.len() > 0 {
        assert(p.advance() == q);
        assert(seq![ActionView::Print(explanation)] + (writes(files) + seq![ActionView::Done])
            =~= seq![ActionView::Print(explanation)] + writes(files) + seq![ActionView::Done]);
    } else {
        assert(p.action() == q.action());
        assert(p.advance() == q.advance());
        assert(p.actions() == q.actions());
        assert(Seq::<ActionView>::empty() + writes(files) =~= writes(files));
    }
}

/// What a run does with a reply: it prints the explanation and writes the
/// files where the reply is approved; it keeps the raw reply aside and
/// fails, without a write, where the reply is rejected; it fails at once
/// where the reply is malformed.
pub proof fn lemma_actions_of_verdict(verdict: VerdictView, raw: Seq<char>)
    ensures
        plan_of_verdict(verdict, raw).actions() == actions_after(verdict, raw),
{
    match verdict {
        VerdictView::Approved { explanation, files } => {
            lemma_actions_of_run(explanation, files);
        },
        VerdictView::Rejected { path } => {
            let p = plan_of_verdict(verdict, raw);
            let q = p.advance();
            assert(q.actions() =~= seq![q.action()]);
            assert(p.actions() =~= seq![p.action()] + q.actions());
            assert(p.actions() =~= actions_after(verdict, raw));
        },
        VerdictView::Malformed { message } => {
            let p = plan_of_verdict(verdict, raw);
            assert(p.actions() =~= seq![p.action()]);
        },
    }
}

/// A write that storage refused is fatal at once: the run ends with the
/// failure, and no write follows it. What was written before stays.
pub proof fn lemma_actions_after_failure(message: Seq<char>)
    ensures
        (Plan::Broken { message }).actions() == seq![
            ActionView::Fail(ErrorView::FileError(message)),
        ],
{
}

/// Storage after the files of `files` were written to `store`, in order,
/// each write replacing what was at its path.
pub open spec fn stored(
    store: Map<Seq<char>, Seq<char>>,
    files: Seq<(Seq<char>, Seq<char>)>,
) -> Map<Seq<char>, Seq<char>>
    decreases files.len(),
{
    if files.len() == 0 {
        store
    } else {
        stored(store, files.drop_last()).insert(files.last().0, files.last().1)
    }
}

/// `i` is the last index at which `files` names `path`.
pub open spec fn is_last_write(files: Seq<(Seq<char>, Seq<char>)>, path: Seq<char>, i: int) -> bool {
    &&& 0 <= i < files.len()
    &&& files[i].0 == path
    &&& forall|j: int| i < j < files.len() ==> (#[trigger] files[j]).0 != path
}

/// Writing touches the paths of the files and no other: a path that no file
/// names holds what it held, or is absent as it was.
pub proof fn lemma_stored_elsewhere(
    store: Map<Seq<char>, Seq<char>>,
    files: Seq<(Seq<char>, Seq<char>)>,
    path: Seq<char>,
)
    requires
        forall|j: int| 0 <= j < files.len() ==> (#[trigger] files[j]).0 != path,
    ensures
        stored(store, files).contains_key(path) == store.contains_key(path),
        store.contains_key(path) ==> stored(store, files)[path] == store[path],
    decreases files.len(),
{
    if files.len() > 0 {
        let init = files.drop_last();
        assert forall|j: int| 0 <= j < init.len() implies (#[trigger] init[j]).0 != path by {
            assert(init[j] == files[j]);
        }
        lemma_stored_elsewhere(store, init, path);
        assert(files.last() == files[files.len() - 1]);
    }
}

/// Where a path recurs, the later file supersedes the earlier: after the
/// writes, a path holds the content of the last file that names it.
pub proof fn lemma_stored_last(
    store: Map<Seq<char>, Seq<char>>,
    files: Seq<(Seq<char>, Seq<char>)>,
    path: Seq<char>,
    i: int,
)
    requires
        is_last_write(files, path, i),
    ensures
        stored(store, files).contains_key(path),
        stored(store, files)[path] == files[i].1,
    decreases files.len(),
{
    let init = files.drop_last();
    if i == files.len() - 1 {
    } else {
        assert(files.last() == files[files.len() - 1]);
        assert(files.last().0 != path);
        assert forall|j: int| i < j < init.len() implies (#[trigger] init[j]).0 != path by {
            assert(init[j] == files[j]);
        }
        assert(init[i] == files[i]);
        lemma_stored_last(store, init, path, i);
    }
}

/// Storage after the caller has carried out `actions` on `store`, in
/// order. Only a write changes what storage holds at the paths that a reply
/// can name; the raw reply that is kept aside goes to a file of its own.
pub open spec fn effect(store: Map<Seq<char>, Seq<char>>, actions: Seq<ActionView>) -> Map<
    Seq<char>,
    Seq<char>,
>
    decreases actions.len(),
{
    if actions.len() == 0 {
        store
    } else {
        let before = effect(store, actions.drop_last());
        match actions.last() {
            ActionView::Write { path, content } => before.insert(path, content),
            _ => before,
        }
    }
}

/// No action of `actions` is a write.
pub open spec fn writes_nothing(actions: Seq<ActionView>) -> bool {
    forall|k: int| 0 <= k < actions.len() ==> !((#[trigger] actions[k]) is Write)
}

/// Every write among `actions` goes to a path of `allowed`.
pub open spec fn writes_allowed_only(actions: Seq<ActionView>, allowed: Set<Seq<char>>) -> bool {
    forall|k: int|
        0 <= k < actions.len() ==> ((#[trigger] actions[k]) matches ActionView::Write {
            path,
            content,
        } ==> allowed.contains(path))
}

/// Actions without a write leave storage as it was.
pub proof fn lemma_effect_without_writes(
    store: Map<Seq<char>, Seq<char>>,
    actions: Seq<ActionView>,
)
    requires
        writes_nothing(actions),
    ensures
        effect(store, actions) == store,
    decreases actions.len(),
{
    if actions.len() > 0 {
        let init = actions.drop_last();
        assert forall|k: int| 0 <= k < init.len() implies !((#[trigger] init[k]) is Write) by {
            assert(init[k] == actions[k]);
        }
        lemma_effect_without_writes(store, init);
        assert(actions.last() == actions[actions.len() - 1]);
    }
}

/// The actions before the writes and after them change nothing: the effect
/// of a run on an approved reply is that its files are stored, in order.
pub proof fn lemma_effect_of_run(
    store: Map<Seq<char>, Seq<char>>,
    explanation: Seq<char>,
    files: Seq<(Seq<char>, Seq<char>)>,
)
    ensures
        effect(store, announcement(explanation) + writes(files) + seq![ActionView::Done])
            == stored(store, files),
{
    let head = announcement(explanation);
    let all = head + writes(files) + seq![ActionView::Done];
    assert(all.drop_last() =~= head + writes(files));
    lemma_effect_of_writes(store, head, files);
}

/// The effect of writes after actions that write nothing.
proof fn lemma_effect_of_writes(
    store: Map<Seq<char>, Seq<char>>,
    head: Seq<ActionView>,
    files: Seq<(Seq<char>, Seq<char>)>,
)
    requires
        writes_nothing(head),
    ensures
        effect(store, head + writes(files)) == stored(store, files),
    decreases files.len(),
{
    if files.len() == 0 {
        assert(head + writes(files) =~= head);
        lemma_effect_without_writes(store, head);
    } else {
        let init = files.drop_last();
        let all = head + writes(files);
        assert(all.drop_last() =~= head + writes(init));
        assert(all.last() == writes(files)[files.len() - 1]);
        lemma_effect_of_writes(store, head, init);
    }
}

/// Writes to allowed paths leave every other path as it was.
pub proof fn lemma_effect_elsewhere(
    store: Map<Seq<char>, Seq<char>>,
    actions: Seq<ActionView>,
    allowed: Set<Seq<char>>,
    path: Seq<char>,
)
    requires
        writes_allowed_only(actions, allowed),
        !allowed.contains(path),
    ensures
        effect(store, actions).contains_key(path) == store.contains_key(path),
        store.contains_key(path) ==> effect(store, actions)[path] == store[path],
    decreases actions.len(),
{
    if actions.len() > 0 {
        let init = actions.drop_last();
        assert forall|k: int| 0 <= k < init.len() implies ((#[trigger] init[k]) matches ActionView::Write {
            path,
            content,
        } ==> allowed.contains(path)) by {
            assert(init[k] == actions[k]);
        }
        lemma_effect_elsewhere(store, init, allowed, path);
        assert(actions.last() == actions[actions.len() - 1]);
    }
}

/// Hands out the actions of a run, one at a time.
pub struct Materializer {
    explanation: String,
    files: Vec<(String, String)>,
    announced: bool,
    next: usize,
    /// The verdict, where it is not an approval; then `explanation` holds
    /// the raw reply.
    refusal: Option<Verdict>,
    kept: bool,
    /// The message of the write that failed.
    broken: Option<String>,
}

impl View for Materializer {
    type V = Plan;

    closed spec fn view(&self) -> Plan {
        match self.broken {
            Some(message) => Plan::Broken { message: message@ },
            None => match self.refusal {
                Some(Verdict::Rejected { path }) => Plan::Reject {
                    raw: self.explanation@,
                    path: path@,
                    kept: self.kept,
                },
                Some(Verdict::Malformed { message }) => Plan::Malformed { message: message@ },
                _ => Plan::Carry {
                    explanation: self.explanation@,
                    files: files_view(self.files@),
                    announced: self.announced,
                    next: self.next as nat,
                },
            },
        }
    }
}

impl Materializer {
    /// A materializer for an approved reply.
    pub fn new(explanation: String, files: Vec<(String, String)>) -> (m: Self)
        ensures
            m@ == start(explanation@, files_view(files@)),
    {
        Materializer {
            explanation,
            files,
            announced: false,
            next: 0,
            refusal: None,
            kept: false,
            broken: None,
        }
    }

    /// A materializer for the reply `raw`, after the verdict on it.
    pub fn after(verdict: Verdict, raw: &str) -> (m: Self)
        ensures
            m@ == plan_of_verdict(verdict@, raw@),
    {
        match verdict {
            Verdict::Approved { explanation, files } => Self::new(explanation, files),
            refusal => Materializer {
                explanation: String::from_str(raw),
                files: Vec::new(),
                announced: false,
                next: 0,
                refusal: Some(refusal),
                kept: false,
                broken: None,
            },
        }
    }

    /// A materializer for the reply `resp_text` under the allow-list
    /// `allowed`.
    pub fn for_reply(resp_text: &str, allowed: &AllowedFileSet) -> (m: Self)
        ensures
            m@ == plan_of(resp_text@, allowed@),
    {
        Self::after(examine_reply(resp_text, allowed), resp_text)
    }

    /// The next action. The caller carries it out before asking again; it
    /// stops after `Done` and `Fail`, and at the first write that fails.
    pub fn next_action(&mut self) -> (action: Action)
        ensures
            action@ == old(self)@.action(),
            final(self)@ == old(self)@.advance(),
    {
        match &self.broken {
            Some(message) => {
                return Action::Fail(LlmpalError::FileError(message.clone()));
            },
            None => {},
        }
        match &self.refusal {
            Some(Verdict::Rejected { path }) => {
                if !self.kept {
                    let raw = self.explanation.clone();
                    self.kept = true;
                    return Action::Quarantine(raw);
                }
                let mut m = String::from_str("attempting to write to disallowed file: ");
                m.append(path.as_str());
                return Action::Fail(LlmpalError::FileError(m));
            },
            Some(Verdict::Malformed { message }) => {
                return Action::Fail(LlmpalError::ParseError(message.clone()));
            },
            _ => {},
        }
        if !self.announced && !self.explanation.as_str().is_empty() {
            self.announced = true;
            return Action::Print(self.explanation.clone());
        }
        self.announced = true;
        if self.next < self.files.len() {
            let path = self.files[self.next].0.clone();
            let content = self.files[self.next].1.clone();
            self.next = self.next + 1;
            Action::Write { path, content }
        } else {
            Action::Done
        }
    }

    /// Takes note that the write to `path` failed, and gives the error with
    /// which the run ends. From here on the only action is this failure.
    pub fn write_failed(&mut self, path: &str, cause: &str) -> (e: LlmpalError)
        ensures
            e@ == ErrorView::FileError(write_failure_message(path@, cause@)),
            final(self)@ == (Plan::Broken { message: write_failure_message(path@, cause@) }),
    {
        let mut m = String::from_str("writing file '");
        m.append(path);
        m.append("': ");
        m.append(cause);
        self.broken = Some(m.clone());
        LlmpalError::FileError(m)
    }
}

} // verus!
