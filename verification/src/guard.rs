//! The allow-list, and the guard between a parsed reply and storage.

use crate::app::LlmpalError;
use crate::llm::{parse_llm_response, parse_reply};
use crate::scan::{files_view, truncated_message};
use crate::text::strings_view;
use vstd::prelude::*;
use vstd::string::StringExecFns;

verus! {

/// The elements of `s` in the order of their first occurrence, each once.
pub open spec fn first_occurrences(s: Seq<Seq<char>>) -> Seq<Seq<char>>
    decreases s.len(),
{
    if s.len() == 0 {
        Seq::empty()
    } else {
        let before = first_occurrences(s.drop_last());
        if before.contains(s.last()) {
            before
        } else {
            before.push(s.last())
        }
    }
}

/// The first occurrences of a sequence hold what the sequence holds, and
/// nothing twice.
pub proof fn lemma_first_occurrences(s: Seq<Seq<char>>)
    ensures
        first_occurrences(s).to_set() == s.to_set(),
        first_occurrences(s).no_duplicates(),
    decreases s.len(),
{
    if s.len() == 0 {
        assert(first_occurrences(s).to_set() =~= s.to_set());
    } else {
        let init = s.drop_last();
        let before = first_occurrences(init);
        lemma_first_occurrences(init);
        assert(s =~= init.push(s.last()));
        init.lemma_push_to_set_commute(s.last());
        if before.contains(s.last()) {
            assert(before.to_set().contains(s.last()));
            assert(init.to_set().insert(s.last()) =~= init.to_set());
        } else {
            before.lemma_push_to_set_commute(s.last());
        }
    }
}

/// The paths that the model may write: exact strings, fixed before the
/// request is sent. A set is built once, from a list of paths, and is not
/// changed afterwards.
pub struct AllowedFileSet {
    paths: Vec<String>,
}

impl View for AllowedFileSet {
    type V = Set<Seq<char>>;

    /// The set of the allowed paths.
    closed spec fn view(&self) -> Set<Seq<char>> {
        strings_view(self.paths@).to_set()
    }
}

impl AllowedFileSet {
    /// The allowed paths in the order in which they were first inserted.
    pub closed spec fn order(&self) -> Seq<Seq<char>> {
        strings_view(self.paths@)
    }

    /// No path is held twice.
    pub open spec fn wf(&self) -> bool {
        self.order().no_duplicates()
    }

    /// The set is the set of the paths in `order`.
    pub proof fn lemma_view_is_order(&self)
        ensures
            self@ == self.order().to_set(),
    {
    }

    /// The set of the paths in `paths`.
    pub fn from_paths(paths: &[String]) -> (s: Self)
        ensures
            s.wf(),
            s@ == strings_view(paths@).to_set(),
            s.order() == first_occurrences(strings_view(paths@)),
    {
        let mut s = Self::new();
        let ghost all = strings_view(paths@);
        let n: usize = paths.len();
        let mut i: usize = 0;
        while i < n
            invariant
                n == paths@.len(),
                all == strings_view(paths@),
                i <= n,
                s.wf(),
                s@ == s.order().to_set(),
                s.order() == first_occurrences(all.take(i as int)),
            decreases n - i,
        {
            proof {
                assert(all.take(i + 1).drop_last() =~= all.take(i as int));
                assert(all.take(i + 1).last() == paths@[i as int]@);
            }
            s.insert(paths[i].clone());
            i = i + 1;
        }
        proof {
            assert(all.take(n as int) =~= all);
            lemma_first_occurrences(all);
        }
        s
    }

    /// The empty set.
    pub fn new() -> (s: Self)
        ensures
            s.wf(),
            s.order() == Seq::<Seq<char>>::empty(),
            s@ == Set::<Seq<char>>::empty(),
    {
        let s = AllowedFileSet { paths: Vec::new() };
        proof {
            assert(strings_view(s.paths@) =~= Seq::empty());
            assert(s@ =~= Set::empty());
        }
        s
    }

    /// Whether `path` is allowed: an exact match, with no normalising.
    pub fn contains(&self, path: &String) -> (b: bool)
        ensures
            b == self@.contains(path@),
    {
        let n: usize = self.paths.len();
        let mut i: usize = 0;
        while i < n
            invariant
                n == self.paths@.len(),
                i <= n,
                forall|j: int| 0 <= j < i ==> strings_view(self.paths@)[j] != path@,
            decreases n - i,
        {
            if self.paths[i] == *path {
                assert(strings_view(self.paths@)[i as int] == path@);
                return true;
            }
            i = i + 1;
        }
        false
    }

    /// Allows `path`. Says whether it was new.
    pub(crate) fn insert(&mut self, path: String) -> (fresh: bool)
        requires
            old(self).wf(),
        ensures
            final(self).wf(),
            fresh == !old(self)@.contains(path@),
            fresh == !old(self).order().contains(path@),
            final(self)@ == old(self)@.insert(path@),
            final(self)@ == final(self).order().to_set(),
            final(self).order() == if fresh {
                old(self).order().push(path@)
            } else {
                old(self).order()
            },
    {
        if self.contains(&path) {
            assert(self@.insert(path@) =~= self@);
            false
        } else {
            proof {
                let before = strings_view(self.paths@);
                assert(strings_view(self.paths@.push(path)) =~= before.push(path@));
                before.lemma_push_to_set_commute(path@);
                assert(!before.contains(path@));
            }
            self.paths.push(path);
            true
        }
    }

    /// How many paths are allowed.
    pub fn len(&self) -> (n: usize)
        ensures
            n == self.order().len(),
    {
        self.paths.len()
    }

    /// The allowed paths, in the order in which they were first inserted.
    pub fn as_slice(&self) -> (paths: &[String])
        ensures
            strings_view(paths@) == self.order(),
    {
        self.paths.as_slice()
    }
}

/// Every file of `files` has an allowed path.
pub open spec fn all_allowed(files: Seq<(Seq<char>, Seq<char>)>, allowed: Set<Seq<char>>) -> bool {
    forall|i: int| 0 <= i < files.len() ==> allowed.contains((#[trigger] files[i]).0)
}

/// The index of the first file whose path is not allowed.
pub open spec fn first_disallowed(
    files: Seq<(Seq<char>, Seq<char>)>,
    allowed: Set<Seq<char>>,
) -> Option<int>
    decreases files.len(),
{
    if files.len() == 0 {
        None
    } else if !allowed.contains(files[0].0) {
        Some(0)
    } else {
        match first_disallowed(files.drop_first(), allowed) {
            Some(i) => Some(i + 1),
            None => None,
        }
    }
}

/// `first_disallowed` finds the least index of a path that is not allowed,
/// and finds none exactly when every path is allowed.
pub proof fn lemma_first_disallowed(files: Seq<(Seq<char>, Seq<char>)>, allowed: Set<Seq<char>>)
    ensures
        match first_disallowed(files, allowed) {
            Some(i) => 0 <= i < files.len() && !allowed.contains(files[i].0) && all_allowed(
                files.take(i),
                allowed,
            ),
            None => all_allowed(files, allowed),
        },
    decreases files.len(),
{
    if files.len() == 0 {
    } else if !allowed.contains(files[0].0) {
    } else {
        let rest = files.drop_first();
        lemma_first_disallowed(rest, allowed);
        match first_disallowed(rest, allowed) {
            Some(i) => {
                assert(files[i + 1] == rest[i]);
                assert forall|j: int| 0 <= j < files.take(i + 1).len() implies allowed.contains(
                    (#[trigger] files.take(i + 1)[j]).0,
                ) by {
                    if j > 0 {
                        assert(files.take(i + 1)[j] == rest.take(i)[j - 1]);
                    }
                }
            },
            None => {
                assert forall|j: int| 0 <= j < files.len() implies allowed.contains(
                    (#[trigger] files[j]).0,
                ) by {
                    if j > 0 {
                        assert(files[j] == rest[j - 1]);
                    }
                }
            },
        }
    }
}

/// The least index of a path that is not allowed is the first.
pub proof fn lemma_first_disallowed_is(
    files: Seq<(Seq<char>, Seq<char>)>,
    allowed: Set<Seq<char>>,
    i: int,
)
    requires
        0 <= i <= files.len(),
        all_allowed(files.take(i), allowed),
        i < files.len() ==> !allowed.contains(files[i].0),
    ensures
        first_disallowed(files, allowed) == if i < files.len() {
            Some(i)
        } else {
            None
        },
    decreases files.len(),
{
    if files.len() == 0 {
    } else if i == 0 {
    } else {
        let rest = files.drop_first();
        assert(files.take(i)[0] == files[0]);
        assert forall|j: int| 0 <= j < rest.take(i - 1).len() implies allowed.contains(
            (#[trigger] rest.take(i - 1)[j]).0,
        ) by {
            assert(rest.take(i - 1)[j] == files.take(i)[j + 1]);
        }
        lemma_first_disallowed_is(rest, allowed, i - 1);
    }
}

/// The index of the first file of `files` whose path is not allowed. The
/// search ends at the first such file.
pub fn check_paths(files: &Vec<(String, String)>, allowed: &AllowedFileSet) -> (r: Option<usize>)
    ensures
        match r {
            Some(i) => i < files@.len() && first_disallowed(files_view(files@), allowed@) == Some(
                i as int,
            ),
            None => first_disallowed(files_view(files@), allowed@) is None,
        },
{
    let n: usize = files.len();
    let ghost all = files_view(files@);
    let mut i: usize = 0;
    while i < n
        invariant
            n == files@.len(),
            all == files_view(files@),
            i <= n,
            all_allowed(all.take(i as int), allowed@),
        decreases n - i,
    {
        if !allowed.contains(&files[i].0) {
            proof {
                lemma_first_disallowed_is(all, allowed@, i as int);
            }
            return Some(i);
        }
        proof {
            assert forall|j: int| 0 <= j < all.take(i + 1).len() implies allowed@.contains(
                (#[trigger] all.take(i + 1)[j]).0,
            ) by {
                if j < i {
                    assert(all.take(i + 1)[j] == all.take(i as int)[j]);
                }
            }
        }
        i = i + 1;
    }
    proof {
        lemma_first_disallowed_is(all, allowed@, n as int);
    }
    None
}

/// What is to be done with a reply.
#[derive(Debug, Clone, PartialEq, Eq)]
pub enum Verdict {
    /// The reply parses and every path is allowed: surface the explanation,
    /// then write the files in order.
    Approved { explanation: String, files: Vec<(String, String)> },
    /// The reply names `path`, which is not allowed: write nothing, keep the
    /// raw reply aside, and fail.
    Rejected { path: String },
    /// The reply ends inside a file section: write nothing, and fail.
    Malformed { message: String },
}

/// A verdict as a mathematical value.
pub enum VerdictView {
    Approved { explanation: Seq<char>, files: Seq<(Seq<char>, Seq<char>)> },
    Rejected { path: Seq<char> },
    Malformed { message: Seq<char> },
}

impl View for Verdict {
    type V = VerdictView;

    open spec fn view(&self) -> VerdictView {
        match self {
            Verdict::Approved { explanation, files } => VerdictView::Approved {
                explanation: explanation@,
                files: files_view(files@),
            },
            Verdict::Rejected { path } => VerdictView::Rejected { path: path@ },
            Verdict::Malformed { message } => VerdictView::Malformed { message: message@ },
        }
    }
}

/// The verdict on the reply `text` under the allow-list `allowed`. The check
/// of the paths is all or nothing: one path that is not allowed rejects the
/// whole reply, and the verdict names the first such path.
pub open spec fn verdict_of(text: Seq<char>, allowed: Set<Seq<char>>) -> VerdictView {
    match parse_reply(text) {
        None => VerdictView::Malformed { message: truncated_message() },
        Some(reply) => match first_disallowed(reply.files, allowed) {
            Some(i) => VerdictView::Rejected { path: reply.files[i].0 },
            None => VerdictView::Approved { explanation: reply.explanation, files: reply.files },
        },
    }
}

/// The message of the failure after a path that is not allowed.
pub open spec fn disallowed_message(path: Seq<char>) -> Seq<char> {
    "attempting to write to disallowed file: "@ + path
}

impl Verdict {
    /// The error with which the run ends, if it ends here: none after an
    /// approval, a file error that names the path after a rejection, a parse
    /// error after a malformed reply.
    pub fn error(&self) -> (e: Option<LlmpalError>)
        ensures
            match self@ {
                VerdictView::Approved { .. } => e is None,
                VerdictView::Rejected { path } => e matches Some(LlmpalError::FileError(m)) && m@
                    == disallowed_message(path),
                VerdictView::Malformed { message } => e matches Some(LlmpalError::ParseError(m))
                    && m@ == message,
            },
    {
        match self {
            Verdict::Approved { .. } => None,
            Verdict::Rejected { path } => {
                let mut m = String::from_str("attempting to write to disallowed file: ");
                m.append(path.as_str());
                Some(LlmpalError::FileError(m))
            },
            Verdict::Malformed { message } => Some(LlmpalError::ParseError(message.clone())),
        }
    }
}

impl Verdict {
    /// What is to be carried out, or the error with which the run ends.
    pub fn into_result(self) -> (r: Result<(String, Vec<(String, String)>), LlmpalError>)
        ensures
            match self@ {
                VerdictView::Approved { explanation, files } => r matches Ok(plan) && plan.0@
                    == explanation && files_view(plan.1@) == files,
                VerdictView::Rejected { path } => r matches Err(LlmpalError::FileError(m)) && m@
                    == disallowed_message(path),
                VerdictView::Malformed { message } => r matches Err(LlmpalError::ParseError(m))
                    && m@ == message,
            },
    {
        match self {
            Verdict::Approved { explanation, files } => Ok((explanation, files)),
            Verdict::Rejected { path } => {
                let mut m = String::from_str("attempting to write to disallowed file: ");
                m.append(path.as_str());
                Err(LlmpalError::FileError(m))
            },
            Verdict::Malformed { message } => Err(LlmpalError::ParseError(message)),
        }
    }
}

/// Parses the reply and holds every path against the allow-list.
pub fn examine_reply(resp_text: &str, allowed: &AllowedFileSet) -> (v: Verdict)
    ensures
        v@ == verdict_of(resp_text@, allowed@),
{
    match parse_llm_response(resp_text) {
        Err(message) => Verdict::Malformed { message },
        Ok((explanation, files, _)) => {
            match check_paths(&files, allowed) {
                Some(i) => {
                    proof {
                        lemma_first_disallowed(files_view(files@), allowed@);
                    }
                    Verdict::Rejected { path: files[i].0.clone() }
                },
                None => Verdict::Approved { explanation, files },
            }
        },
    }
}

} // verus!
