//! The input files of a run, and the allow-list that follows from them.
//!
//! The caller looks at storage and reports what it found; which paths are
//! sent and which may be written is decided here.

use crate::app::LlmpalError;
use crate::guard::{first_occurrences, AllowedFileSet};
use crate::text::strings_view;
use vstd::prelude::*;
use vstd::string::StringExecFns;

verus! {

/// One entry of a directory.
#[derive(Debug, Clone)]
pub struct DirEntry {
    /// The path of the entry, the directory's path included.
    pub path: String,
    /// The entry is itself a directory.
    pub is_dir: bool,
}

/// A path given on the command line, as storage shows it.
#[derive(Debug, Clone)]
pub enum InputPath {
    /// Anything but a directory; the path as it was given.
    File(String),
    /// A directory, with its entries in the order in which they were read.
    Directory(Vec<DirEntry>),
}

/// The paths of the files among `entries`, in order. Directories inside a
/// directory are left out.
pub open spec fn files_among(entries: Seq<DirEntry>) -> Seq<Seq<char>>
    decreases entries.len(),
{
    if entries.len() == 0 {
        Seq::empty()
    } else if entries.last().is_dir {
        files_among(entries.drop_last())
    } else {
        files_among(entries.drop_last()).push(entries.last().path@)
    }
}

/// The files that one given path stands for: itself, or the files directly
/// inside it.
pub open spec fn files_of_input(input: InputPath) -> Seq<Seq<char>> {
    match input {
        InputPath::File(path) => seq![path@],
        InputPath::Directory(entries) => files_among(entries@),
    }
}

/// The input files of a run, in the order of the command line.
pub open spec fn input_files_of(inputs: Seq<InputPath>) -> Seq<Seq<char>>
    decreases inputs.len(),
{
    if inputs.len() == 0 {
        Seq::empty()
    } else {
        input_files_of(inputs.drop_last()) + files_of_input(inputs.last())
    }
}

/// The allow-list of a run: every input file, and the output path if there
/// is one.
pub open spec fn allowed_paths(inputs: Seq<InputPath>, output: Option<String>) -> Set<Seq<char>> {
    match output {
        Some(path) => input_files_of(inputs).to_set().insert(path@),
        None => input_files_of(inputs).to_set(),
    }
}

/// The allowed paths in the order in which the system prompt lists them:
/// the input files and then the output path, each where it occurs first.
pub open spec fn allowed_order(inputs: Seq<InputPath>, output: Option<String>) -> Seq<Seq<char>> {
    match output {
        Some(path) => first_occurrences(input_files_of(inputs).push(path@)),
        None => first_occurrences(input_files_of(inputs)),
    }
}

/// Builds the list of input files and the allow-list.
pub fn gather_inputs(inputs: &Vec<InputPath>, output: &Option<String>) -> (r: (
    AllowedFileSet,
    Vec<String>,
))
    ensures
        r.0.wf(),
        r.0@ == allowed_paths(inputs@, *output),
        r.0.order() == allowed_order(inputs@, *output),
        strings_view(r.1@) == input_files_of(inputs@),
{
    let mut allowed = AllowedFileSet::new();
    let mut files: Vec<String> = Vec::new();
    assert(strings_view(files@) =~= Seq::empty());
    assert(Seq::<Seq<char>>::empty().to_set() =~= Set::empty());
    let n: usize = inputs.len();
    let mut i: usize = 0;
    while i < n
        invariant
            n == inputs@.len(),
            i <= n,
            allowed.wf(),
            strings_view(files@) == input_files_of(inputs@.take(i as int)),
            allowed@ == strings_view(files@).to_set(),
            allowed.order() == first_occurrences(strings_view(files@)),
        decreases n - i,
    {
        let ghost before = strings_view(files@);
        proof {
            assert(inputs@.take(i + 1).drop_last() =~= inputs@.take(i as int));
        }
        match &inputs[i] {
            InputPath::File(path) => {
                proof {
                    before.lemma_push_to_set_commute(path@);
                    assert(strings_view(files@.push(*path)) =~= before.push(path@));
                    assert(before.push(path@).drop_last() =~= before);
                    assert(before + seq![path@] =~= before.push(path@));
                }
                allowed.insert(path.clone());
                files.push(path.clone());
            },
            InputPath::Directory(entries) => {
                let m: usize = entries.len();
                let mut j: usize = 0;
                assert(before + files_among(entries@.take(0)) =~= before);
                while j < m
                    invariant
                        m == entries@.len(),
                        j <= m,
                        allowed.wf(),
                        strings_view(files@) == before + files_among(entries@.take(j as int)),
                        allowed@ == strings_view(files@).to_set(),
                        allowed.order() == first_occurrences(strings_view(files@)),
                    decreases m - j,
                {
                    proof {
                        assert(entries@.take(j + 1).drop_last() =~= entries@.take(j as int));
                    }
                    if !entries[j].is_dir {
                        let ghost so_far = strings_view(files@);
                        let path = &entries[j].path;
                        proof {
                            so_far.lemma_push_to_set_commute(path@);
                            assert(strings_view(files@.push(*path)) =~= so_far.push(path@));
                            assert(so_far.push(path@).drop_last() =~= so_far);
                            assert(before + files_among(entries@.take(j as int)).push(path@)
                                =~= so_far.push(path@));
                        }
                        allowed.insert(path.clone());
                        files.push(path.clone());
                    }
                    j = j + 1;
                }
                assert(entries@.take(m as int) =~= entries@);
            },
        }
        i = i + 1;
    }
    assert(inputs@.take(n as int) =~= inputs@);
    match output {
        Some(path) => {
            proof {
                let all = strings_view(files@);
                assert(all.push(path@).drop_last() =~= all);
            }
            allowed.insert(path.clone());
        },
        None => {},
    }
    (allowed, files)
}

/// The error after a directory that could not be listed.
pub fn directory_error(path: &str, cause: &str) -> (e: LlmpalError)
    ensures
        e matches LlmpalError::FileError(m) && m@ == "Cannot read directory '"@ + path@ + "': "@
            + cause@,
{
    let mut m = String::from_str("Cannot read directory '");
    m.append(path);
    m.append("': ");
    m.append(cause);
    LlmpalError::FileError(m)
}

/// The error after an entry of a directory that could not be read.
pub fn entry_error(path: &str, cause: &str) -> (e: LlmpalError)
    ensures
        e matches LlmpalError::FileError(m) && m@ == "Error reading entry in '"@ + path@ + "': "@
            + cause@,
{
    let mut m = String::from_str("Error reading entry in '");
    m.append(path);
    m.append("': ");
    m.append(cause);
    LlmpalError::FileError(m)
}

} // verus!
