//! Prompts for the model, and the parser of its reply.

use crate::scan::{files_view, initial_state, outcome, scan, step, truncated_message, Reply, Scanner};
use crate::text::{
    chars_of, lemma_occurs_in_context, lines_of, next_line, occurs_at, occurs_in, strings_view,
};
use vstd::prelude::*;
use vstd::slice::slice_subrange;
use vstd::string::StringExecFns;

verus! {

/// How the system prompt begins; the list of allowed paths follows.
pub const SYSTEM_PROMPT_HEAD: &'static str =
    "You are a non-interactive agent specialized in helping with software development tasks.\n\
    # Primary workflows:\n\
    - answering questions\n\
    - analyzing and explaining contents of provided files\n\
    - editing and creating files (only these that are allowed)\n\
    - writing and modifying code\n\n\
    # Guidelines\n\
    - You are allowed to provide content ONLY for these files: ";

/// The guidelines that follow the list of allowed paths.
pub const SYSTEM_PROMPT_GUIDELINES: &'static str =
    "\n\
    - NEVER, EVER, UNDER ANY CIRCUMSTANCES output <file> tags for files other than listed in the list provided above.\n\
    - Never create or modify any files when the user is only asking questions.\n\
    - When asked to modify a file, provide **full** contents of the file after modification.\n\
    - Always provide a brief explanation for your actions.\n\
    - Always omit files that need no changes.\n\
    - You MUST strictly follow the defined output format. Never deviate from it.\n\
    - Never output additional information outside of the defined schema.\n\
    - Never provide partial files in outputs.\n\
    - NEVER ADD ANY comments to the new or existing code, unless you are directly asked to do so.\n\
    - Never make unrequested changes in files.\n\
    - Never add code comments when not requested.\n\
    - Never change file formatting (spaces, tabs, etc.). New code should have formatting and style consistent with existing code.\n\n";

/// The heading of the user's own rules.
pub const SYSTEM_PROMPT_RULES_HEADING: &'static str = "# Additional rules\n";

/// How the system prompt ends: the format that the reply must have.
pub const SYSTEM_PROMPT_FORMAT: &'static str =
    "# Output format\n\
     You must follow this output format exactly. Deviations will be rejected.\n\
     The response must start with:\n\
     <explain>\n\
     Brief explanations and answers to questions\n\
     </explain>\n\
     Then, for each file you are modifying or creating:\n\
     <file path=\"path_to_file\">\n\
     full file content\n\
     </file>\n\n\
     Example:\n\
     <explain>\n\
     I'm updating the build_system_prompt to reinforce format compliance.\n\
     </explain>\n\
     <file path=\"src/llm.rs\">\n\
     updated content of the file\n\
     </file>\n\n";

/// The allowed paths as the system prompt lists them: each after a space and
/// before a comma.
pub open spec fn allowed_list(files: Seq<Seq<char>>) -> Seq<char>
    decreases files.len(),
{
    if files.len() == 0 {
        Seq::empty()
    } else {
        allowed_list(files.drop_last()) + " "@ + files.last() + ","@
    }
}

/// The rules as the system prompt lists them: one line each, after a dash.
pub open spec fn rule_list(rules: Seq<Seq<char>>) -> Seq<char>
    decreases rules.len(),
{
    if rules.len() == 0 {
        Seq::empty()
    } else {
        rule_list(rules.drop_last()) + "- "@ + rules.last() + "\n"@
    }
}

/// The section of the user's rules; nothing where there are none.
pub open spec fn rules_section(rules: Seq<Seq<char>>) -> Seq<char> {
    if rules.len() == 0 {
        Seq::empty()
    } else {
        SYSTEM_PROMPT_RULES_HEADING@ + rule_list(rules) + "\n"@
    }
}

/// The system prompt for the given allowed paths and rules.
pub open spec fn system_prompt(files: Seq<Seq<char>>, rules: Seq<Seq<char>>) -> Seq<char> {
    SYSTEM_PROMPT_HEAD@ + allowed_list(files) + SYSTEM_PROMPT_GUIDELINES@ + rules_section(rules)
        + SYSTEM_PROMPT_FORMAT@
}

/// The list of allowed paths names each of them, between a space and a
/// comma.
pub proof fn lemma_allowed_list_names(files: Seq<Seq<char>>, i: int)
    requires
        0 <= i < files.len(),
    ensures
        occurs_in(allowed_list(files), " "@ + files[i] + ","@),
    decreases files.len(),
{
    let init = files.drop_last();
    let entry = " "@ + files[i] + ","@;
    let last = " "@ + files.last() + ","@;
    assert(allowed_list(files) =~= allowed_list(init) + last);
    if i == files.len() - 1 {
        let k = allowed_list(init).len() as int;
        assert(allowed_list(files).subrange(k, k + entry.len()) =~= entry);
        assert(occurs_at(allowed_list(files), entry, k));
    } else {
        assert(init[i] == files[i]);
        lemma_allowed_list_names(init, i);
        lemma_occurs_in_context(Seq::empty(), allowed_list(init), last, entry);
        assert(Seq::<char>::empty() + allowed_list(init) + last =~= allowed_list(files));
    }
}

/// The list of rules holds each of them, on a line of its own after a dash.
pub proof fn lemma_rule_list_names(rules: Seq<Seq<char>>, i: int)
    requires
        0 <= i < rules.len(),
    ensures
        occurs_in(rule_list(rules), "- "@ + rules[i] + "\n"@),
    decreases rules.len(),
{
    let init = rules.drop_last();
    let entry = "- "@ + rules[i] + "\n"@;
    let last = "- "@ + rules.last() + "\n"@;
    assert(rule_list(rules) =~= rule_list(init) + last);
    if i == rules.len() - 1 {
        let k = rule_list(init).len() as int;
        assert(rule_list(rules).subrange(k, k + entry.len()) =~= entry);
        assert(occurs_at(rule_list(rules), entry, k));
    } else {
        assert(init[i] == rules[i]);
        lemma_rule_list_names(init, i);
        lemma_occurs_in_context(Seq::empty(), rule_list(init), last, entry);
        assert(Seq::<char>::empty() + rule_list(init) + last =~= rule_list(rules));
    }
}

/// The system prompt names every allowed path and holds every rule, each as
/// it is.
pub proof fn lemma_system_prompt_names_all(files: Seq<Seq<char>>, rules: Seq<Seq<char>>)
    ensures
        forall|i: int|
            0 <= i < files.len() ==> occurs_in(
                system_prompt(files, rules),
                " "@ + #[trigger] files[i] + ","@,
            ),
        forall|i: int|
            0 <= i < rules.len() ==> occurs_in(
                system_prompt(files, rules),
                "- "@ + #[trigger] rules[i] + "\n"@,
            ),
{
    let prompt = system_prompt(files, rules);
    assert forall|i: int| 0 <= i < files.len() implies occurs_in(
        prompt,
        " "@ + #[trigger] files[i] + ","@,
    ) by {
        lemma_allowed_list_names(files, i);
        let after = SYSTEM_PROMPT_GUIDELINES@ + rules_section(rules) + SYSTEM_PROMPT_FORMAT@;
        lemma_occurs_in_context(
            SYSTEM_PROMPT_HEAD@,
            allowed_list(files),
            after,
            " "@ + files[i] + ","@,
        );
        assert(SYSTEM_PROMPT_HEAD@ + allowed_list(files) + after =~= prompt);
    }
    assert forall|i: int| 0 <= i < rules.len() implies occurs_in(
        prompt,
        "- "@ + #[trigger] rules[i] + "\n"@,
    ) by {
        lemma_rule_list_names(rules, i);
        let before = SYSTEM_PROMPT_HEAD@ + allowed_list(files) + SYSTEM_PROMPT_GUIDELINES@
            + SYSTEM_PROMPT_RULES_HEADING@;
        let after = "\n"@ + SYSTEM_PROMPT_FORMAT@;
        lemma_occurs_in_context(before, rule_list(rules), after, "- "@ + rules[i] + "\n"@);
        assert(before + rule_list(rules) + after =~= prompt);
    }
}

/// Renders the system prompt: the task, every allowed path, the guidelines,
/// every rule, and the format of the reply.
pub fn build_system_prompt(allowed_files: &[String], rules: &[String]) -> (prompt: String)
    ensures
        prompt@ == system_prompt(strings_view(allowed_files@), strings_view(rules@)),
{
    let mut prompt = String::new();
    prompt.append(SYSTEM_PROMPT_HEAD);
    let ghost head = prompt@;
    let n: usize = allowed_files.len();
    let mut i: usize = 0;
    while i < n
        invariant
            n == allowed_files@.len(),
            i <= n,
            prompt@ == head + allowed_list(strings_view(allowed_files@).take(i as int)),
        decreases n - i,
    {
        proof {
            let done = strings_view(allowed_files@).take(i as int);
            assert(strings_view(allowed_files@).take(i + 1).drop_last() =~= done);
        }
        prompt.append(" ");
        prompt.append(allowed_files[i].as_str());
        prompt.append(",");
        i = i + 1;
    }
    assert(strings_view(allowed_files@).take(n as int) =~= strings_view(allowed_files@));
    prompt.append(SYSTEM_PROMPT_GUIDELINES);
    let m: usize = rules.len();
    if m > 0 {
        let ghost before = prompt@;
        prompt.append(SYSTEM_PROMPT_RULES_HEADING);
        let mut j: usize = 0;
        while j < m
            invariant
                m == rules@.len(),
                j <= m,
                prompt@ == before + SYSTEM_PROMPT_RULES_HEADING@ + rule_list(
                    strings_view(rules@).take(j as int),
                ),
            decreases m - j,
        {
            proof {
                let done = strings_view(rules@).take(j as int);
                assert(strings_view(rules@).take(j + 1).drop_last() =~= done);
            }
            prompt.append("- ");
            prompt.append(rules[j].as_str());
            prompt.append("\n");
            j = j + 1;
        }
        assert(strings_view(rules@).take(m as int) =~= strings_view(rules@));
        prompt.append("\n");
    }
    prompt.append(SYSTEM_PROMPT_FORMAT);
    prompt
}

/// An input file as it is sent to the model.
#[derive(Debug, Clone)]
pub struct InputFile {
    pub path: String,
    /// What the file holds, as it was read.
    pub content: String,
}

/// One input file in the user prompt: its content between a tag that
/// carries the path and a closing tag.
pub open spec fn file_block(path: Seq<char>, content: Seq<char>) -> Seq<char> {
    "<file path=\""@ + path + "\">\n"@ + content + "\n</file>\n"@
}

/// The input files in the user prompt, in order. The file at the output path
/// is left out: the model is to write it anew.
pub open spec fn file_blocks(files: Seq<InputFile>, output: Option<String>) -> Seq<char>
    decreases files.len(),
{
    if files.len() == 0 {
        Seq::empty()
    } else {
        let before = file_blocks(files.drop_last(), output);
        let file = files.last();
        if output matches Some(path) && path@ == file.path@ {
            before
        } else {
            before + file_block(file.path@, file.content@)
        }
    }
}

/// The user prompt: the instruction, once, and the input files.
pub open spec fn user_prompt(
    instruction: Seq<char>,
    files: Seq<InputFile>,
    output: Option<String>,
) -> Seq<char> {
    "# User instructions\n"@ + instruction + "\n\n"@ + "# User input files:\n"@ + file_blocks(
        files,
        output,
    )
}

/// The input files whose content the user prompt holds, in order: every
/// input file but the one at the output path.
pub open spec fn paths_in_prompt(files: Seq<Seq<char>>, output: Option<String>) -> Seq<Seq<char>>
    decreases files.len(),
{
    if files.len() == 0 {
        Seq::empty()
    } else {
        let before = paths_in_prompt(files.drop_last(), output);
        if output matches Some(path) && path@ == files.last() {
            before
        } else {
            before.push(files.last())
        }
    }
}

/// The file at the output path is not read: it is not among the paths in
/// the prompt. Without an output path every input file is.
pub proof fn lemma_paths_in_prompt(files: Seq<Seq<char>>, output: Option<String>)
    ensures
        output matches Some(path) ==> !paths_in_prompt(files, output).contains(path@),
        output is None ==> paths_in_prompt(files, output) == files,
    decreases files.len(),
{
    if files.len() > 0 {
        let init = files.drop_last();
        lemma_paths_in_prompt(init, output);
        match output {
            Some(path) => {
                let before = paths_in_prompt(init, output);
                if path@ != files.last() {
                    assert forall|i: int| 0 <= i < before.push(files.last()).len() implies
                        before.push(files.last())[i] != path@ by {
                        if i < before.len() {
                            assert(before.contains(before[i]));
                        }
                    }
                }
            },
            None => {
                assert(init.push(files.last()) =~= files);
            },
        }
    } else {
        assert(paths_in_prompt(files, output) =~= files);
    }
}

/// The input files to read for the user prompt, in order: every input file
/// but the one at the output path.
pub fn paths_to_read(input_files: &[String], output_file: &Option<String>) -> (paths: Vec<String>)
    ensures
        strings_view(paths@) == paths_in_prompt(strings_view(input_files@), *output_file),
{
    let mut paths: Vec<String> = Vec::new();
    let ghost all = strings_view(input_files@);
    let n: usize = input_files.len();
    let mut i: usize = 0;
    assert(strings_view(paths@) =~= paths_in_prompt(all.take(0), *output_file));
    while i < n
        invariant
            n == input_files@.len(),
            all == strings_view(input_files@),
            i <= n,
            strings_view(paths@) == paths_in_prompt(all.take(i as int), *output_file),
        decreases n - i,
    {
        proof {
            assert(all.take(i + 1).drop_last() =~= all.take(i as int));
            assert(all.take(i + 1).last() == input_files@[i as int]@);
        }
        let skip = match output_file {
            Some(path) => *path == input_files[i],
            None => false,
        };
        if !skip {
            let path = input_files[i].clone();
            proof {
                assert(strings_view(paths@.push(path)) =~= strings_view(paths@).push(path@));
            }
            paths.push(path);
        }
        i = i + 1;
    }
    assert(all.take(n as int) =~= all);
    paths
}

/// Renders the user prompt: the instruction, then every input file but the
/// one at the output path, each with its content as it is.
pub fn build_user_prompt(instruction: &str, files: &[InputFile], output_file: &Option<String>) -> (prompt:
    String)
    ensures
        prompt@ == user_prompt(instruction@, files@, *output_file),
{
    let mut prompt = String::new();
    prompt.append("# User instructions\n");
    prompt.append(instruction);
    prompt.append("\n\n");
    prompt.append("# User input files:\n");
    let ghost head = prompt@;
    let n: usize = files.len();
    let mut i: usize = 0;
    assert(head + file_blocks(files@.take(0), *output_file) =~= head);
    while i < n
        invariant
            n == files@.len(),
            i <= n,
            prompt@ == head + file_blocks(files@.take(i as int), *output_file),
        decreases n - i,
    {
        proof {
            assert(files@.take(i + 1).drop_last() =~= files@.take(i as int));
        }
        let file = &files[i];
        let skip = match output_file {
            Some(path) => *path == file.path,
            None => false,
        };
        if !skip {
            let ghost before = prompt@;
            prompt.append("<file path=\"");
            prompt.append(file.path.as_str());
            prompt.append("\">\n");
            prompt.append(file.content.as_str());
            prompt.append("\n</file>\n");
            assert(prompt@ =~= before + file_block(file.path@, file.content@));
        }
        i = i + 1;
    }
    assert(files@.take(n as int) =~= files@);
    prompt
}

/// What the reply `text` holds: its lines, scanned from the initial state.
/// Nothing if the text ends inside a file section.
pub open spec fn parse_reply(text: Seq<char>) -> Option<Reply> {
    outcome(scan(initial_state(), lines_of(text)))
}

/// Parses a reply into its explanation, its file sections in the order of
/// their closing lines, and its trailing text. Fails if the reply ends inside
/// a file section.
pub fn parse_llm_response(resp_text: &str) -> (r: Result<
    (String, Vec<(String, String)>, String),
    String,
>)
    ensures
        match parse_reply(resp_text@) {
            Some(reply) => r matches Ok(t) && t.0@ == reply.explanation && files_view(t.1@)
                == reply.files && t.2@ == reply.trailing,
            None => r matches Err(e) && e@ == truncated_message(),
        },
{
    let text = chars_of(resp_text);
    let mut scanner = Scanner::new();
    let n: usize = text.len();
    let mut pos: usize = 0;
    assert(text@.skip(0) =~= text@);
    loop
        invariant
            n == text@.len(),
            pos <= n,
            scan(initial_state(), lines_of(text@)) == scan(
                scanner@,
                lines_of(text@.skip(pos as int)),
            ),
        ensures
            pos == n,
        decreases n - pos,
    {
        match next_line(text.as_slice(), pos) {
            Some((end, next)) => {
                let ghost before = scanner@;
                let ghost line = text@.subrange(pos as int, end as int);
                let ghost rest = lines_of(text@.skip(next as int));
                scanner.feed(slice_subrange(text.as_slice(), pos, end));
                proof {
                    assert((seq![line] + rest).drop_first() =~= rest);
                    assert(scan(before, seq![line] + rest) == scan(step(before, line), rest));
                }
                pos = next;
            },
            None => {
                break ;
            },
        }
    }
    scanner.finish()
}

} // verus!
