use llmpal::llm::{
    build_system_prompt, build_user_prompt, parse_llm_response, paths_to_read, InputFile,
};

fn input(path: &str, content: &str) -> InputFile {
    InputFile { path: path.to_string(), content: content.to_string() }
}

#[test]
fn test_build_user_prompt_empty_files() {
    let instruction = "test";
    let files = vec![];
    let prompt = build_user_prompt(instruction, &files, &None);
    assert!(prompt.contains("# User instructions"));
    assert!(prompt.contains("test"));
    assert!(prompt.contains("# User input files:"));
}

#[test]
fn test_build_system_prompt_with_files() {
    let allowed_files = vec!["file1.rs".to_string()];
    let rules = vec![];
    let prompt = build_system_prompt(&allowed_files, &rules);
    assert!(prompt.contains("file1.rs"));
    assert!(prompt.contains("You are a non-interactive agent"));
}

const HEAD: &str = "You are a non-interactive agent specialized in helping with software development tasks.\n# Primary workflows:\n- answering questions\n- analyzing and explaining contents of provided files\n- editing and creating files (only these that are allowed)\n- writing and modifying code\n\n# Guidelines\n- You are allowed to provide content ONLY for these files: ";

const GUIDELINES: &str = "\n- NEVER, EVER, UNDER ANY CIRCUMSTANCES output <file> tags for files other than listed in the list provided above.\n- Never create or modify any files when the user is only asking questions.\n- When asked to modify a file, provide **full** contents of the file after modification.\n- Always provide a brief explanation for your actions.\n- Always omit files that need no changes.\n- You MUST strictly follow the defined output format. Never deviate from it.\n- Never output additional information outside of the defined schema.\n- Never provide partial files in outputs.\n- NEVER ADD ANY comments to the new or existing code, unless you are directly asked to do so.\n- Never make unrequested changes in files.\n- Never add code comments when not requested.\n- Never change file formatting (spaces, tabs, etc.). New code should have formatting and style consistent with existing code.\n\n";

const FORMAT: &str = "# Output format\nYou must follow this output format exactly. Deviations will be rejected.\nThe response must start with:\n<explain>\nBrief explanations and answers to questions\n</explain>\nThen, for each file you are modifying or creating:\n<file path=\"path_to_file\">\nfull file content\n</file>\n\nExample:\n<explain>\nI'm updating the build_system_prompt to reinforce format compliance.\n</explain>\n<file path=\"src/llm.rs\">\nupdated content of the file\n</file>\n\n";

#[test]
fn system_prompt_without_files_and_rules() {
    assert_eq!(build_system_prompt(&[], &[]), format!("{}{}{}", HEAD, GUIDELINES, FORMAT));
}

#[test]
fn system_prompt_lists_every_path_and_every_rule() {
    let files = vec!["a.rs".to_string(), "dir/b c.txt".to_string()];
    let rules = vec!["Be brief.".to_string(), "Use tabs.".to_string()];
    assert_eq!(
        build_system_prompt(&files, &rules),
        format!(
            "{} a.rs, dir/b c.txt,{}# Additional rules\n- Be brief.\n- Use tabs.\n\n{}",
            HEAD, GUIDELINES, FORMAT
        )
    );
    assert_eq!(
        build_system_prompt(&files, &[]),
        format!("{} a.rs, dir/b c.txt,{}{}", HEAD, GUIDELINES, FORMAT)
    );
    assert_eq!(
        build_system_prompt(&[], &rules[..1]),
        format!("{}{}# Additional rules\n- Be brief.\n\n{}", HEAD, GUIDELINES, FORMAT)
    );
}

#[test]
fn user_prompt_holds_the_instruction_and_the_files() {
    let files = vec![input("a.rs", "fn a() {}\n"), input("b.txt", ""), input("c", "x\ny")];
    assert_eq!(
        build_user_prompt("Do it.", &files, &None),
        "# User instructions\nDo it.\n\n# User input files:\n<file path=\"a.rs\">\nfn a() {}\n\n</file>\n<file path=\"b.txt\">\n\n</file>\n<file path=\"c\">\nx\ny\n</file>\n"
    );
    assert_eq!(
        build_user_prompt("", &[], &Some("out".to_string())),
        "# User instructions\n\n\n# User input files:\n"
    );
}

#[test]
fn user_prompt_leaves_the_output_file_out() {
    let files = vec![input("a", "1"), input("out", "old"), input("b", "2"), input("out", "again")];
    assert_eq!(
        build_user_prompt("i", &files, &Some("out".to_string())),
        "# User instructions\ni\n\n# User input files:\n<file path=\"a\">\n1\n</file>\n<file path=\"b\">\n2\n</file>\n"
    );
    assert_eq!(
        build_user_prompt("i", &files[..2], &Some("other".to_string())),
        "# User instructions\ni\n\n# User input files:\n<file path=\"a\">\n1\n</file>\n<file path=\"out\">\nold\n</file>\n"
    );
}

#[test]
fn the_format_that_the_system_prompt_shows_is_the_format_that_is_parsed() {
    let prompt = build_system_prompt(&[], &[]);
    let example = prompt.split("Example:\n").nth(1).unwrap();
    let (explanation, files, remaining) = parse_llm_response(example).unwrap();
    assert_eq!(
        explanation,
        "I'm updating the build_system_prompt to reinforce format compliance."
    );
    assert_eq!(
        files,
        vec![("src/llm.rs".to_string(), "updated content of the file".to_string())]
    );
    assert_eq!(remaining, "");
}

#[test]
fn the_files_of_a_user_prompt_parse_back() {
    let files = vec![input("a.rs", "fn a() {}"), input("dir/b.txt", "one\n\n  two")];
    let prompt = build_user_prompt("i", &files, &None);
    let (_, parsed, remaining) = parse_llm_response(&prompt).unwrap();
    assert_eq!(
        parsed,
        vec![
            ("a.rs".to_string(), "fn a() {}".to_string()),
            ("dir/b.txt".to_string(), "one\n\n  two".to_string())
        ]
    );
    assert_eq!(remaining, "# User instructions\ni\n\n# User input files:");
}

#[test]
fn the_files_to_read_are_the_inputs_but_the_output() {
    let inputs = vec!["a".to_string(), "out".to_string(), "b".to_string(), "out".to_string()];
    assert_eq!(paths_to_read(&inputs, &Some("out".to_string())), ["a", "b"]);
    assert_eq!(paths_to_read(&inputs, &Some("other".to_string())), ["a", "out", "b", "out"]);
    assert_eq!(paths_to_read(&inputs, &None), ["a", "out", "b", "out"]);
    assert_eq!(paths_to_read(&inputs[1..2], &Some("out".to_string())), Vec::<String>::new());
    assert_eq!(paths_to_read(&[], &Some("out".to_string())), Vec::<String>::new());
    assert_eq!(paths_to_read(&inputs, &Some("OUT".to_string())).len(), 4);
}
