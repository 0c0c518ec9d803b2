use llmpal::llm::parse_llm_response;

#[test]
fn test_parse_llm_response() {
    let mut resp_text = "\
        <explain>
        This is an explanation.
        </explain>
        <file path=\"src/main.rs\">
        fn main() {
            println!(\"Hello, world!\");
        }
        </file>
        This is remaining text.";
    let string = resp_text
        .lines()
        .map(|l| l.strip_prefix("        ").unwrap_or(l))
        .collect::<Vec<&str>>()
        .join("\n");
    resp_text = string.as_str();

    let (explanation, files, remaining) = parse_llm_response(resp_text).unwrap();
    assert_eq!(explanation, "This is an explanation.");
    assert_eq!(files.len(), 1);
    assert_eq!(files[0].0, "src/main.rs");
    assert_eq!(
        files[0].1,
        "fn main() {\n    println!(\"Hello, world!\");\n}"
    );
    assert_eq!(remaining, "This is remaining text.");
}

#[test]
fn test_parse_llm_response_nested_file() {
    let mut resp_text = "\
        <explain>
        This is an explanation.
        </explain>
        <file path=\"src/main.rs\">
        fn main() {
            println!(\"Hello, world!\");
            println!(\"\\\n
            <file name=\"test.txt\">\\\n
            \");>\
            println!(\"Hello, world!\");
            println!(\"\\\\\n
            </file>\\\n
            !\");
        }
        </file>
        This is remaining text.";
    let string = resp_text
        .lines()
        .map(|l| l.strip_prefix("        ").unwrap_or(l))
        .collect::<Vec<&str>>()
        .join("\n");
    resp_text = string.as_str();

    let (explanation, files, remaining) = parse_llm_response(resp_text).unwrap();
    assert_eq!(explanation, "This is an explanation.");
    assert_eq!(files.len(), 1);
    assert_eq!(files[0].0, "src/main.rs");
    assert_eq!(
        files[0].1,
        "fn main() {\n    println!(\"Hello, world!\");\n    println!(\"\\\n\n    <file name=\"test.txt\">\\\n\n    \");>println!(\"Hello, world!\");\n    println!(\"\\\\\n\n    </file>\\\n\n    !\");\n}"
    );
    assert_eq!(remaining, "This is remaining text.");
}

#[test]
fn banner_reply_gives_explanation_and_file() {
    let reply = "=== EXPLAIN START ===\nok\n=== EXPLAIN END ===\n=== a.txt === START ===\nhi\n=== a.txt === END ===";
    let (explanation, files, remaining) = parse_llm_response(reply).unwrap();
    assert_eq!(explanation, "ok");
    assert_eq!(files, vec![("a.txt".to_string(), "hi".to_string())]);
    assert_eq!(remaining, "");
}

#[test]
fn unclosed_file_section_is_an_error() {
    let r = parse_llm_response("=== a.txt === START ===\nhi");
    assert_eq!(
        r,
        Err("Error: unexpected end of response while parsing a file section".to_string())
    );
    let r = parse_llm_response("<file path=\"a.txt\">\nhi");
    assert!(r.is_err());
}

fn ok(reply: &str) -> (String, Vec<(String, String)>, String) {
    parse_llm_response(reply).unwrap()
}

fn file(path: &str, content: &str) -> (String, String) {
    (path.to_string(), content.to_string())
}

#[test]
fn empty_reply_holds_nothing() {
    assert_eq!(ok(""), (String::new(), vec![], String::new()));
}

#[test]
fn reasoning_is_discarded() {
    let reply = "<think>\nsecret plan\n<file path=\"x\">\nstolen\n</file>\n</think>\n<explain>\nok\n</explain>\nrest";
    let (explanation, files, remaining) = ok(reply);
    assert_eq!(explanation, "ok");
    assert!(files.is_empty());
    assert_eq!(remaining, "rest");
}

#[test]
fn reasoning_markers_need_only_begin_the_line() {
    let reply = "  <think> let me see\nhidden\n</think> done.\nshown";
    assert_eq!(ok(reply), (String::new(), vec![], "shown".to_string()));
}

#[test]
fn reasoning_does_not_depend_on_its_content() {
    let a = ok("before\n<think>\none\ntwo\n</explain>\n</think>\n<file path=\"a\">\nx\n</file>\nafter");
    let b = ok("before\n<think>\n</think>\n<file path=\"a\">\nx\n</file>\nafter");
    assert_eq!(a, b);
    assert_eq!(a, (String::new(), vec![file("a", "x")], "before\nafter".to_string()));
}

#[test]
fn reasoning_inside_a_file_section_suspends_it() {
    let reply = "<file path=\"a\">\none\n<think>\nhidden\n</file>\n</think>\ntwo\n</file>";
    assert_eq!(ok(reply).1, vec![file("a", "one\ntwo")]);
    assert!(parse_llm_response("<file path=\"a\">\none\n<think>\n</file>\n</think>").is_err());
}

#[test]
fn reply_may_end_inside_reasoning_or_explanation() {
    assert_eq!(ok("<think>\nnever closed"), (String::new(), vec![], String::new()));
    assert_eq!(
        ok("<explain>\nnever closed"),
        ("never closed".to_string(), vec![], String::new())
    );
}

#[test]
fn explanation_lines_are_kept_untrimmed() {
    let reply = "<explain>\n  indented \n\n\tlast\n</explain>";
    assert_eq!(ok(reply).0, "  indented \n\n\tlast");
}

#[test]
fn explanation_markers_must_be_the_whole_line() {
    let (explanation, _, remaining) = ok("<explain> now\ntext\n</explain>");
    assert_eq!(explanation, "");
    assert_eq!(remaining, "<explain> now\ntext");
    let (explanation, _, remaining) = ok("   <explain>\t\ntext\n </explain>  \nrest");
    assert_eq!(explanation, "text");
    assert_eq!(remaining, "rest");
}

#[test]
fn file_markers_inside_the_explanation_are_explanation() {
    let reply = "<explain>\n<file path=\"a\">\nx\n</file>\n</explain>";
    assert_eq!(
        ok(reply),
        ("<file path=\"a\">\nx\n</file>".to_string(), vec![], String::new())
    );
}

#[test]
fn file_lines_are_kept_untrimmed_and_joined_by_line_feeds() {
    let reply = "<file path=\"a.txt\">\n  one  \n\n\ttwo\n</file>";
    assert_eq!(ok(reply).1, vec![file("a.txt", "  one  \n\n\ttwo")]);
}

#[test]
fn empty_file_section_gives_empty_content() {
    assert_eq!(ok("<file path=\"a\">\n</file>").1, vec![file("a", "")]);
}

#[test]
fn files_come_in_the_order_of_the_reply_and_a_path_may_recur() {
    let reply = "<file path=\"b\">\n1\n</file>\n<file path=\"a\">\n2\n</file>\n<file path=\"b\">\n3\n</file>";
    assert_eq!(ok(reply).1, vec![file("b", "1"), file("a", "2"), file("b", "3")]);
}

#[test]
fn the_path_is_taken_as_it_is() {
    assert_eq!(
        ok("<file path=\"../x y/</file>\">\nz\n</file>").1,
        vec![file("../x y/</file>", "z")]
    );
    assert_eq!(
        ok("<file mode=\"w\" path=\"a\" other=\"b\">\nz\n</file>").1,
        vec![file("a", "z")]
    );
    assert_eq!(
        ok("=== <explain> === START ===\nz\n=== x === END ===").1,
        vec![file("<explain>", "z")]
    );
}

#[test]
fn a_section_without_a_path_is_dropped() {
    assert_eq!(ok("<file>\nx\n</file>\nrest"), (String::new(), vec![], "rest".to_string()));
    assert_eq!(ok("<file path=\"\">\nx\n</file>").1, vec![]);
    assert_eq!(ok("<file path=\"unterminated>\nx\n</file>").1, vec![]);
    assert_eq!(ok("===  === START ===\nx\n=== x === END ===").1, vec![]);
    assert!(parse_llm_response("<file>\nx").is_err());
}

#[test]
fn the_closing_line_must_be_the_whole_line() {
    let reply = "<file path=\"a\">\n</file> trailing\n  </file>  \nafter";
    assert_eq!(
        ok(reply),
        (String::new(), vec![file("a", "</file> trailing")], "after".to_string())
    );
}

#[test]
fn an_opening_line_inside_a_section_starts_over() {
    let reply = "<file path=\"a\">\nlost\n<file path=\"b\">\nkept\n</file>";
    assert_eq!(ok(reply).1, vec![file("b", "kept")]);
}

#[test]
fn a_second_closing_line_repeats_the_section() {
    let reply = "<file path=\"a\">\nx\n</file>\nbetween\n</file>";
    assert_eq!(
        ok(reply),
        (String::new(), vec![file("a", "x"), file("a", "x")], "between".to_string())
    );
}

#[test]
fn lines_outside_every_block_are_trailing_text_in_order() {
    let reply = "one\n<explain>\ne\n</explain>\n  two  \n<file path=\"a\">\nx\n</file>\n\nthree";
    assert_eq!(
        ok(reply),
        ("e".to_string(), vec![file("a", "x")], "one\n  two  \n\nthree".to_string())
    );
}

#[test]
fn trailing_text_has_no_effect_on_the_files() {
    let with = ok("noise\n<file path=\"a\">\nx\n</file>\nmore noise");
    let without = ok("<file path=\"a\">\nx\n</file>");
    assert_eq!(with.1, without.1);
    assert_eq!(with.0, without.0);
    assert_eq!(with.2, "noise\nmore noise");
}

#[test]
fn lines_end_at_line_feeds_with_or_without_carriage_return() {
    let reply = "<explain>\r\nok\r\n</explain>\r\n<file path=\"a\">\r\nx\r\ny\r\n</file>\r\n";
    assert_eq!(ok(reply), ("ok".to_string(), vec![file("a", "x\ny")], String::new()));
    assert_eq!(ok("a\n\nb\n").2, "a\n\nb");
    assert_eq!(ok("a\rb").2, "a\rb");
    assert_eq!(ok("a\r").2, "a\r");
    assert_eq!(ok("\n").2, "");
    assert_eq!(ok("\n\n").2, "\n");
}

#[test]
fn sentinels_are_found_behind_any_unicode_white_space() {
    let reply = "\u{3000}\u{a0}<explain>\u{2003}\nok\n\u{85}</explain>\u{2028}";
    assert_eq!(ok(reply).0, "ok");
    let (explanation, _, remaining) = ok("\u{200b}<explain>\nok");
    assert_eq!(explanation, "");
    assert_eq!(remaining, "\u{200b}<explain>\nok");
}

#[test]
fn both_dialects_may_be_mixed() {
    let reply = "=== EXPLAIN START ===\nwhy\n</explain>\n<file path=\"a\">\nx\n=== a === END ===\n=== b === START ===\ny\n</file>";
    assert_eq!(
        ok(reply),
        ("why".to_string(), vec![file("a", "x"), file("b", "y")], String::new())
    );
}

#[test]
fn banner_needs_room_for_both_ends() {
    assert_eq!(ok("=== === START ===").2, "=== === START ===");
    assert_eq!(ok("=== === END ===").2, "=== === END ===");
    assert_eq!(ok("===  === END ===").2, "");
}

#[test]
fn well_formed_sections_give_exactly_their_files() {
    let mut reply = String::new();
    let mut expected = Vec::new();
    for i in 0..20 {
        let path = format!("dir/file{}.txt", i);
        let content = format!("line one of {}\n\n  line three", i);
        reply.push_str(&format!("<file path=\"{}\">\n{}\n</file>\n", path, content));
        expected.push((path, content));
    }
    let (explanation, files, remaining) = ok(&reply);
    assert_eq!(explanation, "");
    assert_eq!(files, expected);
    assert_eq!(remaining, "");
}

#[test]
fn a_block_of_reasoning_leaves_no_trace() {
    let with = ok("a\n<explain>\ne1\n<think>\nhidden\n</think>\ne2\n</explain>\n<file path=\"p\">\n1\n<think>\n</file>\n</think>\n2\n</file>\nb");
    let without = ok("a\n<explain>\ne1\ne2\n</explain>\n<file path=\"p\">\n1\n2\n</file>\nb");
    assert_eq!(with, without);
    assert_eq!(with, ("e1\ne2".to_string(), vec![file("p", "1\n2")], "a\nb".to_string()));
}

#[test]
fn a_long_reply_is_parsed() {
    let mut reply = String::from("<explain>\nlong\n</explain>\n");
    let mut expected = Vec::new();
    for i in 0..200 {
        let mut content = String::new();
        for j in 0..500 {
            if j > 0 {
                content.push('\n');
            }
            content.push_str(&format!("    let value_{}_{} = \"é{}\";", i, j, j));
        }
        reply.push_str(&format!("<file path=\"src/f{}.rs\">\n{}\n</file>\n", i, content));
        expected.push((format!("src/f{}.rs", i), content));
    }
    let (explanation, files, remaining) = ok(&reply);
    assert_eq!(explanation, "long");
    assert_eq!(files, expected);
    assert_eq!(remaining, "");
}
