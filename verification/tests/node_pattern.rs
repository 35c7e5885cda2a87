use prime_accelerator::plugins::node_pattern::{
    compiled_patterns, detect_patterns_in_source, escapes_cut_cleanly_in, file_url_decodable,
    file_url_to_path, find_matches, hex_pair, match_context, order_by_category, PatternMatch, pattern_defs, percent_decode, percent_decode_bytes,
    rank_of, source_context,
};
use prime_accelerator::patterns::{node_pattern_names, python_pattern_names};
use prime_accelerator::regex_engine::CompiledRegex;

#[test]
fn pattern_table_has_six_entries_in_order() {
    let defs = pattern_defs();
    let names: Vec<&str> = defs.iter().map(|d| d.name).collect();
    assert_eq!(
        names,
        vec![
            "sum_of_squares_loop",
            "range_sum_loop",
            "nested_loop_matrix",
            "string_concat_loop",
            "array_push_loop",
            "object_counting_loop"
        ]
    );
    assert_eq!(defs[0].rust_fn, "sumOfSquares");
    assert_eq!(defs[2].category, "nested_loop");
    assert_eq!(defs[5].rust_fn, "fastWordCount");
}

#[test]
fn all_pattern_regexes_compile() {
    let compiled = compiled_patterns();
    assert_eq!(compiled.len(), 6);
    for (c, d) in compiled.iter().zip(pattern_defs().iter()) {
        assert_eq!(c.def.name, d.name);
    }
}

#[test]
fn invalid_regex_is_refused() {
    assert!(CompiledRegex::new("foo(bar").is_none());
    let re = CompiledRegex::new(r"a+b").unwrap();
    assert!(re.is_match("xxaaab"));
    assert!(!re.is_match("ba"));
}

#[test]
fn listing_matches_detector() {
    let defs: Vec<&str> = pattern_defs().iter().map(|d| d.name).collect();
    assert_eq!(node_pattern_names(), defs);
    assert_eq!(python_pattern_names().len(), 6);
    assert_eq!(python_pattern_names()[4], "list_append_loop");
}

#[test]
fn category_ranks() {
    assert_eq!(rank_of("nested_loop"), 0);
    assert_eq!(rank_of("numeric_loop"), 1);
    assert_eq!(rank_of("string_ops"), 2);
    assert_eq!(rank_of("collection_ops"), 3);
    assert_eq!(rank_of(""), 3);
}

#[test]
fn sum_of_squares_loop_is_found_and_nested_loops_come_first() {
    let patterns = compiled_patterns();
    let src = "for (let i = 0; i < n; i++) {\n  for (let j = 0; j < n; j++) {\n    total += i * j;\n  }\n}";
    let found = match_context(&patterns, src);
    let names: Vec<&str> = found.iter().map(|m| m.name.as_str()).collect();
    assert_eq!(names, vec!["nested_loop_matrix", "sum_of_squares_loop"]);
    assert_eq!(found[0].category, "nested_loop");
    assert_eq!(found[1].rust_fn, "sumOfSquares");
}

#[test]
fn numeric_before_string_before_collections() {
    let patterns = compiled_patterns();
    let src = "for (let i = 0; i < n; i++) { out.push(i); s += 'x'; total += i; }";
    let found = match_context(&patterns, src);
    let cats: Vec<&str> = found.iter().map(|m| m.category.as_str()).collect();
    let names: Vec<&str> = found.iter().map(|m| m.name.as_str()).collect();
    assert_eq!(names, vec!["range_sum_loop", "string_concat_loop", "array_push_loop"]);
    assert_eq!(cats, vec!["numeric_loop", "string_ops", "collection_ops"]);
}

#[test]
fn counting_pattern_outside_loops() {
    let patterns = compiled_patterns();
    let found = match_context(&patterns, "counts[w] = (counts[w] || 0) + 1;");
    assert_eq!(found.len(), 1);
    assert_eq!(found[0].name, "object_counting_loop");
    assert_eq!(found[0].description, "Object property counting pattern (frequency map) detected");
}

#[test]
fn nothing_found_in_plain_code() {
    let patterns = compiled_patterns();
    assert!(match_context(&patterns, "const x = 1;\nconsole.log(x);").is_empty());
}

#[test]
fn context_window_spans_five_before_to_twenty_after() {
    let content: String = (1..=40).map(|i| format!("l{}\n", i)).collect();
    let ctx = source_context(&content, 10).unwrap();
    let expected: Vec<String> = (6..=30).map(|i| format!("l{}", i)).collect();
    assert_eq!(ctx, expected.join("\n"));
    let start = source_context(&content, 2).unwrap();
    assert!(start.starts_with("l1\nl2\n"));
    assert!(start.ends_with("\nl22"));
    let end = source_context(&content, 38).unwrap();
    assert!(end.starts_with("l34\n"));
    assert!(end.ends_with("l40"));
    assert_eq!(source_context(&content, 45), None);
    assert_eq!(source_context("", 0), None);
}

#[test]
fn context_lines_drop_crlf_endings() {
    let ctx = source_context("a\r\nb\r\nc\r", 0).unwrap();
    assert_eq!(ctx, "a\nb\nc\r");
}

#[test]
fn detection_in_source_uses_the_window() {
    let patterns = compiled_patterns();
    let mut lines: Vec<String> = (0..60).map(|i| format!("// line {}", i)).collect();
    lines[50] = "for (let i = 0; i < n; i++) { total += i * i; }".to_string();
    let content = lines.join("\n");
    let near = detect_patterns_in_source(&patterns, &content, 45);
    assert_eq!(near[0].name, "sum_of_squares_loop");
    let far = detect_patterns_in_source(&patterns, &content, 10);
    assert!(far.is_empty());
}

#[test]
fn hex_pairs_read_like_from_str_radix() {
    assert_eq!(hex_pair(b'4', b'1'), Some(0x41));
    assert_eq!(hex_pair(b'f', b'F'), Some(0xff));
    assert_eq!(hex_pair(b'+', b'7'), Some(7));
    assert_eq!(hex_pair(b'-', b'7'), None);
    assert_eq!(hex_pair(b'g', b'0'), None);
    for a in 0u8..=255 {
        for b in [b'0', b'7', b'a', b'F', b'+', b'z', 0xc3] {
            let s = [a, b];
            let expected = std::str::from_utf8(&s).ok().and_then(|t| u8::from_str_radix(t, 16).ok());
            assert_eq!(hex_pair(a, b), expected, "bytes {:?}", s);
        }
    }
}

#[test]
fn percent_decoding() {
    assert_eq!(percent_decode("a%20b"), "a b");
    assert_eq!(percent_decode("100%"), "100%");
    assert_eq!(percent_decode("%4"), "%4");
    assert_eq!(percent_decode("%zz%41"), "%zzA");
    assert_eq!(percent_decode("%C3%A9t%C3%A9"), "été");
    assert_eq!(percent_decode("%FF"), "\u{FFFD}");
    assert_eq!(percent_decode("no escapes here"), "no escapes here");
    assert_eq!(percent_decode_bytes(b"%2541"), b"%41".to_vec());
}

#[test]
fn file_urls_become_paths() {
    assert_eq!(file_url_to_path("file:///home/user/app.js"), "/home/user/app.js");
    assert_eq!(file_url_to_path("file:///F:/dir/my%20file.js"), "F:/dir/my file.js");
    assert_eq!(file_url_to_path("/already/a/path.js"), "/already/a/path.js");
    assert_eq!(file_url_to_path("/C:/x.js"), "C:/x.js");
    assert_eq!(file_url_to_path("node:internal/main"), "node:internal/main");
}

#[test]
fn escapes_that_would_cut_a_character_are_reported() {
    assert!(escapes_cut_cleanly_in("a%20b".as_bytes()));
    assert!(!escapes_cut_cleanly_in("%aéx".as_bytes()));
    assert!(escapes_cut_cleanly_in("%éx".as_bytes()));
    assert!(file_url_decodable("file:///tmp/x%20y.js"));
    assert!(!file_url_decodable("file:///tmp/%1ééé"));
}

fn pm(name: &str, category: &str) -> PatternMatch {
    PatternMatch {
        name: name.to_string(),
        description: String::new(),
        rust_fn: String::new(),
        category: category.to_string(),
    }
}

#[test]
fn ordering_is_a_stable_sort_by_category() {
    let found = vec![
        pm("a", "collection_ops"),
        pm("b", "numeric_loop"),
        pm("c", "other"),
        pm("d", "nested_loop"),
        pm("e", "numeric_loop"),
        pm("f", "string_ops"),
    ];
    let ordered = order_by_category(&found);
    let names: Vec<&str> = ordered.iter().map(|m| m.name.as_str()).collect();
    assert_eq!(names, vec!["d", "b", "e", "f", "a", "c"]);
    assert!(order_by_category(&vec![]).is_empty());
}

#[test]
fn matches_are_found_in_table_order() {
    let patterns = compiled_patterns();
    let src = "for (let i = 0; i < n; i++) { out.push(i); s += 'x'; total += i; }";
    let names: Vec<String> = find_matches(&patterns, src).into_iter().map(|m| m.name).collect();
    assert_eq!(names, vec!["range_sum_loop", "string_concat_loop", "array_push_loop"]);
}
