use prime_accelerator::lang_detect::{classify_program, detect, Language};

fn cmd(words: &[&str]) -> Vec<String> {
    words.iter().map(|w| w.to_string()).collect()
}

#[test]
fn detects_python_interpreters() {
    assert_eq!(detect(&cmd(&["python3", "script.py"])), Language::Python);
    assert_eq!(detect(&cmd(&["/usr/bin/python3.11"])), Language::Python);
}

#[test]
fn detects_node() {
    assert_eq!(detect(&cmd(&["node", "app.js"])), Language::Node);
    assert_eq!(detect(&cmd(&["nodejs"])), Language::Node);
}

#[test]
fn detection_ignores_case() {
    assert_eq!(detect(&cmd(&["PYTHON3", "x.py"])), Language::Python);
    assert_eq!(detect(&cmd(&["Node.EXE"])), Language::Node);
}

#[test]
fn unknown_programs_and_empty_commands() {
    assert_eq!(detect(&cmd(&["ruby", "script.rb"])), Language::Unknown);
    assert_eq!(detect(&cmd(&["./my_binary"])), Language::Unknown);
    assert_eq!(detect(&[]), Language::Unknown);
}

#[test]
fn only_the_program_counts() {
    assert_eq!(detect(&cmd(&["ruby", "python.rb"])), Language::Unknown);
    assert_eq!(detect(&cmd(&["bash", "node.sh"])), Language::Unknown);
}

#[test]
fn python_wins_over_node() {
    assert_eq!(classify_program("pythonode"), Language::Python);
    assert_eq!(classify_program("nodepython"), Language::Python);
    assert_eq!(classify_program("node"), Language::Node);
    assert_eq!(classify_program("pyth"), Language::Unknown);
}
