use fake_assembly::error::LoadError;
use fake_assembly::loader::load;
use fake_assembly::program::{LabelTable, Program};

fn lines_of(program: &Program) -> Vec<String> {
    program.lines().clone()
}

fn texts(lines: &[&str]) -> Vec<String> {
    lines.iter().map(|s| s.to_string()).collect()
}

#[test]
fn empty_text_loads_nothing() {
    let (program, labels) = load("").unwrap();
    assert!(program.is_empty());
    assert_eq!(program.len(), 0);
    assert!(labels.is_empty());
}

#[test]
fn blank_lines_load_nothing() {
    let (program, labels) = load("\n   \n\t\n \r\n\u{a0}\u{2003}\n").unwrap();
    assert!(program.is_empty());
    assert!(labels.is_empty());
}

#[test]
fn label_with_instruction_on_its_line() {
    let (program, labels) = load("loop: INC R0\nJNZ loop").unwrap();
    assert_eq!(lines_of(&program), texts(&["INC R0", "JNZ loop"]));
    assert_eq!(labels.get("loop"), Some(0));
    assert!(!labels.is_empty());
}

#[test]
fn label_alone_takes_no_slot() {
    let (program, labels) = load("done:\nZERO R0").unwrap();
    assert_eq!(labels.get("done"), Some(0));
    assert_eq!(lines_of(&program), texts(&["ZERO R0"]));
}

#[test]
fn label_alone_points_past_blank_lines() {
    let (program, labels) = load("INC R0\nnext:\n\n   \nDEC R0\n").unwrap();
    assert_eq!(labels.get("next"), Some(1));
    assert_eq!(lines_of(&program), texts(&["INC R0", "DEC R0"]));
}

#[test]
fn label_on_last_line_stands_for_the_end() {
    let (program, labels) = load("INC R0\nJ end\nend:").unwrap();
    assert_eq!(program.len(), 2);
    assert_eq!(labels.get("end"), Some(2));
}

#[test]
fn two_labels_before_one_instruction() {
    let (program, labels) = load("a:\nb:\nINC R0").unwrap();
    assert_eq!(labels.get("a"), Some(0));
    assert_eq!(labels.get("b"), Some(0));
    assert_eq!(program.len(), 1);
}

#[test]
fn unknown_label_is_absent() {
    let (_, labels) = load("loop: INC R0").unwrap();
    assert_eq!(labels.get("Loop"), None);
    assert_eq!(labels.get("loo"), None);
    assert_eq!(labels.get(""), None);
}

#[test]
fn later_label_replaces_earlier() {
    let (program, labels) = load("a: INC R0\na: INC R1\nINC R2").unwrap();
    assert_eq!(labels.get("a"), Some(1));
    assert_eq!(program.len(), 3);
}

#[test]
fn lines_and_labels_are_trimmed() {
    let (program, labels) = load("  \t start  :   ZERO R0  \r\n\u{2003}INC R0\u{a0}\r\n").unwrap();
    assert_eq!(lines_of(&program), texts(&["ZERO R0", "INC R0"]));
    assert_eq!(labels.get("start"), Some(0));
}

#[test]
fn only_the_first_colon_splits() {
    let (program, labels) = load("a: b: INC R0").unwrap();
    assert_eq!(lines_of(&program), texts(&["b: INC R0"]));
    assert_eq!(labels.get("a"), Some(0));
    assert_eq!(labels.get("b"), None);
}

#[test]
fn label_may_hold_spaces_inside() {
    let (_, labels) = load("INC R0\n my label :").unwrap();
    assert_eq!(labels.get("my label"), Some(1));
}

#[test]
fn empty_label_fails() {
    assert_eq!(load(": INC R0").err(), Some(LoadError::EmptyLabel { line: 1 }));
    assert_eq!(load("   :").err(), Some(LoadError::EmptyLabel { line: 1 }));
}

#[test]
fn empty_label_line_is_counted_without_blank_lines() {
    let text = "INC R0\n\n\nlabel:\n   \n  : DEC R0\nZERO R0";
    assert_eq!(load(text).err(), Some(LoadError::EmptyLabel { line: 3 }));
}

#[test]
fn first_empty_label_is_reported() {
    assert_eq!(load("a: INC R0\n:\n:\n").err(), Some(LoadError::EmptyLabel { line: 2 }));
}

#[test]
fn text_that_is_no_instruction_still_loads() {
    let (program, _) = load("this is not an instruction\nnor, this").unwrap();
    assert_eq!(lines_of(&program), texts(&["this is not an instruction", "nor, this"]));
}

#[test]
fn loaded_labels_stay_within_the_program() {
    let (program, labels) = load("a:\nINC R0\nb: INC R1\nc:\n").unwrap();
    for name in ["a", "b", "c"] {
        assert!(labels.get(name).unwrap() <= program.len());
    }
    assert_eq!(labels.get("c"), Some(2));
}

#[test]
fn program_built_by_hand() {
    let mut program = Program::new();
    assert!(program.is_empty());
    assert_eq!(program.get(0), None);
    program.push("INC R0".to_string());
    program.push("DEC R0".to_string());
    assert_eq!(program.len(), 2);
    assert_eq!(program.get(0), Some("INC R0"));
    assert_eq!(program.get(1), Some("DEC R0"));
    assert_eq!(program.get(2), None);
    let same = Program::from_lines(texts(&["INC R0", "DEC R0"]));
    assert_eq!(program, same);
}

#[test]
fn label_table_built_by_hand() {
    let mut labels = LabelTable::new();
    assert!(labels.is_empty());
    assert_eq!(labels.get("a"), None);
    labels.insert("a".to_string(), 3);
    labels.insert("b".to_string(), 5);
    assert_eq!(labels.get("a"), Some(3));
    assert_eq!(labels.get("b"), Some(5));
    labels.insert("a".to_string(), 7);
    assert_eq!(labels.get("a"), Some(7));
    assert_eq!(labels.get("b"), Some(5));
    assert!(!labels.is_empty());
}
