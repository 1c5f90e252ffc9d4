use arena::fallback::{contains_chars, plan_fallback, FallbackAction};

fn chars(args: &[&str]) -> Vec<Vec<char>> {
    args.iter().map(|a| a.chars().collect()).collect()
}

#[test]
fn copy_tool_copies_first_to_second() {
    let args = chars(&["/usr/bin/cp", "a.wasm", "b.wasm"]);
    assert_eq!(plan_fallback(&args, &vec![false; 3]), FallbackAction::Copy { from: 1, to: 2 });
}

#[test]
fn copy_tool_with_too_few_arguments_scans() {
    let args = chars(&["cp", "a.wasm"]);
    assert_eq!(plan_fallback(&args, &vec![false, true]), FallbackAction::Nothing);
}

#[test]
fn stripper_does_nothing() {
    let args = chars(&["wasm-strip", "in.wasm", "-o", "out.wasm"]);
    assert_eq!(plan_fallback(&args, &vec![false, true, false, false]), FallbackAction::Nothing);
}

#[test]
fn optimiser_copies_last_existing_input_to_output() {
    let args = chars(&["wasm-opt", "-Oz", "a.wasm", "-o", "out.wasm", "b.wasm", "missing.wasm"]);
    let present = vec![true, false, true, false, true, true, false];
    assert_eq!(plan_fallback(&args, &present), FallbackAction::Copy { from: 5, to: 4 });
}

#[test]
fn output_value_is_never_an_input() {
    let args = chars(&["wasm-opt", "-o", "exists.wasm"]);
    assert_eq!(plan_fallback(&args, &vec![true, true, true]), FallbackAction::Nothing);
}

#[test]
fn trailing_flag_without_value() {
    let args = chars(&["wasm-opt", "a.wasm", "-o"]);
    assert_eq!(plan_fallback(&args, &vec![true, true, true]), FallbackAction::Nothing);
}

#[test]
fn no_arguments() {
    assert_eq!(plan_fallback(&Vec::new(), &Vec::new()), FallbackAction::Nothing);
}

#[test]
fn substring_search() {
    let s: Vec<char> = "wasm-opt".chars().collect();
    assert!(contains_chars(&s, &"m-o".chars().collect()));
    assert!(contains_chars(&s, &Vec::new()));
    assert!(!contains_chars(&s, &"cp".chars().collect()));
    assert!(!contains_chars(&"c".chars().collect(), &"cp".chars().collect()));
}
