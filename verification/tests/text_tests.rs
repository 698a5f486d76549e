use js_plugin::console::{compose_script, copy_path_for, js_print_line};
use js_plugin::text::{chars_of, replace_all_exec};

#[test]
fn copy_path_of_script() {
    assert_eq!(copy_path_for("app.js"), "app.copy.js");
    assert_eq!(copy_path_for("dir.js/app.js"), "dir.copy.js/app.copy.js");
    assert_eq!(copy_path_for("app.ts"), "app.ts");
}

#[test]
fn replace_is_left_to_right_and_non_overlapping() {
    assert_eq!(replace_all_exec("aaa", "aa", "X"), "Xa");
    assert_eq!(replace_all_exec("abab", "ab", "ab!"), "ab!ab!");
    assert_eq!(replace_all_exec("", "a", "b"), "");
    assert_eq!(replace_all_exec("héllo", "é", "e"), "hello");
}

#[test]
fn chars_in_order() {
    assert_eq!(chars_of("aé"), vec!['a', 'é']);
}

#[test]
fn script_with_prelude() {
    assert_eq!(compose_script("let a;\n", "a = 1;"), "let a;\na = 1;");
}

#[test]
fn print_line_has_tag_then_message() {
    // Colour is a process-wide setting, so every check on it stays in this
    // one test.
    let line = js_print_line("hi");
    assert!(
        line == "[JS] hi"
            || line == "\u{1b}[33m[JS]\u{1b}[0m hi"
            || line == "[JS]\u{1b}[0m hi",
        "unexpected line {:?}",
        line
    );
    colored::control::set_override(true);
    assert_eq!(js_print_line("ready"), "\u{1b}[33m[JS]\u{1b}[0m ready");
    colored::control::set_override(false);
    assert_eq!(js_print_line("ready"), "[JS] ready");
    colored::control::unset_override();
}
