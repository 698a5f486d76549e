use js_plugin::registry::{build_prelude, real_register_function, FunctionRegistry};

const RAW: &str = "const fns = [/** will be populated before it runs */];";

#[test]
fn register_then_get() {
    let mut reg = FunctionRegistry::new();
    assert_eq!(reg.len(), 0);
    real_register_function(&mut reg, "spawn".to_string(), 3, true);
    assert_eq!(reg.len(), 1);
    assert_eq!(reg.get(3), Some(("spawn".to_string(), true)));
    assert_eq!(reg.get(4), None);
}

#[test]
fn register_same_id_replaces() {
    let mut reg = FunctionRegistry::new();
    real_register_function(&mut reg, "first".to_string(), 9, false);
    real_register_function(&mut reg, "second".to_string(), 9, true);
    assert_eq!(reg.len(), 1);
    assert_eq!(reg.get(9), Some(("second".to_string(), true)));
}

#[test]
fn prelude_with_no_functions() {
    let reg = FunctionRegistry::new();
    assert_eq!(build_prelude(&reg, RAW), "const fns = [];");
}

#[test]
fn prelude_with_one_function() {
    let mut reg = FunctionRegistry::new();
    real_register_function(&mut reg, "log".to_string(), 0, false);
    assert_eq!(build_prelude(&reg, RAW), "const fns = [['log', 0, false],];");
}

#[test]
fn prelude_lists_each_function_once() {
    let mut reg = FunctionRegistry::new();
    real_register_function(&mut reg, "getPosition".to_string(), 12, false);
    real_register_function(&mut reg, "Vector3".to_string(), 4294967295, true);
    let out = build_prelude(&reg, RAW);
    let a = "['getPosition', 12, false],";
    let b = "['Vector3', 4294967295, true],";
    let one = format!("const fns = [{}{}];", a, b);
    let two = format!("const fns = [{}{}];", b, a);
    assert!(out == one || out == two, "unexpected prelude {}", out);
}

#[test]
fn prelude_without_marker_is_unchanged() {
    let mut reg = FunctionRegistry::new();
    real_register_function(&mut reg, "f".to_string(), 1, false);
    assert_eq!(build_prelude(&reg, "let x = 1;"), "let x = 1;");
}

#[test]
fn prelude_replaces_every_marker() {
    let mut reg = FunctionRegistry::new();
    real_register_function(&mut reg, "f".to_string(), 100, true);
    let raw = "/** will be populated before it runs */|/** will be populated before it runs */";
    assert_eq!(build_prelude(&reg, raw), "['f', 100, true],|['f', 100, true],");
}

#[test]
fn entries_list_each_function_once() {
    let mut reg = FunctionRegistry::new();
    real_register_function(&mut reg, "a".to_string(), 1, false);
    real_register_function(&mut reg, "b".to_string(), 2, true);
    real_register_function(&mut reg, "c".to_string(), 1, true);
    let mut e = reg.entries();
    e.sort();
    assert_eq!(e, vec![(1, "c".to_string(), true), (2, "b".to_string(), true)]);
}
