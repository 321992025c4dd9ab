use jj_hunk::glob::glob_match;

#[test]
fn basic_glob() {
    assert!(glob_match("*.rs", "lib.rs"));
    assert!(glob_match("*.rs", "src/lib.rs")); // filename-only when no /
    assert!(!glob_match("*.rs", "lib.py"));
}

#[test]
fn path_glob() {
    assert!(glob_match("src/**/*.rs", "src/lib.rs"));
    assert!(glob_match("src/**/*.rs", "src/sub/lib.rs"));
    assert!(!glob_match("src/**/*.rs", "tests/lib.rs"));
}

#[test]
fn question_mark() {
    assert!(glob_match("?.rs", "a.rs"));
    assert!(!glob_match("?.rs", "ab.rs"));
}

#[test]
fn exact_path() {
    assert!(glob_match("src/lib.rs", "src/lib.rs"));
    assert!(!glob_match("src/lib.rs", "src/main.rs"));
}

#[test]
fn glob_strips_leading_dot_slash() {
    assert!(glob_match("./src/*.rs", "src/lib.rs"));
    assert!(glob_match("src/*.rs", "./src/lib.rs"));
}

#[test]
fn glob_double_star_matches_zero_segments() {
    assert!(glob_match("**/lib.rs", "lib.rs"));
    assert!(glob_match("src/**", "src"));
    assert!(!glob_match("src/*", "src"));
}
