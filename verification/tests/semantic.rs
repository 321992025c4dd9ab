use jj_hunk::semantic::{contexts_for_lines, extension_from_path, get_lang_config, ParsedFile, SemanticContext};

#[test]
fn rust_function_detection() {
    let source = r#"
fn top_level() {
    let x = 1;
}

struct Foo;

impl Foo {
    fn method(&self) {
        let y = 2;
    }
}
"#;
    let parsed = ParsedFile::parse("rs", source).unwrap();

    // Line 3: inside top_level
    let ctx = parsed.context_at_line(3);
    assert_eq!(ctx.enclosing_function.as_deref(), Some("top_level"));
    assert_eq!(ctx.enclosing_scope, None);

    // Line 10: inside Foo::method
    let ctx = parsed.context_at_line(10);
    assert_eq!(ctx.enclosing_function.as_deref(), Some("method"));
    assert_eq!(ctx.enclosing_scope.as_deref(), Some("Foo"));
}

#[test]
fn python_function_detection() {
    let source = r#"
class MyClass:
    def my_method(self):
        x = 1
        return x

def standalone():
    pass
"#;
    let parsed = ParsedFile::parse("py", source).unwrap();

    // Line 4: inside MyClass.my_method
    let ctx = parsed.context_at_line(4);
    assert_eq!(ctx.enclosing_function.as_deref(), Some("my_method"));
    assert_eq!(ctx.enclosing_scope.as_deref(), Some("MyClass"));

    // Line 8: inside standalone
    let ctx = parsed.context_at_line(8);
    assert_eq!(ctx.enclosing_function.as_deref(), Some("standalone"));
}

#[test]
fn javascript_function_detection() {
    let source = r#"
function hello() {
    console.log("hi");
}

class Widget {
    render() {
        return null;
    }
}
"#;
    let parsed = ParsedFile::parse("js", source).unwrap();

    let ctx = parsed.context_at_line(3);
    assert_eq!(ctx.enclosing_function.as_deref(), Some("hello"));

    let ctx = parsed.context_at_line(8);
    assert_eq!(ctx.enclosing_function.as_deref(), Some("render"));
    assert_eq!(ctx.enclosing_scope.as_deref(), Some("Widget"));
}

#[test]
fn go_function_detection() {
    let source = r#"package main

func hello() {
    fmt.Println("hi")
}
"#;
    let parsed = ParsedFile::parse("go", source).unwrap();

    let ctx = parsed.context_at_line(4);
    assert_eq!(ctx.enclosing_function.as_deref(), Some("hello"));
}

#[test]
fn c_function_detection() {
    let source = r#"
int main(int argc, char **argv) {
    return 0;
}
"#;
    let parsed = ParsedFile::parse("c", source).unwrap();

    let ctx = parsed.context_at_line(3);
    assert_eq!(ctx.enclosing_function.as_deref(), Some("main"));
}

#[test]
fn unsupported_extension_returns_none() {
    assert!(ParsedFile::parse("xyz", "anything").is_none());
}

#[test]
fn batch_contexts() {
    let source = r#"
fn alpha() {
    let a = 1;
}

fn beta() {
    let b = 2;
}
"#;
    let results = contexts_for_lines("rs", source, &[3, 7]);
    assert_eq!(results[0].enclosing_function.as_deref(), Some("alpha"));
    assert_eq!(results[1].enclosing_function.as_deref(), Some("beta"));
}

#[test]
fn scala_function_detection() {
    let source = r#"
object Main {
  def hello(): Unit = {
    println("hi")
  }
}
"#;
    let parsed = ParsedFile::parse("scala", source).unwrap();
    let ctx = parsed.context_at_line(4);
    assert_eq!(ctx.enclosing_function.as_deref(), Some("hello"));
    assert_eq!(ctx.enclosing_scope.as_deref(), Some("Main"));
}

#[test]
fn php_function_detection() {
    let source = r#"<?php
class UserService {
    public function getUser($id) {
        return $id;
    }
}
?>"#;
    let parsed = ParsedFile::parse("php", source).unwrap();
    let ctx = parsed.context_at_line(4);
    assert_eq!(ctx.enclosing_function.as_deref(), Some("getUser"));
    assert_eq!(ctx.enclosing_scope.as_deref(), Some("UserService"));
}

#[test]
fn bash_function_detection() {
    let source = r#"#!/bin/bash
my_func() {
    echo "hello"
}
"#;
    let parsed = ParsedFile::parse("sh", source).unwrap();
    let ctx = parsed.context_at_line(3);
    assert_eq!(ctx.enclosing_function.as_deref(), Some("my_func"));
}

#[test]
fn haskell_function_detection() {
    let source = r#"
module Main where

factorial :: Int -> Int
factorial 0 = 1
factorial n = n * factorial (n - 1)
"#;
    let parsed = ParsedFile::parse("hs", source).unwrap();
    let ctx = parsed.context_at_line(6);
    assert_eq!(ctx.enclosing_function.as_deref(), Some("factorial"));
}

#[test]
fn zig_function_detection() {
    let source = r#"
const std = @import("std");

fn add(a: i32, b: i32) i32 {
    return a + b;
}
"#;
    let parsed = ParsedFile::parse("zig", source).unwrap();
    let ctx = parsed.context_at_line(5);
    assert_eq!(ctx.enclosing_function.as_deref(), Some("add"));
}

#[test]
fn lua_function_detection() {
    let source = r#"
function greet(name)
    print("Hello, " .. name)
end
"#;
    let parsed = ParsedFile::parse("lua", source).unwrap();
    let ctx = parsed.context_at_line(3);
    assert_eq!(ctx.enclosing_function.as_deref(), Some("greet"));
}

#[test]
fn erlang_function_detection() {
    let source = r#"-module(hello).
-export([greet/0]).

greet() ->
    io:format("Hello~n").
"#;
    let parsed = ParsedFile::parse("erl", source).unwrap();
    let ctx = parsed.context_at_line(5);
    assert_eq!(ctx.enclosing_function.as_deref(), Some("greet"));
}

// --- tests for new semantic predicates ---

#[test]
fn rust_annotation_detection() {
    let source = r#"
#[test]
fn my_test() {
    assert!(true);
}

fn plain() {
    let x = 1;
}
"#;
    let parsed = ParsedFile::parse("rs", source).unwrap();

    // Line 4: inside #[test] fn my_test
    let ctx = parsed.context_at_line(4);
    assert_eq!(ctx.enclosing_function.as_deref(), Some("my_test"));
    assert!(ctx.annotations.iter().any(|a| a.contains("test")));

    // Line 8: inside plain (no annotations)
    let ctx = parsed.context_at_line(8);
    assert_eq!(ctx.enclosing_function.as_deref(), Some("plain"));
    assert!(ctx.annotations.is_empty());
}

#[test]
fn python_decorator_detection() {
    let source = r#"
class API:
    @app.route("/users")
    def get_users(self):
        return []
"#;
    let parsed = ParsedFile::parse("py", source).unwrap();

    let ctx = parsed.context_at_line(5);
    assert_eq!(ctx.enclosing_function.as_deref(), Some("get_users"));
    assert!(ctx.annotations.iter().any(|a| a.contains("app.route")));
}

#[test]
fn java_annotation_detection() {
    let source = r#"
public class MyTest {
    @Test
    @Override
    public void testSomething() {
        assert true;
    }
}
"#;
    let parsed = ParsedFile::parse("java", source).unwrap();

    let ctx = parsed.context_at_line(6);
    assert_eq!(ctx.enclosing_function.as_deref(), Some("testSomething"));
    assert!(ctx.annotations.iter().any(|a| a.contains("Test")));
}

#[test]
fn rust_import_detection() {
    let source = r#"
use std::collections::HashMap;
use anyhow::Result;

fn main() {
    let x = 1;
}
"#;
    let parsed = ParsedFile::parse("rs", source).unwrap();

    // Line 2: import
    let ctx = parsed.context_at_line(2);
    assert!(ctx.is_import);
    assert!(ctx.is_toplevel);

    // Line 6: inside main
    let ctx = parsed.context_at_line(6);
    assert!(!ctx.is_import);
    assert!(!ctx.is_toplevel);
}

#[test]
fn toplevel_and_depth() {
    let source = r#"
const X: i32 = 1;

impl Foo {
    fn method(&self) {
        let y = 2;
    }
}
"#;
    let parsed = ParsedFile::parse("rs", source).unwrap();

    // Line 2: top-level const
    let ctx = parsed.context_at_line(2);
    assert!(ctx.is_toplevel);
    assert_eq!(ctx.nesting_depth, 0);

    // Line 6: inside Foo::method (depth 2: impl + fn)
    let ctx = parsed.context_at_line(6);
    assert!(!ctx.is_toplevel);
    assert_eq!(ctx.nesting_depth, 2);
}

#[test]
fn doc_comment_detection() {
    let source = r#"
/// This is a doc comment
/// for the function below.
fn documented() {
    let x = 1;
}
"#;
    let parsed = ParsedFile::parse("rs", source).unwrap();

    // Line 2: doc comment line
    let ctx = parsed.context_at_line(2);
    assert!(ctx.is_doc_comment);

    // Line 5: inside the function body
    let ctx = parsed.context_at_line(5);
    assert!(!ctx.is_doc_comment);
}

#[test]
fn js_arrow_function_detection() {
    let source = r#"
const handler = () => {
    return 42;
};
"#;
    let parsed = ParsedFile::parse("js", source).unwrap();
    // Line 3: inside arrow function body — not toplevel
    let ctx = parsed.context_at_line(3);
    assert!(!ctx.is_toplevel);
    // Arrow functions are anonymous — no enclosing_function name
    assert_eq!(ctx.enclosing_function, None);
}

#[test]
fn rust_import_not_doc() {
    let source = r#"
// Regular comment
use std::io;
/// Doc comment
fn foo() {}
"#;
    let parsed = ParsedFile::parse("rs", source).unwrap();

    // Line 2: regular comment — NOT a doc comment
    let ctx = parsed.context_at_line(2);
    assert!(!ctx.is_doc_comment);

    // Line 3: import
    let ctx = parsed.context_at_line(3);
    assert!(ctx.is_import);

    // Line 4: doc comment
    let ctx = parsed.context_at_line(4);
    assert!(ctx.is_doc_comment);
}

#[test]
fn deep_nesting_depth() {
    let source = r#"
mod outer {
    impl Foo {
        fn deep() {
            let x = 1;
        }
    }
}
"#;
    let parsed = ParsedFile::parse("rs", source).unwrap();
    let ctx = parsed.context_at_line(5);
    assert_eq!(ctx.nesting_depth, 3); // mod + impl + fn
    assert_eq!(ctx.enclosing_function.as_deref(), Some("deep"));
}

#[test]
fn elixir_function_and_module_detection() {
    let source = r#"
defmodule MyApp.Users do
  import Ecto.Query

  def get_user(id) do
    Repo.get(User, id)
  end

  defp helper do
    :ok
  end
end
"#;
    let parsed = ParsedFile::parse("ex", source).unwrap();

    // Line 6: inside MyApp.Users.get_user
    let ctx = parsed.context_at_line(6);
    assert_eq!(ctx.enclosing_function.as_deref(), Some("get_user"));
    assert_eq!(ctx.enclosing_scope.as_deref(), Some("MyApp.Users"));
    assert!(!ctx.is_toplevel);

    // Line 10: inside helper (defp)
    let ctx = parsed.context_at_line(10);
    assert_eq!(ctx.enclosing_function.as_deref(), Some("helper"));

    // Line 3: import line
    let ctx = parsed.context_at_line(3);
    assert!(ctx.is_import);
}

#[test]
fn python_docstring_detection() {
    let source = r#"
class MyClass:
    """Class docstring."""

    def method(self):
        """Method docstring."""
        x = "not a docstring"
        return x
"#;
    let parsed = ParsedFile::parse("py", source).unwrap();

    // Line 3: class docstring
    let ctx = parsed.context_at_line(3);
    assert!(ctx.is_doc_comment);

    // Line 6: method docstring
    let ctx = parsed.context_at_line(6);
    assert!(ctx.is_doc_comment);

    // Line 7: regular string assignment — NOT a docstring
    let ctx = parsed.context_at_line(7);
    assert!(!ctx.is_doc_comment);
}

#[test]
fn go_doc_comment_detection() {
    let source = r#"package main

// Hello greets the world.
// It is a doc comment.
func Hello() string {
    return "hello"
}

// just a random comment
var x = 1
"#;
    let parsed = ParsedFile::parse("go", source).unwrap();

    // Line 3: doc comment before func
    let ctx = parsed.context_at_line(3);
    assert!(ctx.is_doc_comment);

    // Line 4: also doc comment (multi-line, before func)
    let ctx = parsed.context_at_line(4);
    assert!(ctx.is_doc_comment);

    // Line 6: inside function body, not a comment
    let ctx = parsed.context_at_line(6);
    assert!(!ctx.is_doc_comment);

    // Line 9: comment before var — also a doc comment
    let ctx = parsed.context_at_line(9);
    assert!(ctx.is_doc_comment);
}

#[test]
fn ruby_require_detection() {
    let source = r#"
require "json"
require_relative "helper"

class Foo
  def bar
    42
  end
end
"#;
    let parsed = ParsedFile::parse("rb", source).unwrap();

    // Line 2: require
    let ctx = parsed.context_at_line(2);
    assert!(ctx.is_import);

    // Line 3: require_relative
    let ctx = parsed.context_at_line(3);
    assert!(ctx.is_import);

    // Line 7: inside method, not an import
    let ctx = parsed.context_at_line(7);
    assert!(!ctx.is_import);
    assert_eq!(ctx.enclosing_function.as_deref(), Some("bar"));
}

#[test]
fn extension_of_paths() {
    assert_eq!(extension_from_path("src/main.rs"), "rs");
    assert_eq!(extension_from_path("a/b/c.test.py"), "py");
    assert_eq!(extension_from_path("Makefile"), "");
    assert_eq!(extension_from_path(".bashrc"), "");
    assert_eq!(extension_from_path("dir.d/file"), "");
}

#[test]
fn line_zero_has_empty_context() {
    let parsed = ParsedFile::parse("rs", "fn a() {\n}\n").unwrap();
    let ctx = parsed.context_at_line(0);
    assert_eq!(ctx.enclosing_function, None);
    assert!(!ctx.is_toplevel);
    assert_eq!(ctx.nesting_depth, 0);
}

#[test]
fn unsupported_extension_gives_default_contexts() {
    let results = contexts_for_lines("xyz", "fn a() {}\n", &[0, 1, 2]);
    assert_eq!(results.len(), 3);
    for ctx in results {
        assert_eq!(ctx.enclosing_function, None);
        assert_eq!(ctx.enclosing_scope, None);
        assert!(ctx.annotations.is_empty());
        assert!(!ctx.is_toplevel);
        assert!(!ctx.is_import);
    }
}

#[test]
fn default_context_is_empty() {
    let ctx = SemanticContext::default();
    assert_eq!(ctx.enclosing_function, None);
    assert_eq!(ctx.nesting_depth, 0);
    assert!(!ctx.is_toplevel);
}

#[test]
fn annotations_are_trimmed_and_not_repeated() {
    let source = "#[test]\n#[test]\nfn twice() {\n    let x = 1;\n}\n";
    let parsed = ParsedFile::parse("rs", source).unwrap();
    let ctx = parsed.context_at_line(4);
    assert_eq!(ctx.enclosing_function.as_deref(), Some("twice"));
    assert_eq!(ctx.annotations, vec!["#[test]".to_string()]);
}

#[test]
fn tsx_and_ts_share_kinds() {
    assert!(get_lang_config("ts").is_some());
    assert!(get_lang_config("tsx").is_some());
    assert!(get_lang_config("md").is_none());
    let parsed = ParsedFile::parse("tsx", "function f() {\n  return <div/>;\n}\n").unwrap();
    let ctx = parsed.context_at_line(2);
    assert_eq!(ctx.enclosing_function.as_deref(), Some("f"));
}

#[test]
fn rust_nested_function_depth_and_toplevel_line() {
    let source = "fn outer() {\n    fn inner() {\n        let x = 1;\n    }\n}\nconst Y: i32 = 2;\n";
    let parsed = ParsedFile::parse("rs", source).unwrap();
    let ctx = parsed.context_at_line(3);
    assert_eq!(ctx.enclosing_function.as_deref(), Some("inner"));
    assert_eq!(ctx.nesting_depth, 2);
    let ctx = parsed.context_at_line(6);
    assert!(ctx.is_toplevel);
    assert_eq!(ctx.nesting_depth, 0);
}
