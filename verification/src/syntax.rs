//! Parsing source text with tree-sitter.
//!
//! The grammar crates and the parser are outside code; what comes back is
//! copied into a `SyntaxNode` tree, which the rest of the library walks.
use vstd::prelude::*;
use crate::semantic::{LanguageId, SyntaxNode};

verus! {

#[verifier::external_type_specification]
#[verifier::external_body]
pub struct ExLanguage(tree_sitter::Language);

#[verifier::external_type_specification]
#[verifier::external_body]
pub struct ExNode<'tree>(tree_sitter::Node<'tree>);

/// Parses `source` with the grammar of `tree-sitter-rust`,
/// `tree_sitter_rust::LANGUAGE`; the contract names the tree that comes back.
#[verifier::external_body]
fn parse_rust(source: &str) -> (r: Option<SyntaxNode>)
    ensures
        r == syntax_tree(LanguageId::Rust, source@),
{
    parse_source(tree_sitter_rust::LANGUAGE.into(), source)
}

/// Parses `source` with the grammar of `tree-sitter-python`,
/// `tree_sitter_python::LANGUAGE`; the contract names the tree that comes back.
#[verifier::external_body]
fn parse_python(source: &str) -> (r: Option<SyntaxNode>)
    ensures
        r == syntax_tree(LanguageId::Python, source@),
{
    parse_source(tree_sitter_python::LANGUAGE.into(), source)
}

/// Parses `source` with the grammar of `tree-sitter-javascript`,
/// `tree_sitter_javascript::LANGUAGE`; the contract names the tree that comes back.
#[verifier::external_body]
fn parse_javascript(source: &str) -> (r: Option<SyntaxNode>)
    ensures
        r == syntax_tree(LanguageId::JavaScript, source@),
{
    parse_source(tree_sitter_javascript::LANGUAGE.into(), source)
}

/// Parses `source` with the TypeScript grammar of `tree-sitter-typescript`,
/// `tree_sitter_typescript::LANGUAGE_TYPESCRIPT`; the contract names the tree that comes back.
#[verifier::external_body]
fn parse_typescript(source: &str) -> (r: Option<SyntaxNode>)
    ensures
        r == syntax_tree(LanguageId::TypeScript, source@),
{
    parse_source(tree_sitter_typescript::LANGUAGE_TYPESCRIPT.into(), source)
}

/// Parses `source` with the TSX grammar of `tree-sitter-typescript`,
/// `tree_sitter_typescript::LANGUAGE_TSX`; the contract names the tree that comes back.
#[verifier::external_body]
fn parse_tsx(source: &str) -> (r: Option<SyntaxNode>)
    ensures
        r == syntax_tree(LanguageId::Tsx, source@),
{
    parse_source(tree_sitter_typescript::LANGUAGE_TSX.into(), source)
}

/// Parses `source` with the grammar of `tree-sitter-go`,
/// `tree_sitter_go::LANGUAGE`; the contract names the tree that comes back.
#[verifier::external_body]
fn parse_go(source: &str) -> (r: Option<SyntaxNode>)
    ensures
        r == syntax_tree(LanguageId::Go, source@),
{
    parse_source(tree_sitter_go::LANGUAGE.into(), source)
}

/// Parses `source` with the grammar of `tree-sitter-c`,
/// `tree_sitter_c::LANGUAGE`; the contract names the tree that comes back.
#[verifier::external_body]
fn parse_c(source: &str) -> (r: Option<SyntaxNode>)
    ensures
        r == syntax_tree(LanguageId::C, source@),
{
    parse_source(tree_sitter_c::LANGUAGE.into(), source)
}

/// Parses `source` with the grammar of `tree-sitter-cpp`,
/// `tree_sitter_cpp::LANGUAGE`; the contract names the tree that comes back.
#[verifier::external_body]
fn parse_cpp(source: &str) -> (r: Option<SyntaxNode>)
    ensures
        r == syntax_tree(LanguageId::Cpp, source@),
{
    parse_source(tree_sitter_cpp::LANGUAGE.into(), source)
}

/// Parses `source` with the grammar of `tree-sitter-java`,
/// `tree_sitter_java::LANGUAGE`; the contract names the tree that comes back.
#[verifier::external_body]
fn parse_java(source: &str) -> (r: Option<SyntaxNode>)
    ensures
        r == syntax_tree(LanguageId::Java, source@),
{
    parse_source(tree_sitter_java::LANGUAGE.into(), source)
}

/// Parses `source` with the grammar of `tree-sitter-ruby`,
/// `tree_sitter_ruby::LANGUAGE`; the contract names the tree that comes back.
#[verifier::external_body]
fn parse_ruby(source: &str) -> (r: Option<SyntaxNode>)
    ensures
        r == syntax_tree(LanguageId::Ruby, source@),
{
    parse_source(tree_sitter_ruby::LANGUAGE.into(), source)
}

/// Parses `source` with the grammar of `tree-sitter-c-sharp`,
/// `tree_sitter_c_sharp::LANGUAGE`; the contract names the tree that comes back.
#[verifier::external_body]
fn parse_csharp(source: &str) -> (r: Option<SyntaxNode>)
    ensures
        r == syntax_tree(LanguageId::CSharp, source@),
{
    parse_source(tree_sitter_c_sharp::LANGUAGE.into(), source)
}

/// Parses `source` with the grammar of `tree-sitter-scala`,
/// `tree_sitter_scala::LANGUAGE`; the contract names the tree that comes back.
#[verifier::external_body]
fn parse_scala(source: &str) -> (r: Option<SyntaxNode>)
    ensures
        r == syntax_tree(LanguageId::Scala, source@),
{
    parse_source(tree_sitter_scala::LANGUAGE.into(), source)
}

/// Parses `source` with the grammar of `tree-sitter-swift`,
/// `tree_sitter_swift::LANGUAGE`; the contract names the tree that comes back.
#[verifier::external_body]
fn parse_swift(source: &str) -> (r: Option<SyntaxNode>)
    ensures
        r == syntax_tree(LanguageId::Swift, source@),
{
    parse_source(tree_sitter_swift::LANGUAGE.into(), source)
}

/// Parses `source` with the PHP grammar (PHP embedded in HTML) of `tree-sitter-php`,
/// `tree_sitter_php::LANGUAGE_PHP`; the contract names the tree that comes back.
#[verifier::external_body]
fn parse_php(source: &str) -> (r: Option<SyntaxNode>)
    ensures
        r == syntax_tree(LanguageId::Php, source@),
{
    parse_source(tree_sitter_php::LANGUAGE_PHP.into(), source)
}

/// Parses `source` with the grammar of `tree-sitter-bash`,
/// `tree_sitter_bash::LANGUAGE`; the contract names the tree that comes back.
#[verifier::external_body]
fn parse_bash(source: &str) -> (r: Option<SyntaxNode>)
    ensures
        r == syntax_tree(LanguageId::Bash, source@),
{
    parse_source(tree_sitter_bash::LANGUAGE.into(), source)
}

/// Parses `source` with the grammar of `tree-sitter-elixir`,
/// `tree_sitter_elixir::LANGUAGE`; the contract names the tree that comes back.
#[verifier::external_body]
fn parse_elixir(source: &str) -> (r: Option<SyntaxNode>)
    ensures
        r == syntax_tree(LanguageId::Elixir, source@),
{
    parse_source(tree_sitter_elixir::LANGUAGE.into(), source)
}

/// Parses `source` with the grammar of `tree-sitter-erlang`,
/// `tree_sitter_erlang::LANGUAGE`; the contract names the tree that comes back.
#[verifier::external_body]
fn parse_erlang(source: &str) -> (r: Option<SyntaxNode>)
    ensures
        r == syntax_tree(LanguageId::Erlang, source@),
{
    parse_source(tree_sitter_erlang::LANGUAGE.into(), source)
}

/// Parses `source` with the grammar of `tree-sitter-haskell`,
/// `tree_sitter_haskell::LANGUAGE`; the contract names the tree that comes back.
#[verifier::external_body]
fn parse_haskell(source: &str) -> (r: Option<SyntaxNode>)
    ensures
        r == syntax_tree(LanguageId::Haskell, source@),
{
    parse_source(tree_sitter_haskell::LANGUAGE.into(), source)
}

/// Parses `source` with the OCaml grammar (implementation files) of `tree-sitter-ocaml`,
/// `tree_sitter_ocaml::LANGUAGE_OCAML`; the contract names the tree that comes back.
#[verifier::external_body]
fn parse_ocaml(source: &str) -> (r: Option<SyntaxNode>)
    ensures
        r == syntax_tree(LanguageId::OCaml, source@),
{
    parse_source(tree_sitter_ocaml::LANGUAGE_OCAML.into(), source)
}

/// Parses `source` with the grammar of `tree-sitter-zig`,
/// `tree_sitter_zig::LANGUAGE`; the contract names the tree that comes back.
#[verifier::external_body]
fn parse_zig(source: &str) -> (r: Option<SyntaxNode>)
    ensures
        r == syntax_tree(LanguageId::Zig, source@),
{
    parse_source(tree_sitter_zig::LANGUAGE.into(), source)
}

/// Parses `source` with the grammar of `tree-sitter-lua`,
/// `tree_sitter_lua::LANGUAGE`; the contract names the tree that comes back.
#[verifier::external_body]
fn parse_lua(source: &str) -> (r: Option<SyntaxNode>)
    ensures
        r == syntax_tree(LanguageId::Lua, source@),
{
    parse_source(tree_sitter_lua::LANGUAGE.into(), source)
}

/// The tree that tree-sitter builds for `source` with the grammar of
/// `language`, as plain data; `None` when the parser takes no such grammar.
pub uninterp spec fn syntax_tree(language: LanguageId, source: Seq<char>) -> Option<SyntaxNode>;

/// The syntax tree of `source` in `language`.
pub(crate) fn parse_syntax(language: LanguageId, source: &str) -> (r: Option<SyntaxNode>)
    ensures
        r == syntax_tree(language, source@),
{
    match language {
        LanguageId::Rust => parse_rust(source),
        LanguageId::Python => parse_python(source),
        LanguageId::JavaScript => parse_javascript(source),
        LanguageId::TypeScript => parse_typescript(source),
        LanguageId::Tsx => parse_tsx(source),
        LanguageId::Go => parse_go(source),
        LanguageId::C => parse_c(source),
        LanguageId::Cpp => parse_cpp(source),
        LanguageId::Java => parse_java(source),
        LanguageId::Ruby => parse_ruby(source),
        LanguageId::CSharp => parse_csharp(source),
        LanguageId::Scala => parse_scala(source),
        LanguageId::Swift => parse_swift(source),
        LanguageId::Php => parse_php(source),
        LanguageId::Bash => parse_bash(source),
        LanguageId::Elixir => parse_elixir(source),
        LanguageId::Erlang => parse_erlang(source),
        LanguageId::Haskell => parse_haskell(source),
        LanguageId::OCaml => parse_ocaml(source),
        LanguageId::Zig => parse_zig(source),
        LanguageId::Lua => parse_lua(source),
    }
}

/// Runs a `tree_sitter::Parser` set to `grammar` (`Parser::new`,
/// `Parser::set_language`, then `Parser::parse` with no old tree) on
/// `source` and copies the root node; `None` when the parser refuses the
/// grammar. It states nothing of its own: each `parse_*` item that calls it
/// names what it gives for that item's grammar.
#[verifier::external_body]
fn parse_source(grammar: tree_sitter::Language, source: &str) -> Option<SyntaxNode> {
    let mut parser = tree_sitter::Parser::new();
    parser.set_language(&grammar).ok()?;
    let tree = parser.parse(source.as_bytes(), None)?;
    Some(syntax_node(tree.root_node(), source.as_bytes(), None))
}

/// Copies a tree-sitter node and all its children (`Node::child`,
/// `Node::field_name_for_child`, `Node::kind`, `Node::is_named`, the rows of
/// `Node::start_position` and `Node::end_position`, `Node::utf8_text`) into
/// a `SyntaxNode`; it converts the result of `parse_source` and states
/// nothing of its own.
#[verifier::external_body]
fn syntax_node(node: tree_sitter::Node, source: &[u8], field: Option<&str>) -> SyntaxNode {
    let children = (0..node.child_count()).filter_map(|i| node.child(i)
        .map(|c| syntax_node(c, source, node.field_name_for_child(i)))).collect();
    SyntaxNode {
        kind: node.kind().to_string(),
        named: node.is_named(),
        start_row: node.start_position().row,
        end_row: node.end_position().row,
        text: node.utf8_text(source).ok().map(|t| t.to_string()),
        field: field.map(|f| f.to_string()),
        children,
    }
}

} // verus!
