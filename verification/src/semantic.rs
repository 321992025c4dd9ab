//! Semantic context of source lines: the function and scope a line sits in,
//! its annotations, and whether it is a doc comment or an import.
//!
//! A source file is parsed by tree-sitter into a syntax tree, which this
//! module holds as plain data (`SyntaxNode`) and walks.
use vstd::prelude::*;
use crate::syntax::{parse_syntax, syntax_tree};
use crate::text::{chars_of, chars_start_with, starts_with, str_eq, trim, trim_start,
    trim_start_bound, trim_string};

verus! {

/// Semantic context extracted for a given line in a source file.
#[derive(Debug, Clone)]
pub struct SemanticContext {
    /// Name of the enclosing function/method, if any.
    pub enclosing_function: Option<String>,
    /// Name of the enclosing scope (class, struct, impl, module, etc.), if any.
    pub enclosing_scope: Option<String>,
    /// Annotations/decorators on the enclosing function/scope.
    pub annotations: Vec<String>,
    /// Whether the line is inside a doc comment or docstring.
    pub is_doc_comment: bool,
    /// Whether the line is an import/use/require statement.
    pub is_import: bool,
    /// Whether the line is at the top level (not inside any function or scope).
    pub is_toplevel: bool,
    /// Nesting depth of enclosing scopes (0 = top level).
    pub nesting_depth: usize,
}

/// What `std::path::Path::extension` gives for the path `p`.
pub uninterp spec fn path_extension(p: Seq<char>) -> Option<Seq<char>>;

/// Calls `std::path::Path::extension`; the contract claims that, on the
/// platform the crate is built for, the result depends on the path's text
/// alone.
#[verifier::external_body]
pub(crate) fn extension_of(path: &str) -> (r: Option<&str>)
    ensures
        match path_extension(path@) {
            Some(e) => r matches Some(x) && x@ == e,
            None => r is None,
        },
{
    std::path::Path::new(path).extension().and_then(|e| e.to_str())
}

/// The extension of `path`, or `""` when it has none.
pub open spec fn extension_or_empty(path: Seq<char>) -> Seq<char> {
    match path_extension(path) {
        Some(e) => e,
        None => Seq::empty(),
    }
}

/// Extract the file extension from a path.
pub fn extension_from_path(path: &str) -> (r: &str)
    ensures
        r@ == extension_or_empty(path@),
{
    match extension_of(path) {
        Some(e) => e,
        None => {
            let empty = "";
            proof {
                reveal_strlit("");
            }
            empty
        },
    }
}

// ---------------------------------------------------------------------------
// Syntax trees
// ---------------------------------------------------------------------------

/// A node of a syntax tree, as plain data.
#[derive(Debug)]
pub struct SyntaxNode {
    pub kind: String,
    /// Whether the grammar names this node (anonymous tokens are not named).
    pub named: bool,
    /// First and last 0-based rows the node spans.
    pub start_row: usize,
    pub end_row: usize,
    /// The node's source text, when it is valid UTF-8.
    pub text: Option<String>,
    /// The field under which the parent holds this node, if any.
    pub field: Option<String>,
    pub children: Vec<SyntaxNode>,
}

pub open spec fn opt_text(t: Option<String>) -> Option<Seq<char>> {
    match t {
        Some(s) => Some(s@),
        None => None,
    }
}

pub open spec fn spans_line(n: SyntaxNode, line: usize) -> bool {
    n.start_row <= line && n.end_row >= line
}

/// The first child at or after `j` held under the field `name`.
pub open spec fn field_child_from(cs: Seq<SyntaxNode>, name: Seq<char>, j: int) -> Option<int>
    decreases cs.len() - j,
{
    if j < 0 || j >= cs.len() {
        None
    } else if opt_text(cs[j].field) == Some(name) {
        Some(j)
    } else {
        field_child_from(cs, name, j + 1)
    }
}

/// The first child at or after `j` of the given kind.
pub open spec fn kind_child_from(cs: Seq<SyntaxNode>, kind: Seq<char>, j: int) -> Option<int>
    decreases cs.len() - j,
{
    if j < 0 || j >= cs.len() {
        None
    } else if cs[j].kind@ == kind {
        Some(j)
    } else {
        kind_child_from(cs, kind, j + 1)
    }
}

/// The first named child at or after `j`.
pub open spec fn named_from(cs: Seq<SyntaxNode>, j: int) -> Option<int>
    decreases cs.len() - j,
{
    if j < 0 || j >= cs.len() {
        None
    } else if cs[j].named {
        Some(j)
    } else {
        named_from(cs, j + 1)
    }
}

/// The last named sibling before `j`.
pub open spec fn named_before(cs: Seq<SyntaxNode>, j: int) -> Option<int>
    decreases j,
{
    if j <= 0 || j > cs.len() {
        None
    } else if cs[j - 1].named {
        Some(j - 1)
    } else {
        named_before(cs, j - 1)
    }
}

/// The text of the child held under the field `name`.
pub open spec fn field_text(n: SyntaxNode, name: Seq<char>) -> Option<Seq<char>> {
    match field_child_from(n.children@, name, 0) {
        Some(j) => opt_text(n.children@[j].text),
        None => None,
    }
}

/// The text of the first child of the given kind.
pub open spec fn kind_text(n: SyntaxNode, kind: Seq<char>) -> Option<Seq<char>> {
    match kind_child_from(n.children@, kind, 0) {
        Some(j) => opt_text(n.children@[j].text),
        None => None,
    }
}

fn opt_string_ref(t: &Option<String>) -> (r: Option<String>)
    ensures
        opt_text(r) == opt_text(*t),
{
    match t {
        Some(s) => Some(s.clone()),
        None => None,
    }
}

fn field_child(cs: &Vec<SyntaxNode>, name: &str) -> (r: Option<usize>)
    ensures
        match field_child_from(cs@, name@, 0) {
            Some(j) => r matches Some(k) && k == j && 0 <= j < cs@.len(),
            None => r is None,
        },
{
    let n = cs.len();
    let mut j: usize = 0;
    while j < n
        invariant
            n == cs@.len(),
            j <= n,
            field_child_from(cs@, name@, 0) == field_child_from(cs@, name@, j as int),
        decreases n - j,
    {
        let hit = match &cs[j].field {
            Some(f) => str_eq(f.as_str(), name),
            None => false,
        };
        if hit {
            return Some(j);
        }
        j += 1;
    }
    None
}

fn kind_child(cs: &Vec<SyntaxNode>, kind: &str) -> (r: Option<usize>)
    ensures
        match kind_child_from(cs@, kind@, 0) {
            Some(j) => r matches Some(k) && k == j && 0 <= j < cs@.len(),
            None => r is None,
        },
{
    let n = cs.len();
    let mut j: usize = 0;
    while j < n
        invariant
            n == cs@.len(),
            j <= n,
            kind_child_from(cs@, kind@, 0) == kind_child_from(cs@, kind@, j as int),
        decreases n - j,
    {
        if str_eq(cs[j].kind.as_str(), kind) {
            return Some(j);
        }
        j += 1;
    }
    None
}

fn first_named(cs: &Vec<SyntaxNode>) -> (r: Option<usize>)
    ensures
        match named_from(cs@, 0) {
            Some(j) => r matches Some(k) && k == j && 0 <= j < cs@.len(),
            None => r is None,
        },
{
    let n = cs.len();
    let mut j: usize = 0;
    while j < n
        invariant
            n == cs@.len(),
            j <= n,
            named_from(cs@, 0) == named_from(cs@, j as int),
        decreases n - j,
    {
        if cs[j].named {
            return Some(j);
        }
        j += 1;
    }
    None
}

fn prev_named(cs: &Vec<SyntaxNode>, idx: usize) -> (r: Option<usize>)
    requires
        idx <= cs@.len(),
    ensures
        match named_before(cs@, idx as int) {
            Some(j) => r matches Some(k) && k == j && 0 <= j < idx,
            None => r is None,
        },
{
    let mut j: usize = idx;
    while j > 0
        invariant
            j <= idx <= cs@.len(),
            named_before(cs@, idx as int) == named_before(cs@, j as int),
        decreases j,
    {
        if cs[j - 1].named {
            return Some(j - 1);
        }
        j -= 1;
    }
    None
}

fn field_text_exec(n: &SyntaxNode, name: &str) -> (r: Option<String>)
    ensures
        opt_text(r) == field_text(*n, name@),
{
    match field_child(&n.children, name) {
        Some(j) => opt_string_ref(&n.children[j].text),
        None => None,
    }
}

fn kind_text_exec(n: &SyntaxNode, kind: &str) -> (r: Option<String>)
    ensures
        opt_text(r) == kind_text(*n, kind@),
{
    match kind_child(&n.children, kind) {
        Some(j) => opt_string_ref(&n.children[j].text),
        None => None,
    }
}

// ---------------------------------------------------------------------------
// Languages
// ---------------------------------------------------------------------------

/// The languages whose files can be analyzed.
#[derive(Debug, Clone, Copy, PartialEq, Eq, Structural)]
pub enum LanguageId {
    Rust,
    Python,
    JavaScript,
    TypeScript,
    Tsx,
    Go,
    C,
    Cpp,
    Java,
    Ruby,
    CSharp,
    Scala,
    Swift,
    Php,
    Bash,
    Elixir,
    Erlang,
    Haskell,
    OCaml,
    Zig,
    Lua,
}

/// How the name of a function or scope node is found.
#[derive(Debug, Clone, Copy)]
pub enum NameExtractor {
    /// The child in the `name` field.
    NameField,
    /// The `name` field, else the `type` field (Rust `impl` blocks).
    NameOrTypeField,
    /// C/C++: the declarator of the function declarator in the `declarator`
    /// field.
    CDeclarator,
    /// The first child of the given kind.
    FirstChildOfKind(&'static str),
    /// The child in the `pattern` field (OCaml `let` bindings).
    PatternField,
    /// The `name` field, else the first `field_identifier` child (Go methods).
    NameOrFieldIdentifier,
}

/// How a comment is recognized as a doc comment.
#[derive(Debug, Clone)]
pub enum DocCommentCheck {
    /// Its text, less leading whitespace, starts with one of these.
    Prefixes(Vec<&'static str>),
    /// It is a node of this kind.
    NodeKind(&'static str),
    /// The next named sibling that is not a comment is one of these
    /// declarations.
    BeforeDeclaration(Vec<&'static str>),
    /// A string expression statement that opens its block (Python).
    PythonDocstring,
    /// The language has no doc comments to recognize.
    Unchecked,
}

/// The node kinds and rules of one language.
#[derive(Debug, Clone)]
pub struct LangConfig {
    pub language: LanguageId,
    pub function_kinds: Vec<&'static str>,
    pub scope_kinds: Vec<&'static str>,
    pub function_name_extractor: NameExtractor,
    pub scope_name_extractor: NameExtractor,
    pub annotation_kinds: Vec<&'static str>,
    pub comment_kinds: Vec<&'static str>,
    pub doc_comment_check: DocCommentCheck,
    pub import_kinds: Vec<&'static str>,
    /// For macro-based languages (Elixir): targets of `call` nodes that
    /// define functions.
    pub call_function_targets: Vec<&'static str>,
    /// Targets of `call` nodes that define scopes.
    pub call_scope_targets: Vec<&'static str>,
    /// Targets of `call` nodes that import.
    pub call_import_targets: Vec<&'static str>,
}

pub enum ExtractorV {
    NameField,
    NameOrTypeField,
    CDeclarator,
    FirstChildOfKind(&'static str),
    PatternField,
    NameOrFieldIdentifier,
}

#[verifier::ext_equal]
pub enum DocCheckV {
    Prefixes(Seq<&'static str>),
    NodeKind(&'static str),
    BeforeDeclaration(Seq<&'static str>),
    PythonDocstring,
    Unchecked,
}

#[verifier::ext_equal]
pub struct ConfigV {
    pub language: LanguageId,
    pub function_kinds: Seq<&'static str>,
    pub scope_kinds: Seq<&'static str>,
    pub function_name: ExtractorV,
    pub scope_name: ExtractorV,
    pub annotation_kinds: Seq<&'static str>,
    pub comment_kinds: Seq<&'static str>,
    pub doc_check: DocCheckV,
    pub import_kinds: Seq<&'static str>,
    pub call_function_targets: Seq<&'static str>,
    pub call_scope_targets: Seq<&'static str>,
    pub call_import_targets: Seq<&'static str>,
}

impl NameExtractor {
    pub open spec fn view(&self) -> ExtractorV {
        match self {
            NameExtractor::NameField => ExtractorV::NameField,
            NameExtractor::NameOrTypeField => ExtractorV::NameOrTypeField,
            NameExtractor::CDeclarator => ExtractorV::CDeclarator,
            NameExtractor::FirstChildOfKind(k) => ExtractorV::FirstChildOfKind(*k),
            NameExtractor::PatternField => ExtractorV::PatternField,
            NameExtractor::NameOrFieldIdentifier => ExtractorV::NameOrFieldIdentifier,
        }
    }
}

impl DocCommentCheck {
    pub open spec fn view(&self) -> DocCheckV {
        match self {
            DocCommentCheck::Prefixes(v) => DocCheckV::Prefixes(v@),
            DocCommentCheck::NodeKind(k) => DocCheckV::NodeKind(*k),
            DocCommentCheck::BeforeDeclaration(v) => DocCheckV::BeforeDeclaration(v@),
            DocCommentCheck::PythonDocstring => DocCheckV::PythonDocstring,
            DocCommentCheck::Unchecked => DocCheckV::Unchecked,
        }
    }
}

impl LangConfig {
    pub open spec fn view(&self) -> ConfigV {
        ConfigV {
            language: self.language,
            function_kinds: self.function_kinds@,
            scope_kinds: self.scope_kinds@,
            function_name: self.function_name_extractor@,
            scope_name: self.scope_name_extractor@,
            annotation_kinds: self.annotation_kinds@,
            comment_kinds: self.comment_kinds@,
            doc_check: self.doc_comment_check@,
            import_kinds: self.import_kinds@,
            call_function_targets: self.call_function_targets@,
            call_scope_targets: self.call_scope_targets@,
            call_import_targets: self.call_import_targets@,
        }
    }
}

/// The language an extension names, if it is supported.
pub open spec fn language_for_spec(ext: Seq<char>) -> Option<LanguageId> {
    if ext == "rs"@ {
        Some(LanguageId::Rust)
    } else if ext == "py"@ {
        Some(LanguageId::Python)
    } else if ext == "js"@ || ext == "mjs"@ || ext == "cjs"@ || ext == "jsx"@ {
        Some(LanguageId::JavaScript)
    } else if ext == "ts"@ {
        Some(LanguageId::TypeScript)
    } else if ext == "tsx"@ {
        Some(LanguageId::Tsx)
    } else if ext == "go"@ {
        Some(LanguageId::Go)
    } else if ext == "c"@ || ext == "h"@ {
        Some(LanguageId::C)
    } else if ext == "cc"@ || ext == "cpp"@ || ext == "cxx"@ || ext == "hpp"@ || ext == "hxx"@ || ext == "hh"@ {
        Some(LanguageId::Cpp)
    } else if ext == "java"@ {
        Some(LanguageId::Java)
    } else if ext == "rb"@ {
        Some(LanguageId::Ruby)
    } else if ext == "cs"@ {
        Some(LanguageId::CSharp)
    } else if ext == "scala"@ || ext == "sc"@ {
        Some(LanguageId::Scala)
    } else if ext == "swift"@ {
        Some(LanguageId::Swift)
    } else if ext == "php"@ {
        Some(LanguageId::Php)
    } else if ext == "sh"@ || ext == "bash"@ {
        Some(LanguageId::Bash)
    } else if ext == "ex"@ || ext == "exs"@ {
        Some(LanguageId::Elixir)
    } else if ext == "erl"@ || ext == "hrl"@ {
        Some(LanguageId::Erlang)
    } else if ext == "hs"@ || ext == "lhs"@ {
        Some(LanguageId::Haskell)
    } else if ext == "ml"@ || ext == "mli"@ {
        Some(LanguageId::OCaml)
    } else if ext == "zig"@ {
        Some(LanguageId::Zig)
    } else if ext == "lua"@ {
        Some(LanguageId::Lua)
    } else {
        None
    }
}

/// Which extension names which language.
pub fn language_for(ext: &str) -> (r: Option<LanguageId>)
    ensures
        r == language_for_spec(ext@),
{
    if str_eq(ext, "rs") {
        Some(LanguageId::Rust)
    } else if str_eq(ext, "py") {
        Some(LanguageId::Python)
    } else if str_eq(ext, "js") || str_eq(ext, "mjs") || str_eq(ext, "cjs") || str_eq(ext, "jsx") {
        Some(LanguageId::JavaScript)
    } else if str_eq(ext, "ts") {
        Some(LanguageId::TypeScript)
    } else if str_eq(ext, "tsx") {
        Some(LanguageId::Tsx)
    } else if str_eq(ext, "go") {
        Some(LanguageId::Go)
    } else if str_eq(ext, "c") || str_eq(ext, "h") {
        Some(LanguageId::C)
    } else if str_eq(ext, "cc") || str_eq(ext, "cpp") || str_eq(ext, "cxx") || str_eq(ext, "hpp") || str_eq(ext, "hxx") || str_eq(ext, "hh") {
        Some(LanguageId::Cpp)
    } else if str_eq(ext, "java") {
        Some(LanguageId::Java)
    } else if str_eq(ext, "rb") {
        Some(LanguageId::Ruby)
    } else if str_eq(ext, "cs") {
        Some(LanguageId::CSharp)
    } else if str_eq(ext, "scala") || str_eq(ext, "sc") {
        Some(LanguageId::Scala)
    } else if str_eq(ext, "swift") {
        Some(LanguageId::Swift)
    } else if str_eq(ext, "php") {
        Some(LanguageId::Php)
    } else if str_eq(ext, "sh") || str_eq(ext, "bash") {
        Some(LanguageId::Bash)
    } else if str_eq(ext, "ex") || str_eq(ext, "exs") {
        Some(LanguageId::Elixir)
    } else if str_eq(ext, "erl") || str_eq(ext, "hrl") {
        Some(LanguageId::Erlang)
    } else if str_eq(ext, "hs") || str_eq(ext, "lhs") {
        Some(LanguageId::Haskell)
    } else if str_eq(ext, "ml") || str_eq(ext, "mli") {
        Some(LanguageId::OCaml)
    } else if str_eq(ext, "zig") {
        Some(LanguageId::Zig)
    } else if str_eq(ext, "lua") {
        Some(LanguageId::Lua)
    } else {
        None
    }
}

/// The node kinds and rules of each language.
pub open spec fn config_of_spec(l: LanguageId) -> ConfigV {
    match l {
        LanguageId::Rust => ConfigV {
            language: LanguageId::Rust,
            function_kinds: seq!["function_item"],
            scope_kinds: seq!["impl_item", "struct_item", "enum_item", "mod_item", "trait_item"],
            function_name: ExtractorV::NameField,
            scope_name: ExtractorV::NameOrTypeField,
            annotation_kinds: seq!["attribute_item", "inner_attribute_item"],
            comment_kinds: seq!["line_comment", "block_comment"],
            doc_check: DocCheckV::Prefixes(seq!["///", "//!", "/**"]),
            import_kinds: seq!["use_declaration", "extern_crate_declaration"],
            call_function_targets: Seq::empty(),
            call_scope_targets: Seq::empty(),
            call_import_targets: Seq::empty(),
        },
        LanguageId::Python => ConfigV {
            language: LanguageId::Python,
            function_kinds: seq!["function_definition"],
            scope_kinds: seq!["class_definition", "module"],
            function_name: ExtractorV::NameField,
            scope_name: ExtractorV::NameField,
            annotation_kinds: seq!["decorator"],
            comment_kinds: seq!["comment", "expression_statement"],
            doc_check: DocCheckV::PythonDocstring,
            import_kinds: seq!["import_statement", "import_from_statement"],
            call_function_targets: Seq::empty(),
            call_scope_targets: Seq::empty(),
            call_import_targets: Seq::empty(),
        },
        LanguageId::JavaScript => ConfigV {
            language: LanguageId::JavaScript,
            function_kinds: seq!["function_declaration", "method_definition", "arrow_function"],
            scope_kinds: seq!["class_declaration"],
            function_name: ExtractorV::NameField,
            scope_name: ExtractorV::NameField,
            annotation_kinds: seq!["decorator"],
            comment_kinds: seq!["comment"],
            doc_check: DocCheckV::Prefixes(seq!["/**"]),
            import_kinds: seq!["import_statement"],
            call_function_targets: Seq::empty(),
            call_scope_targets: Seq::empty(),
            call_import_targets: Seq::empty(),
        },
        LanguageId::TypeScript => ConfigV {
            language: LanguageId::TypeScript,
            function_kinds: seq!["function_declaration", "method_definition", "arrow_function"],
            scope_kinds: seq!["class_declaration", "interface_declaration"],
            function_name: ExtractorV::NameField,
            scope_name: ExtractorV::NameField,
            annotation_kinds: seq!["decorator"],
            comment_kinds: seq!["comment"],
            doc_check: DocCheckV::Prefixes(seq!["/**"]),
            import_kinds: seq!["import_statement"],
            call_function_targets: Seq::empty(),
            call_scope_targets: Seq::empty(),
            call_import_targets: Seq::empty(),
        },
        LanguageId::Tsx => ConfigV {
            language: LanguageId::Tsx,
            function_kinds: seq!["function_declaration", "method_definition", "arrow_function"],
            scope_kinds: seq!["class_declaration", "interface_declaration"],
            function_name: ExtractorV::NameField,
            scope_name: ExtractorV::NameField,
            annotation_kinds: seq!["decorator"],
            comment_kinds: seq!["comment"],
            doc_check: DocCheckV::Prefixes(seq!["/**"]),
            import_kinds: seq!["import_statement"],
            call_function_targets: Seq::empty(),
            call_scope_targets: Seq::empty(),
            call_import_targets: Seq::empty(),
        },
        LanguageId::Go => ConfigV {
            language: LanguageId::Go,
            function_kinds: seq!["function_declaration", "method_declaration"],
            scope_kinds: seq!["type_declaration"],
            function_name: ExtractorV::NameOrFieldIdentifier,
            scope_name: ExtractorV::NameField,
            annotation_kinds: Seq::empty(),
            comment_kinds: seq!["comment"],
            doc_check: DocCheckV::BeforeDeclaration(seq!["function_declaration", "method_declaration", "type_declaration", "var_declaration", "const_declaration"]),
            import_kinds: seq!["import_declaration"],
            call_function_targets: Seq::empty(),
            call_scope_targets: Seq::empty(),
            call_import_targets: Seq::empty(),
        },
        LanguageId::C => ConfigV {
            language: LanguageId::C,
            function_kinds: seq!["function_definition"],
            scope_kinds: seq!["struct_specifier", "enum_specifier"],
            function_name: ExtractorV::CDeclarator,
            scope_name: ExtractorV::NameField,
            annotation_kinds: Seq::empty(),
            comment_kinds: seq!["comment"],
            doc_check: DocCheckV::Prefixes(seq!["/**", "///"]),
            import_kinds: seq!["preproc_include"],
            call_function_targets: Seq::empty(),
            call_scope_targets: Seq::empty(),
            call_import_targets: Seq::empty(),
        },
        LanguageId::Cpp => ConfigV {
            language: LanguageId::Cpp,
            function_kinds: seq!["function_definition"],
            scope_kinds: seq!["class_specifier", "struct_specifier", "namespace_definition"],
            function_name: ExtractorV::CDeclarator,
            scope_name: ExtractorV::NameField,
            annotation_kinds: Seq::empty(),
            comment_kinds: seq!["comment"],
            doc_check: DocCheckV::Prefixes(seq!["/**", "///", "//!"]),
            import_kinds: seq!["preproc_include", "using_declaration"],
            call_function_targets: Seq::empty(),
            call_scope_targets: Seq::empty(),
            call_import_targets: Seq::empty(),
        },
        LanguageId::Java => ConfigV {
            language: LanguageId::Java,
            function_kinds: seq!["method_declaration", "constructor_declaration"],
            scope_kinds: seq!["class_declaration", "interface_declaration", "enum_declaration"],
            function_name: ExtractorV::NameField,
            scope_name: ExtractorV::NameField,
            annotation_kinds: seq!["marker_annotation", "annotation"],
            comment_kinds: seq!["line_comment", "block_comment"],
            doc_check: DocCheckV::Prefixes(seq!["/**"]),
            import_kinds: seq!["import_declaration"],
            call_function_targets: Seq::empty(),
            call_scope_targets: Seq::empty(),
            call_import_targets: Seq::empty(),
        },
        LanguageId::Ruby => ConfigV {
            language: LanguageId::Ruby,
            function_kinds: seq!["method", "singleton_method"],
            scope_kinds: seq!["class", "module"],
            function_name: ExtractorV::NameField,
            scope_name: ExtractorV::NameField,
            annotation_kinds: Seq::empty(),
            comment_kinds: seq!["comment"],
            doc_check: DocCheckV::Unchecked,
            import_kinds: Seq::empty(),
            call_function_targets: Seq::empty(),
            call_scope_targets: Seq::empty(),
            call_import_targets: seq!["require", "require_relative", "load"],
        },
        LanguageId::CSharp => ConfigV {
            language: LanguageId::CSharp,
            function_kinds: seq!["method_declaration", "constructor_declaration"],
            scope_kinds: seq!["class_declaration", "struct_declaration", "namespace_declaration", "interface_declaration"],
            function_name: ExtractorV::NameField,
            scope_name: ExtractorV::NameField,
            annotation_kinds: seq!["attribute_list"],
            comment_kinds: seq!["comment"],
            doc_check: DocCheckV::Prefixes(seq!["///", "/**"]),
            import_kinds: seq!["using_directive"],
            call_function_targets: Seq::empty(),
            call_scope_targets: Seq::empty(),
            call_import_targets: Seq::empty(),
        },
        LanguageId::Scala => ConfigV {
            language: LanguageId::Scala,
            function_kinds: seq!["function_definition", "function_declaration"],
            scope_kinds: seq!["class_definition", "object_definition", "trait_definition", "enum_definition"],
            function_name: ExtractorV::NameField,
            scope_name: ExtractorV::NameField,
            annotation_kinds: seq!["annotation"],
            comment_kinds: seq!["comment", "block_comment"],
            doc_check: DocCheckV::Prefixes(seq!["/**"]),
            import_kinds: seq!["import_declaration"],
            call_function_targets: Seq::empty(),
            call_scope_targets: Seq::empty(),
            call_import_targets: Seq::empty(),
        },
        LanguageId::Swift => ConfigV {
            language: LanguageId::Swift,
            function_kinds: seq!["function_declaration", "init_declaration"],
            scope_kinds: seq!["class_declaration"],
            function_name: ExtractorV::NameField,
            scope_name: ExtractorV::NameField,
            annotation_kinds: seq!["attribute"],
            comment_kinds: seq!["comment", "multiline_comment"],
            doc_check: DocCheckV::Prefixes(seq!["///", "/**"]),
            import_kinds: seq!["import_declaration"],
            call_function_targets: Seq::empty(),
            call_scope_targets: Seq::empty(),
            call_import_targets: Seq::empty(),
        },
        LanguageId::Php => ConfigV {
            language: LanguageId::Php,
            function_kinds: seq!["function_definition", "method_declaration"],
            scope_kinds: seq!["class_declaration", "interface_declaration", "trait_declaration", "enum_declaration", "namespace_definition"],
            function_name: ExtractorV::NameField,
            scope_name: ExtractorV::NameField,
            annotation_kinds: seq!["attribute_list"],
            comment_kinds: seq!["comment"],
            doc_check: DocCheckV::Prefixes(seq!["/**"]),
            import_kinds: seq!["namespace_use_declaration"],
            call_function_targets: Seq::empty(),
            call_scope_targets: Seq::empty(),
            call_import_targets: Seq::empty(),
        },
        LanguageId::Bash => ConfigV {
            language: LanguageId::Bash,
            function_kinds: seq!["function_definition"],
            scope_kinds: Seq::empty(),
            function_name: ExtractorV::NameField,
            scope_name: ExtractorV::NameField,
            annotation_kinds: Seq::empty(),
            comment_kinds: seq!["comment"],
            doc_check: DocCheckV::Unchecked,
            import_kinds: Seq::empty(),
            call_function_targets: Seq::empty(),
            call_scope_targets: Seq::empty(),
            call_import_targets: Seq::empty(),
        },
        LanguageId::Elixir => ConfigV {
            language: LanguageId::Elixir,
            function_kinds: Seq::empty(),
            scope_kinds: Seq::empty(),
            function_name: ExtractorV::NameField,
            scope_name: ExtractorV::NameField,
            annotation_kinds: Seq::empty(),
            comment_kinds: seq!["comment"],
            doc_check: DocCheckV::Unchecked,
            import_kinds: Seq::empty(),
            call_function_targets: seq!["def", "defp"],
            call_scope_targets: seq!["defmodule", "defprotocol", "defimpl"],
            call_import_targets: seq!["import", "use", "require", "alias"],
        },
        LanguageId::Erlang => ConfigV {
            language: LanguageId::Erlang,
            function_kinds: seq!["function_clause"],
            scope_kinds: Seq::empty(),
            function_name: ExtractorV::NameField,
            scope_name: ExtractorV::NameField,
            annotation_kinds: Seq::empty(),
            comment_kinds: seq!["comment"],
            doc_check: DocCheckV::Unchecked,
            import_kinds: Seq::empty(),
            call_function_targets: Seq::empty(),
            call_scope_targets: Seq::empty(),
            call_import_targets: Seq::empty(),
        },
        LanguageId::Haskell => ConfigV {
            language: LanguageId::Haskell,
            function_kinds: seq!["function"],
            scope_kinds: seq!["class", "data_type", "newtype"],
            function_name: ExtractorV::NameField,
            scope_name: ExtractorV::NameField,
            annotation_kinds: Seq::empty(),
            comment_kinds: seq!["comment"],
            doc_check: DocCheckV::Prefixes(seq!["-- |", "-- ^"]),
            import_kinds: seq!["import"],
            call_function_targets: Seq::empty(),
            call_scope_targets: Seq::empty(),
            call_import_targets: Seq::empty(),
        },
        LanguageId::OCaml => ConfigV {
            language: LanguageId::OCaml,
            function_kinds: seq!["let_binding"],
            scope_kinds: seq!["module_binding"],
            function_name: ExtractorV::PatternField,
            scope_name: ExtractorV::NameField,
            annotation_kinds: Seq::empty(),
            comment_kinds: seq!["comment"],
            doc_check: DocCheckV::Prefixes(seq!["(**"]),
            import_kinds: seq!["open_statement"],
            call_function_targets: Seq::empty(),
            call_scope_targets: Seq::empty(),
            call_import_targets: Seq::empty(),
        },
        LanguageId::Zig => ConfigV {
            language: LanguageId::Zig,
            function_kinds: seq!["function_declaration"],
            scope_kinds: Seq::empty(),
            function_name: ExtractorV::NameField,
            scope_name: ExtractorV::NameField,
            annotation_kinds: Seq::empty(),
            comment_kinds: seq!["line_comment", "doc_comment"],
            doc_check: DocCheckV::NodeKind("doc_comment"),
            import_kinds: Seq::empty(),
            call_function_targets: Seq::empty(),
            call_scope_targets: Seq::empty(),
            call_import_targets: Seq::empty(),
        },
        LanguageId::Lua => ConfigV {
            language: LanguageId::Lua,
            function_kinds: seq!["function_declaration"],
            scope_kinds: Seq::empty(),
            function_name: ExtractorV::NameField,
            scope_name: ExtractorV::NameField,
            annotation_kinds: Seq::empty(),
            comment_kinds: seq!["comment"],
            doc_check: DocCheckV::Prefixes(seq!["---"]),
            import_kinds: Seq::empty(),
            call_function_targets: Seq::empty(),
            call_scope_targets: Seq::empty(),
            call_import_targets: Seq::empty(),
        },
    }
}

fn config_rust() -> (c: LangConfig)
    ensures
        c@ == config_of_spec(LanguageId::Rust),
{
    let c = LangConfig {
        language: LanguageId::Rust,
        function_kinds: vec!["function_item"],
        scope_kinds: vec!["impl_item", "struct_item", "enum_item", "mod_item", "trait_item"],
        function_name_extractor: NameExtractor::NameField,
        scope_name_extractor: NameExtractor::NameOrTypeField,
        annotation_kinds: vec!["attribute_item", "inner_attribute_item"],
        comment_kinds: vec!["line_comment", "block_comment"],
        doc_comment_check: DocCommentCheck::Prefixes(vec!["///", "//!", "/**"]),
        import_kinds: vec!["use_declaration", "extern_crate_declaration"],
        call_function_targets: Vec::new(),
        call_scope_targets: Vec::new(),
        call_import_targets: Vec::new(),
    };
    assert(c@ =~~= config_of_spec(LanguageId::Rust));
    c
}

fn config_python() -> (c: LangConfig)
    ensures
        c@ == config_of_spec(LanguageId::Python),
{
    let c = LangConfig {
        language: LanguageId::Python,
        function_kinds: vec!["function_definition"],
        scope_kinds: vec!["class_definition", "module"],
        function_name_extractor: NameExtractor::NameField,
        scope_name_extractor: NameExtractor::NameField,
        annotation_kinds: vec!["decorator"],
        comment_kinds: vec!["comment", "expression_statement"],
        doc_comment_check: DocCommentCheck::PythonDocstring,
        import_kinds: vec!["import_statement", "import_from_statement"],
        call_function_targets: Vec::new(),
        call_scope_targets: Vec::new(),
        call_import_targets: Vec::new(),
    };
    assert(c@ =~~= config_of_spec(LanguageId::Python));
    c
}

fn config_javascript() -> (c: LangConfig)
    ensures
        c@ == config_of_spec(LanguageId::JavaScript),
{
    let c = LangConfig {
        language: LanguageId::JavaScript,
        function_kinds: vec!["function_declaration", "method_definition", "arrow_function"],
        scope_kinds: vec!["class_declaration"],
        function_name_extractor: NameExtractor::NameField,
        scope_name_extractor: NameExtractor::NameField,
        annotation_kinds: vec!["decorator"],
        comment_kinds: vec!["comment"],
        doc_comment_check: DocCommentCheck::Prefixes(vec!["/**"]),
        import_kinds: vec!["import_statement"],
        call_function_targets: Vec::new(),
        call_scope_targets: Vec::new(),
        call_import_targets: Vec::new(),
    };
    assert(c@ =~~= config_of_spec(LanguageId::JavaScript));
    c
}

fn config_typescript() -> (c: LangConfig)
    ensures
        c@ == config_of_spec(LanguageId::TypeScript),
{
    let c = LangConfig {
        language: LanguageId::TypeScript,
        function_kinds: vec!["function_declaration", "method_definition", "arrow_function"],
        scope_kinds: vec!["class_declaration", "interface_declaration"],
        function_name_extractor: NameExtractor::NameField,
        scope_name_extractor: NameExtractor::NameField,
        annotation_kinds: vec!["decorator"],
        comment_kinds: vec!["comment"],
        doc_comment_check: DocCommentCheck::Prefixes(vec!["/**"]),
        import_kinds: vec!["import_statement"],
        call_function_targets: Vec::new(),
        call_scope_targets: Vec::new(),
        call_import_targets: Vec::new(),
    };
    assert(c@ =~~= config_of_spec(LanguageId::TypeScript));
    c
}

fn config_tsx() -> (c: LangConfig)
    ensures
        c@ == config_of_spec(LanguageId::Tsx),
{
    let c = LangConfig {
        language: LanguageId::Tsx,
        function_kinds: vec!["function_declaration", "method_definition", "arrow_function"],
        scope_kinds: vec!["class_declaration", "interface_declaration"],
        function_name_extractor: NameExtractor::NameField,
        scope_name_extractor: NameExtractor::NameField,
        annotation_kinds: vec!["decorator"],
        comment_kinds: vec!["comment"],
        doc_comment_check: DocCommentCheck::Prefixes(vec!["/**"]),
        import_kinds: vec!["import_statement"],
        call_function_targets: Vec::new(),
        call_scope_targets: Vec::new(),
        call_import_targets: Vec::new(),
    };
    assert(c@ =~~= config_of_spec(LanguageId::Tsx));
    c
}

fn config_go() -> (c: LangConfig)
    ensures
        c@ == config_of_spec(LanguageId::Go),
{
    let c = LangConfig {
        language: LanguageId::Go,
        function_kinds: vec!["function_declaration", "method_declaration"],
        scope_kinds: vec!["type_declaration"],
        function_name_extractor: NameExtractor::NameOrFieldIdentifier,
        scope_name_extractor: NameExtractor::NameField,
        annotation_kinds: Vec::new(),
        comment_kinds: vec!["comment"],
        doc_comment_check: DocCommentCheck::BeforeDeclaration(vec!["function_declaration", "method_declaration", "type_declaration", "var_declaration", "const_declaration"]),
        import_kinds: vec!["import_declaration"],
        call_function_targets: Vec::new(),
        call_scope_targets: Vec::new(),
        call_import_targets: Vec::new(),
    };
    assert(c@ =~~= config_of_spec(LanguageId::Go));
    c
}

fn config_c() -> (c: LangConfig)
    ensures
        c@ == config_of_spec(LanguageId::C),
{
    let c = LangConfig {
        language: LanguageId::C,
        function_kinds: vec!["function_definition"],
        scope_kinds: vec!["struct_specifier", "enum_specifier"],
        function_name_extractor: NameExtractor::CDeclarator,
        scope_name_extractor: NameExtractor::NameField,
        annotation_kinds: Vec::new(),
        comment_kinds: vec!["comment"],
        doc_comment_check: DocCommentCheck::Prefixes(vec!["/**", "///"]),
        import_kinds: vec!["preproc_include"],
        call_function_targets: Vec::new(),
        call_scope_targets: Vec::new(),
        call_import_targets: Vec::new(),
    };
    assert(c@ =~~= config_of_spec(LanguageId::C));
    c
}

fn config_cpp() -> (c: LangConfig)
    ensures
        c@ == config_of_spec(LanguageId::Cpp),
{
    let c = LangConfig {
        language: LanguageId::Cpp,
        function_kinds: vec!["function_definition"],
        scope_kinds: vec!["class_specifier", "struct_specifier", "namespace_definition"],
        function_name_extractor: NameExtractor::CDeclarator,
        scope_name_extractor: NameExtractor::NameField,
        annotation_kinds: Vec::new(),
        comment_kinds: vec!["comment"],
        doc_comment_check: DocCommentCheck::Prefixes(vec!["/**", "///", "//!"]),
        import_kinds: vec!["preproc_include", "using_declaration"],
        call_function_targets: Vec::new(),
        call_scope_targets: Vec::new(),
        call_import_targets: Vec::new(),
    };
    assert(c@ =~~= config_of_spec(LanguageId::Cpp));
    c
}

fn config_java() -> (c: LangConfig)
    ensures
        c@ == config_of_spec(LanguageId::Java),
{
    let c = LangConfig {
        language: LanguageId::Java,
        function_kinds: vec!["method_declaration", "constructor_declaration"],
        scope_kinds: vec!["class_declaration", "interface_declaration", "enum_declaration"],
        function_name_extractor: NameExtractor::NameField,
        scope_name_extractor: NameExtractor::NameField,
        annotation_kinds: vec!["marker_annotation", "annotation"],
        comment_kinds: vec!["line_comment", "block_comment"],
        doc_comment_check: DocCommentCheck::Prefixes(vec!["/**"]),
        import_kinds: vec!["import_declaration"],
        call_function_targets: Vec::new(),
        call_scope_targets: Vec::new(),
        call_import_targets: Vec::new(),
    };
    assert(c@ =~~= config_of_spec(LanguageId::Java));
    c
}

fn config_ruby() -> (c: LangConfig)
    ensures
        c@ == config_of_spec(LanguageId::Ruby),
{
    let c = LangConfig {
        language: LanguageId::Ruby,
        function_kinds: vec!["method", "singleton_method"],
        scope_kinds: vec!["class", "module"],
        function_name_extractor: NameExtractor::NameField,
        scope_name_extractor: NameExtractor::NameField,
        annotation_kinds: Vec::new(),
        comment_kinds: vec!["comment"],
        doc_comment_check: DocCommentCheck::Unchecked,
        import_kinds: Vec::new(),
        call_function_targets: Vec::new(),
        call_scope_targets: Vec::new(),
        call_import_targets: vec!["require", "require_relative", "load"],
    };
    assert(c@ =~~= config_of_spec(LanguageId::Ruby));
    c
}

fn config_csharp() -> (c: LangConfig)
    ensures
        c@ == config_of_spec(LanguageId::CSharp),
{
    let c = LangConfig {
        language: LanguageId::CSharp,
        function_kinds: vec!["method_declaration", "constructor_declaration"],
        scope_kinds: vec!["class_declaration", "struct_declaration", "namespace_declaration", "interface_declaration"],
        function_name_extractor: NameExtractor::NameField,
        scope_name_extractor: NameExtractor::NameField,
        annotation_kinds: vec!["attribute_list"],
        comment_kinds: vec!["comment"],
        doc_comment_check: DocCommentCheck::Prefixes(vec!["///", "/**"]),
        import_kinds: vec!["using_directive"],
        call_function_targets: Vec::new(),
        call_scope_targets: Vec::new(),
        call_import_targets: Vec::new(),
    };
    assert(c@ =~~= config_of_spec(LanguageId::CSharp));
    c
}

fn config_scala() -> (c: LangConfig)
    ensures
        c@ == config_of_spec(LanguageId::Scala),
{
    let c = LangConfig {
        language: LanguageId::Scala,
        function_kinds: vec!["function_definition", "function_declaration"],
        scope_kinds: vec!["class_definition", "object_definition", "trait_definition", "enum_definition"],
        function_name_extractor: NameExtractor::NameField,
        scope_name_extractor: NameExtractor::NameField,
        annotation_kinds: vec!["annotation"],
        comment_kinds: vec!["comment", "block_comment"],
        doc_comment_check: DocCommentCheck::Prefixes(vec!["/**"]),
        import_kinds: vec!["import_declaration"],
        call_function_targets: Vec::new(),
        call_scope_targets: Vec::new(),
        call_import_targets: Vec::new(),
    };
    assert(c@ =~~= config_of_spec(LanguageId::Scala));
    c
}

fn config_swift() -> (c: LangConfig)
    ensures
        c@ == config_of_spec(LanguageId::Swift),
{
    let c = LangConfig {
        language: LanguageId::Swift,
        function_kinds: vec!["function_declaration", "init_declaration"],
        scope_kinds: vec!["class_declaration"],
        function_name_extractor: NameExtractor::NameField,
        scope_name_extractor: NameExtractor::NameField,
        annotation_kinds: vec!["attribute"],
        comment_kinds: vec!["comment", "multiline_comment"],
        doc_comment_check: DocCommentCheck::Prefixes(vec!["///", "/**"]),
        import_kinds: vec!["import_declaration"],
        call_function_targets: Vec::new(),
        call_scope_targets: Vec::new(),
        call_import_targets: Vec::new(),
    };
    assert(c@ =~~= config_of_spec(LanguageId::Swift));
    c
}

fn config_php() -> (c: LangConfig)
    ensures
        c@ == config_of_spec(LanguageId::Php),
{
    let c = LangConfig {
        language: LanguageId::Php,
        function_kinds: vec!["function_definition", "method_declaration"],
        scope_kinds: vec!["class_declaration", "interface_declaration", "trait_declaration", "enum_declaration", "namespace_definition"],
        function_name_extractor: NameExtractor::NameField,
        scope_name_extractor: NameExtractor::NameField,
        annotation_kinds: vec!["attribute_list"],
        comment_kinds: vec!["comment"],
        doc_comment_check: DocCommentCheck::Prefixes(vec!["/**"]),
        import_kinds: vec!["namespace_use_declaration"],
        call_function_targets: Vec::new(),
        call_scope_targets: Vec::new(),
        call_import_targets: Vec::new(),
    };
    assert(c@ =~~= config_of_spec(LanguageId::Php));
    c
}

fn config_bash() -> (c: LangConfig)
    ensures
        c@ == config_of_spec(LanguageId::Bash),
{
    let c = LangConfig {
        language: LanguageId::Bash,
        function_kinds: vec!["function_definition"],
        scope_kinds: Vec::new(),
        function_name_extractor: NameExtractor::NameField,
        scope_name_extractor: NameExtractor::NameField,
        annotation_kinds: Vec::new(),
        comment_kinds: vec!["comment"],
        doc_comment_check: DocCommentCheck::Unchecked,
        import_kinds: Vec::new(),
        call_function_targets: Vec::new(),
        call_scope_targets: Vec::new(),
        call_import_targets: Vec::new(),
    };
    assert(c@ =~~= config_of_spec(LanguageId::Bash));
    c
}

fn config_elixir() -> (c: LangConfig)
    ensures
        c@ == config_of_spec(LanguageId::Elixir),
{
    let c = LangConfig {
        language: LanguageId::Elixir,
        function_kinds: Vec::new(),
        scope_kinds: Vec::new(),
        function_name_extractor: NameExtractor::NameField,
        scope_name_extractor: NameExtractor::NameField,
        annotation_kinds: Vec::new(),
        comment_kinds: vec!["comment"],
        doc_comment_check: DocCommentCheck::Unchecked,
        import_kinds: Vec::new(),
        call_function_targets: vec!["def", "defp"],
        call_scope_targets: vec!["defmodule", "defprotocol", "defimpl"],
        call_import_targets: vec!["import", "use", "require", "alias"],
    };
    assert(c@ =~~= config_of_spec(LanguageId::Elixir));
    c
}

fn config_erlang() -> (c: LangConfig)
    ensures
        c@ == config_of_spec(LanguageId::Erlang),
{
    let c = LangConfig {
        language: LanguageId::Erlang,
        function_kinds: vec!["function_clause"],
        scope_kinds: Vec::new(),
        function_name_extractor: NameExtractor::NameField,
        scope_name_extractor: NameExtractor::NameField,
        annotation_kinds: Vec::new(),
        comment_kinds: vec!["comment"],
        doc_comment_check: DocCommentCheck::Unchecked,
        import_kinds: Vec::new(),
        call_function_targets: Vec::new(),
        call_scope_targets: Vec::new(),
        call_import_targets: Vec::new(),
    };
    assert(c@ =~~= config_of_spec(LanguageId::Erlang));
    c
}

fn config_haskell() -> (c: LangConfig)
    ensures
        c@ == config_of_spec(LanguageId::Haskell),
{
    let c = LangConfig {
        language: LanguageId::Haskell,
        function_kinds: vec!["function"],
        scope_kinds: vec!["class", "data_type", "newtype"],
        function_name_extractor: NameExtractor::NameField,
        scope_name_extractor: NameExtractor::NameField,
        annotation_kinds: Vec::new(),
        comment_kinds: vec!["comment"],
        doc_comment_check: DocCommentCheck::Prefixes(vec!["-- |", "-- ^"]),
        import_kinds: vec!["import"],
        call_function_targets: Vec::new(),
        call_scope_targets: Vec::new(),
        call_import_targets: Vec::new(),
    };
    assert(c@ =~~= config_of_spec(LanguageId::Haskell));
    c
}

fn config_ocaml() -> (c: LangConfig)
    ensures
        c@ == config_of_spec(LanguageId::OCaml),
{
    let c = LangConfig {
        language: LanguageId::OCaml,
        function_kinds: vec!["let_binding"],
        scope_kinds: vec!["module_binding"],
        function_name_extractor: NameExtractor::PatternField,
        scope_name_extractor: NameExtractor::NameField,
        annotation_kinds: Vec::new(),
        comment_kinds: vec!["comment"],
        doc_comment_check: DocCommentCheck::Prefixes(vec!["(**"]),
        import_kinds: vec!["open_statement"],
        call_function_targets: Vec::new(),
        call_scope_targets: Vec::new(),
        call_import_targets: Vec::new(),
    };
    assert(c@ =~~= config_of_spec(LanguageId::OCaml));
    c
}

fn config_zig() -> (c: LangConfig)
    ensures
        c@ == config_of_spec(LanguageId::Zig),
{
    let c = LangConfig {
        language: LanguageId::Zig,
        function_kinds: vec!["function_declaration"],
        scope_kinds: Vec::new(),
        function_name_extractor: NameExtractor::NameField,
        scope_name_extractor: NameExtractor::NameField,
        annotation_kinds: Vec::new(),
        comment_kinds: vec!["line_comment", "doc_comment"],
        doc_comment_check: DocCommentCheck::NodeKind("doc_comment"),
        import_kinds: Vec::new(),
        call_function_targets: Vec::new(),
        call_scope_targets: Vec::new(),
        call_import_targets: Vec::new(),
    };
    assert(c@ =~~= config_of_spec(LanguageId::Zig));
    c
}

fn config_lua() -> (c: LangConfig)
    ensures
        c@ == config_of_spec(LanguageId::Lua),
{
    let c = LangConfig {
        language: LanguageId::Lua,
        function_kinds: vec!["function_declaration"],
        scope_kinds: Vec::new(),
        function_name_extractor: NameExtractor::NameField,
        scope_name_extractor: NameExtractor::NameField,
        annotation_kinds: Vec::new(),
        comment_kinds: vec!["comment"],
        doc_comment_check: DocCommentCheck::Prefixes(vec!["---"]),
        import_kinds: Vec::new(),
        call_function_targets: Vec::new(),
        call_scope_targets: Vec::new(),
        call_import_targets: Vec::new(),
    };
    assert(c@ =~~= config_of_spec(LanguageId::Lua));
    c
}

/// The node kinds and rules of the language `l`.
pub fn config_of(l: LanguageId) -> (c: LangConfig)
    ensures
        c@ == config_of_spec(l),
{
    match l {
        LanguageId::Rust => config_rust(),
        LanguageId::Python => config_python(),
        LanguageId::JavaScript => config_javascript(),
        LanguageId::TypeScript => config_typescript(),
        LanguageId::Tsx => config_tsx(),
        LanguageId::Go => config_go(),
        LanguageId::C => config_c(),
        LanguageId::Cpp => config_cpp(),
        LanguageId::Java => config_java(),
        LanguageId::Ruby => config_ruby(),
        LanguageId::CSharp => config_csharp(),
        LanguageId::Scala => config_scala(),
        LanguageId::Swift => config_swift(),
        LanguageId::Php => config_php(),
        LanguageId::Bash => config_bash(),
        LanguageId::Elixir => config_elixir(),
        LanguageId::Erlang => config_erlang(),
        LanguageId::Haskell => config_haskell(),
        LanguageId::OCaml => config_ocaml(),
        LanguageId::Zig => config_zig(),
        LanguageId::Lua => config_lua(),
    }
}

/// The configuration for files with the extension `ext`, if supported.
pub open spec fn config_for(ext: Seq<char>) -> Option<ConfigV> {
    match language_for_spec(ext) {
        Some(l) => Some(config_of_spec(l)),
        None => None,
    }
}

pub fn get_lang_config(extension: &str) -> (r: Option<LangConfig>)
    ensures
        match config_for(extension@) {
            Some(c) => r matches Some(x) && x@ == c,
            None => r is None,
        },
{
    match language_for(extension) {
        Some(l) => Some(config_of(l)),
        None => None,
    }
}


// ---------------------------------------------------------------------------
// Names, doc comments and annotations
// ---------------------------------------------------------------------------

pub open spec fn in_kinds(ks: Seq<&'static str>, k: Seq<char>) -> bool {
    exists|i: int| 0 <= i < ks.len() && (#[trigger] ks[i])@ == k
}

fn contains_kind(ks: &Vec<&'static str>, k: &str) -> (b: bool)
    ensures
        b == in_kinds(ks@, k@),
{
    let n = ks.len();
    let mut i: usize = 0;
    while i < n
        invariant
            n == ks@.len(),
            i <= n,
            forall|j: int| 0 <= j < i ==> (#[trigger] ks@[j])@ != k@,
        decreases n - i,
    {
        if str_eq(ks[i], k) {
            return true;
        }
        i += 1;
    }
    false
}

/// The text of the field child `name` when there is one, else `fallback`.
pub open spec fn field_text_or(n: SyntaxNode, name: Seq<char>, fallback: Option<Seq<char>>) -> Option<Seq<char>> {
    match field_child_from(n.children@, name, 0) {
        Some(j) => opt_text(n.children@[j].text),
        None => fallback,
    }
}

/// C/C++: the name inside the function declarator of the `declarator` field.
pub open spec fn c_function_name(n: SyntaxNode) -> Option<Seq<char>> {
    match field_child_from(n.children@, "declarator"@, 0) {
        None => None,
        Some(d) => {
            let decl = n.children@[d];
            if decl.kind@ == "function_declarator"@ {
                field_text(decl, "declarator"@)
            } else {
                match kind_child_from(decl.children@, "function_declarator"@, 0) {
                    Some(k) => field_text(decl.children@[k], "declarator"@),
                    None => None,
                }
            }
        },
    }
}

/// The name the extractor finds on `n`.
pub open spec fn node_name(n: SyntaxNode, ex: ExtractorV) -> Option<Seq<char>> {
    match ex {
        ExtractorV::NameField => field_text(n, "name"@),
        ExtractorV::NameOrTypeField => field_text_or(n, "name"@, field_text(n, "type"@)),
        ExtractorV::CDeclarator => c_function_name(n),
        ExtractorV::FirstChildOfKind(k) => kind_text(n, k@),
        ExtractorV::PatternField => field_text(n, "pattern"@),
        ExtractorV::NameOrFieldIdentifier => field_text_or(n, "name"@, kind_text(n, "field_identifier"@)),
    }
}

fn field_text_or_exec(n: &SyntaxNode, name: &str, fallback: Option<String>) -> (r: Option<String>)
    ensures
        opt_text(r) == field_text_or(*n, name@, opt_text(fallback)),
{
    match field_child(&n.children, name) {
        Some(j) => opt_string_ref(&n.children[j].text),
        None => fallback,
    }
}

fn c_function_name_exec(n: &SyntaxNode) -> (r: Option<String>)
    ensures
        opt_text(r) == c_function_name(*n),
{
    let d = match field_child(&n.children, "declarator") {
        Some(d) => d,
        None => {
            return None;
        },
    };
    let decl = &n.children[d];
    if str_eq(decl.kind.as_str(), "function_declarator") {
        field_text_exec(decl, "declarator")
    } else {
        match kind_child(&decl.children, "function_declarator") {
            Some(k) => field_text_exec(&decl.children[k], "declarator"),
            None => None,
        }
    }
}

fn node_name_exec(n: &SyntaxNode, ex: NameExtractor) -> (r: Option<String>)
    ensures
        opt_text(r) == node_name(*n, ex@),
{
    match ex {
        NameExtractor::NameField => field_text_exec(n, "name"),
        NameExtractor::NameOrTypeField => {
            let fallback = field_text_exec(n, "type");
            field_text_or_exec(n, "name", fallback)
        },
        NameExtractor::CDeclarator => c_function_name_exec(n),
        NameExtractor::FirstChildOfKind(k) => kind_text_exec(n, k),
        NameExtractor::PatternField => field_text_exec(n, "pattern"),
        NameExtractor::NameOrFieldIdentifier => {
            let fallback = kind_text_exec(n, "field_identifier");
            field_text_or_exec(n, "name", fallback)
        },
    }
}

/// Whether the text, less leading whitespace, starts with one of the prefixes.
pub open spec fn has_doc_prefix(t: Seq<char>, ps: Seq<&'static str>) -> bool {
    exists|k: int| 0 <= k < ps.len() && starts_with(trim_start(t), (#[trigger] ps[k])@)
}

/// Whether the next named sibling from `j` on that is not a comment is one
/// of the declarations.
pub open spec fn declaration_follows(cfg: ConfigV, cs: Seq<SyntaxNode>, j: int, decls: Seq<&'static str>) -> bool
    decreases cs.len() - j,
{
    match named_from(cs, j) {
        Some(k) => if k < j || k >= cs.len() {
            false
        } else if in_kinds(cfg.comment_kinds, cs[k].kind@) {
            declaration_follows(cfg, cs, k + 1, decls)
        } else {
            in_kinds(decls, cs[k].kind@)
        },
        None => false,
    }
}

/// Whether the node `sibs[idx]` is a doc comment; `has_parent` tells whether
/// `sibs` are the children of a parent node.
pub open spec fn is_doc_comment_spec(cfg: ConfigV, sibs: Seq<SyntaxNode>, idx: int, has_parent: bool) -> bool {
    let n = sibs[idx];
    match cfg.doc_check {
        DocCheckV::Prefixes(ps) => match opt_text(n.text) {
            Some(t) => has_doc_prefix(t, ps),
            None => false,
        },
        DocCheckV::NodeKind(k) => n.kind@ == k@,
        DocCheckV::BeforeDeclaration(decls) => declaration_follows(cfg, sibs, idx + 1, decls),
        DocCheckV::PythonDocstring => {
            &&& n.kind@ != "comment"@
            &&& n.kind@ == "expression_statement"@
            &&& (match named_from(n.children@, 0) {
                Some(c) => n.children@[c].kind@ == "string"@,
                None => false,
            })
            &&& has_parent
            &&& named_from(sibs, 0) == Some(idx)
        },
        DocCheckV::Unchecked => false,
    }
}

/// Whether one of the prefixes starts `t` once leading whitespace is dropped.
fn starts_with_prefix(t: &str, ps: &Vec<&'static str>) -> (b: bool)
    ensures
        b == has_doc_prefix(t@, ps@),
{
    let v = chars_of(t);
    let lo = trim_start_bound(v.as_slice());
    let mut rest: Vec<char> = Vec::new();
    let mut i = lo;
    let n = v.len();
    while i < n
        invariant
            lo <= i <= n,
            n == v@.len(),
            rest@ == v@.subrange(lo as int, i as int),
        decreases n - i,
    {
        rest.push(v[i]);
        i += 1;
        assert(rest@ == v@.subrange(lo as int, i as int));
    }
    assert(rest@ == v@.skip(lo as int));
    assert(rest@ == trim_start(t@));
    let m = ps.len();
    let mut k: usize = 0;
    while k < m
        invariant
            m == ps@.len(),
            k <= m,
            rest@ == trim_start(t@),
            forall|j: int| 0 <= j < k ==> !starts_with(trim_start(t@), (#[trigger] ps@[j])@),
        decreases m - k,
    {
        let p = chars_of(ps[k]);
        if chars_start_with(rest.as_slice(), p.as_slice()) {
            assert(starts_with(trim_start(t@), ps@[k as int]@));
            return true;
        }
        k += 1;
    }
    false
}


/// The first named node at or after `j0`.
fn named_at_or_after(cs: &Vec<SyntaxNode>, j0: usize) -> (r: Option<usize>)
    requires
        j0 <= cs@.len(),
    ensures
        match named_from(cs@, j0 as int) {
            Some(j) => r matches Some(k) && k == j && j0 <= j < cs@.len(),
            None => r is None,
        },
{
    let n = cs.len();
    let mut j: usize = j0;
    while j < n
        invariant
            n == cs@.len(),
            j0 <= j <= n,
            named_from(cs@, j0 as int) == named_from(cs@, j as int),
        decreases n - j,
    {
        if cs[j].named {
            return Some(j);
        }
        j += 1;
    }
    None
}

/// Whether a declaration follows the node `cs[idx]`, past any comments.
fn declaration_follows_exec(cfg: &LangConfig, cs: &Vec<SyntaxNode>, idx: usize, decls: &Vec<&'static str>) -> (b: bool)
    requires
        idx < cs@.len(),
    ensures
        b == declaration_follows(cfg@, cs@, idx + 1, decls@),
{
    let n = cs.len();
    let mut j = idx + 1;
    loop
        invariant
            n == cs@.len(),
            j <= cs@.len(),
            declaration_follows(cfg@, cs@, idx + 1, decls@) == declaration_follows(cfg@, cs@, j as int, decls@),
        decreases cs@.len() - j,
    {
        match named_at_or_after(cs, j) {
            Some(k) => {
                if contains_kind(&cfg.comment_kinds, cs[k].kind.as_str()) {
                    j = k + 1;
                } else {
                    return contains_kind(decls, cs[k].kind.as_str());
                }
            },
            None => {
                return false;
            },
        }
    }
}

/// A string expression statement that opens its parent's block.
fn is_python_docstring(sibs: &Vec<SyntaxNode>, idx: usize, has_parent: bool) -> (b: bool)
    requires
        idx < sibs@.len(),
    ensures
        b == ({
            let n = sibs@[idx as int];
            &&& n.kind@ != "comment"@
            &&& n.kind@ == "expression_statement"@
            &&& (match named_from(n.children@, 0) {
                Some(c) => n.children@[c].kind@ == "string"@,
                None => false,
            })
            &&& has_parent
            &&& named_from(sibs@, 0) == Some(idx as int)
        }),
{
    let n = &sibs[idx];
    if str_eq(n.kind.as_str(), "comment") || !str_eq(n.kind.as_str(), "expression_statement") {
        return false;
    }
    let has_string = match first_named(&n.children) {
        Some(c) => str_eq(n.children[c].kind.as_str(), "string"),
        None => false,
    };
    if !has_string || !has_parent {
        return false;
    }
    match first_named(sibs) {
        Some(f) => f == idx,
        None => false,
    }
}

/// Whether the node `sibs[idx]` is a doc comment.
fn is_doc_comment(cfg: &LangConfig, sibs: &Vec<SyntaxNode>, idx: usize, has_parent: bool) -> (b: bool)
    requires
        idx < sibs@.len(),
    ensures
        b == is_doc_comment_spec(cfg@, sibs@, idx as int, has_parent),
{
    let n = &sibs[idx];
    match &cfg.doc_comment_check {
        DocCommentCheck::Prefixes(ps) => match &n.text {
            Some(t) => starts_with_prefix(t.as_str(), ps),
            None => false,
        },
        DocCommentCheck::NodeKind(k) => str_eq(n.kind.as_str(), k),
        DocCommentCheck::BeforeDeclaration(decls) => declaration_follows_exec(cfg, sibs, idx, decls),
        DocCommentCheck::PythonDocstring => is_python_docstring(sibs, idx, has_parent),
        DocCommentCheck::Unchecked => false,
    }
}

/// The texts of a list of strings.
pub open spec fn texts(v: Seq<String>) -> Seq<Seq<char>> {
    v.map_values(|s: String| s@)
}

/// `anns` with the trimmed text added, unless it is there already.
pub open spec fn add_ann(anns: Seq<Seq<char>>, t: Option<Seq<char>>) -> Seq<Seq<char>> {
    match t {
        Some(x) => if anns.contains(trim(x)) {
            anns
        } else {
            anns.push(trim(x))
        },
        None => anns,
    }
}

/// Annotations of the named siblings right before `j`, nearest first, up to
/// the first sibling that is no annotation.
pub open spec fn prev_anns(cfg: ConfigV, sibs: Seq<SyntaxNode>, j: int, anns: Seq<Seq<char>>) -> Seq<Seq<char>>
    decreases j,
{
    match named_before(sibs, j) {
        Some(k) => if 0 <= k < j && in_kinds(cfg.annotation_kinds, sibs[k].kind@) {
            prev_anns(cfg, sibs, k, add_ann(anns, opt_text(sibs[k].text)))
        } else {
            anns
        },
        None => anns,
    }
}

/// Annotations among the nodes `gs[j..]`.
pub open spec fn grand_anns(cfg: ConfigV, gs: Seq<SyntaxNode>, j: int, anns: Seq<Seq<char>>) -> Seq<Seq<char>>
    decreases gs.len() - j,
{
    if j < 0 || j >= gs.len() {
        anns
    } else {
        let a = if in_kinds(cfg.annotation_kinds, gs[j].kind@) {
            add_ann(anns, opt_text(gs[j].text))
        } else {
            anns
        };
        grand_anns(cfg, gs, j + 1, a)
    }
}

/// Annotations among the children `cs[j..]`, and inside those of kind
/// `modifiers`.
pub open spec fn child_anns(cfg: ConfigV, cs: Seq<SyntaxNode>, j: int, anns: Seq<Seq<char>>) -> Seq<Seq<char>>
    decreases cs.len() - j,
{
    if j < 0 || j >= cs.len() {
        anns
    } else {
        let a1 = if in_kinds(cfg.annotation_kinds, cs[j].kind@) {
            add_ann(anns, opt_text(cs[j].text))
        } else {
            anns
        };
        let a2 = if cs[j].kind@ == "modifiers"@ {
            grand_anns(cfg, cs[j].children@, 0, a1)
        } else {
            a1
        };
        child_anns(cfg, cs, j + 1, a2)
    }
}

/// The annotations of the function or scope node `sibs[idx]`, added to `anns`.
pub open spec fn own_anns(cfg: ConfigV, sibs: Seq<SyntaxNode>, idx: int, anns: Seq<Seq<char>>) -> Seq<Seq<char>> {
    child_anns(cfg, sibs[idx].children@, 0, prev_anns(cfg, sibs, idx, anns))
}

fn add_annotation(anns: &mut Vec<String>, text: &Option<String>)
    ensures
        texts(final(anns)@) == add_ann(texts(old(anns)@), opt_text(*text)),
{
    match text {
        Some(t) => {
            let x = trim_string(t.as_str());
            let n = anns.len();
            let mut i: usize = 0;
            while i < n
                invariant
                    n == anns@.len(),
                    i <= n,
                    x@ == trim(t@),
                    opt_text(*text) == Some(t@),
                    anns@ == old(anns)@,
                    forall|j: int| 0 <= j < i ==> (#[trigger] anns@[j])@ != x@,
                decreases n - i,
            {
                if str_eq(anns[i].as_str(), x.as_str()) {
                    assert(texts(anns@)[i as int] == x@);
                    assert(texts(anns@).contains(x@));
                    return;
                }
                i += 1;
            }
            assert(!texts(anns@).contains(x@)) by {
                if texts(anns@).contains(x@) {
                    let j = choose|j: int| 0 <= j < texts(anns@).len() && texts(anns@)[j] == x@;
                    assert(anns@[j]@ == x@);
                }
            }
            let ghost before = anns@;
            anns.push(x);
            assert(texts(anns@) =~= texts(before).push(x@));
        },
        None => {},
    }
}

fn prev_annotations(cfg: &LangConfig, sibs: &Vec<SyntaxNode>, idx: usize, anns: &mut Vec<String>)
    requires
        idx <= sibs@.len(),
    ensures
        texts(final(anns)@) == prev_anns(cfg@, sibs@, idx as int, texts(old(anns)@)),
{
    let mut j = idx;
    loop
        invariant
            j <= idx <= sibs@.len(),
            prev_anns(cfg@, sibs@, idx as int, texts(old(anns)@)) == prev_anns(cfg@, sibs@, j as int, texts(anns@)),
        decreases j,
    {
        match prev_named(sibs, j) {
            Some(k) => {
                if contains_kind(&cfg.annotation_kinds, sibs[k].kind.as_str()) {
                    add_annotation(anns, &sibs[k].text);
                    j = k;
                } else {
                    return;
                }
            },
            None => {
                return;
            },
        }
    }
}

fn grand_annotations(cfg: &LangConfig, gs: &Vec<SyntaxNode>, anns: &mut Vec<String>)
    ensures
        texts(final(anns)@) == grand_anns(cfg@, gs@, 0, texts(old(anns)@)),
{
    let n = gs.len();
    let mut j: usize = 0;
    while j < n
        invariant
            n == gs@.len(),
            j <= n,
            grand_anns(cfg@, gs@, 0, texts(old(anns)@)) == grand_anns(cfg@, gs@, j as int, texts(anns@)),
        decreases n - j,
    {
        if contains_kind(&cfg.annotation_kinds, gs[j].kind.as_str()) {
            add_annotation(anns, &gs[j].text);
        }
        j += 1;
    }
}

/// Collect the annotations of the function or scope node `sibs[idx]`: its
/// preceding annotation siblings, its annotation children, and those inside
/// a `modifiers` child.
fn collect_annotations(cfg: &LangConfig, sibs: &Vec<SyntaxNode>, idx: usize, anns: &mut Vec<String>)
    requires
        idx < sibs@.len(),
    ensures
        texts(final(anns)@) == own_anns(cfg@, sibs@, idx as int, texts(old(anns)@)),
{
    prev_annotations(cfg, sibs, idx, anns);
    let cs = &sibs[idx].children;
    let n = cs.len();
    let ghost start = texts(anns@);
    let mut j: usize = 0;
    while j < n
        invariant
            n == cs@.len(),
            j <= n,
            child_anns(cfg@, cs@, 0, start) == child_anns(cfg@, cs@, j as int, texts(anns@)),
        decreases n - j,
    {
        if contains_kind(&cfg.annotation_kinds, cs[j].kind.as_str()) {
            add_annotation(anns, &cs[j].text);
        }
        if str_eq(cs[j].kind.as_str(), "modifiers") {
            grand_annotations(cfg, &cs[j].children, anns);
        }
        j += 1;
    }
}


// ---------------------------------------------------------------------------
// Walking the tree
// ---------------------------------------------------------------------------

/// The context of a line, as a mathematical value.
#[verifier::ext_equal]
pub struct CtxV {
    pub function: Option<Seq<char>>,
    pub scope: Option<Seq<char>>,
    pub annotations: Seq<Seq<char>>,
    pub doc: bool,
    pub import: bool,
    pub toplevel: bool,
    pub depth: int,
}

impl View for SemanticContext {
    type V = CtxV;

    open spec fn view(&self) -> CtxV {
        CtxV {
            function: opt_text(self.enclosing_function),
            scope: opt_text(self.enclosing_scope),
            annotations: texts(self.annotations@),
            doc: self.is_doc_comment,
            import: self.is_import,
            toplevel: self.is_toplevel,
            depth: self.nesting_depth as int,
        }
    }
}

/// The empty context: no function, no scope, nothing marked.
pub open spec fn empty_ctx() -> CtxV {
    CtxV {
        function: None,
        scope: None,
        annotations: Seq::empty(),
        doc: false,
        import: false,
        toplevel: false,
        depth: 0,
    }
}

impl Default for SemanticContext {
    fn default() -> (r: Self)
        ensures
            r@ == empty_ctx(),
    {
        SemanticContext {
            enclosing_function: None,
            enclosing_scope: None,
            annotations: Vec::new(),
            is_doc_comment: false,
            is_import: false,
            is_toplevel: false,
            nesting_depth: 0,
        }
    }
}

/// `x` when it is there, else `kept`.
pub open spec fn or_keep(x: Option<Seq<char>>, kept: Option<Seq<char>>) -> Option<Seq<char>> {
    match x {
        Some(v) => Some(v),
        None => kept,
    }
}

/// One more, unless that would not fit in a `usize`.
pub open spec fn sat_inc(d: int) -> int {
    if d < usize::MAX {
        d + 1
    } else {
        d
    }
}

/// The target of a `call` node: its `target` field, else its `method` field.
pub open spec fn call_target(n: SyntaxNode) -> Option<Seq<char>> {
    field_text_or(n, "target"@, field_text(n, "method"@))
}

/// The name a `call` node defines: its first argument, or that argument's
/// target when the argument is itself a call.
pub open spec fn call_arg_name(n: SyntaxNode) -> Option<Seq<char>> {
    match kind_child_from(n.children@, "arguments"@, 0) {
        Some(a) => {
            let args = n.children@[a];
            match named_from(args.children@, 0) {
                Some(f) => {
                    let first = args.children@[f];
                    if first.kind@ == "call"@ {
                        field_text(first, "target"@)
                    } else {
                        opt_text(first.text)
                    }
                },
                None => None,
            }
        },
        None => None,
    }
}

/// Whether the node is a function node spanning the line.
pub open spec fn enters_function(cfg: ConfigV, n: SyntaxNode, line: usize) -> bool {
    in_kinds(cfg.function_kinds, n.kind@) && spans_line(n, line)
}

/// Whether the node is a scope node spanning the line.
pub open spec fn enters_scope(cfg: ConfigV, n: SyntaxNode, line: usize) -> bool {
    in_kinds(cfg.scope_kinds, n.kind@) && spans_line(n, line)
}

/// Whether the node is a `call` spanning the line whose target defines a
/// function or a scope.
pub open spec fn enters_call(cfg: ConfigV, n: SyntaxNode, line: usize) -> bool {
    &&& n.kind@ == "call"@
    &&& spans_line(n, line)
    &&& match call_target(n) {
        Some(t) => in_kinds(cfg.call_function_targets, t) || in_kinds(cfg.call_scope_targets, t),
        None => false,
    }
}

/// The depth below the node `sibs[idx]`.
pub open spec fn depth_below(cfg: ConfigV, n: SyntaxNode, line: usize, depth: int) -> int {
    if enters_function(cfg, n, line) || enters_scope(cfg, n, line) || enters_call(cfg, n, line) {
        sat_inc(depth)
    } else {
        depth
    }
}

/// Marks for a comment or import node spanning the line.
pub open spec fn mark_step(cfg: ConfigV, sibs: Seq<SyntaxNode>, idx: int, has_parent: bool, line: usize, c: CtxV) -> CtxV {
    let n = sibs[idx];
    let c1 = if in_kinds(cfg.comment_kinds, n.kind@) && spans_line(n, line) {
        CtxV { doc: is_doc_comment_spec(cfg, sibs, idx, has_parent), ..c }
    } else {
        c
    };
    if in_kinds(cfg.import_kinds, n.kind@) && spans_line(n, line) {
        CtxV { import: true, ..c1 }
    } else {
        c1
    }
}

/// Entering a function node spanning the line.
pub open spec fn function_step(cfg: ConfigV, sibs: Seq<SyntaxNode>, idx: int, line: usize, c: CtxV) -> CtxV {
    let n = sibs[idx];
    if enters_function(cfg, n, line) {
        CtxV {
            function: or_keep(node_name(n, cfg.function_name), c.function),
            toplevel: false,
            annotations: own_anns(cfg, sibs, idx, c.annotations),
            ..c
        }
    } else {
        c
    }
}

/// Entering a scope node spanning the line.
pub open spec fn scope_step(cfg: ConfigV, sibs: Seq<SyntaxNode>, idx: int, line: usize, c: CtxV) -> CtxV {
    let n = sibs[idx];
    if enters_scope(cfg, n, line) {
        CtxV {
            scope: or_keep(node_name(n, cfg.scope_name), c.scope),
            toplevel: false,
            annotations: own_anns(cfg, sibs, idx, c.annotations),
            ..c
        }
    } else {
        c
    }
}

/// A `call` node spanning the line whose target defines a function, a scope
/// or an import.
pub open spec fn call_step(cfg: ConfigV, n: SyntaxNode, line: usize, c: CtxV) -> CtxV {
    if n.kind@ == "call"@ && spans_line(n, line) {
        match call_target(n) {
            Some(t) => if in_kinds(cfg.call_function_targets, t) {
                CtxV { function: or_keep(call_arg_name(n), c.function), toplevel: false, ..c }
            } else if in_kinds(cfg.call_scope_targets, t) {
                CtxV { scope: or_keep(call_arg_name(n), c.scope), toplevel: false, ..c }
            } else if in_kinds(cfg.call_import_targets, t) {
                CtxV { import: true, ..c }
            } else {
                c
            },
            None => c,
        }
    } else {
        c
    }
}

/// What the node `sibs[idx]` itself adds to the context, reached at `depth`.
pub open spec fn visit(cfg: ConfigV, sibs: Seq<SyntaxNode>, idx: int, has_parent: bool, line: usize, c: CtxV, depth: int) -> CtxV {
    let n = sibs[idx];
    let c1 = call_step(cfg, n, line, scope_step(cfg, sibs, idx, line, function_step(cfg, sibs, idx, line,
        mark_step(cfg, sibs, idx, has_parent, line, c))));
    let d = depth_below(cfg, n, line, depth);
    if d > c1.depth {
        CtxV { depth: d, ..c1 }
    } else {
        c1
    }
}

/// The context after walking the node `sibs[idx]` and, depth first, those of
/// its descendants that span the line.
pub open spec fn enc(cfg: ConfigV, sibs: Seq<SyntaxNode>, idx: int, has_parent: bool, line: usize, c: CtxV, depth: int) -> CtxV
    decreases sibs[idx], 0int,
{
    enc_children(cfg, sibs[idx].children@, 0, line, visit(cfg, sibs, idx, has_parent, line, c, depth),
        depth_below(cfg, sibs[idx], line, depth))
}

/// The context after walking those of the children `cs[k..]` that span the line.
pub open spec fn enc_children(cfg: ConfigV, cs: Seq<SyntaxNode>, k: int, line: usize, c: CtxV, depth: int) -> CtxV
    decreases cs, cs.len() - k,
{
    if k < 0 || k >= cs.len() {
        c
    } else {
        let c1 = if spans_line(cs[k], line) {
            enc(cfg, cs, k, true, line, c, depth)
        } else {
            c
        };
        enc_children(cfg, cs, k + 1, line, c1, depth)
    }
}

/// The context where a walk starts: at the top level.
pub open spec fn start_ctx() -> CtxV {
    CtxV { toplevel: true, ..empty_ctx() }
}

/// The context of the 1-based line `line` in the tree `root`; line 0 has the
/// empty context.
pub open spec fn context_at(cfg: ConfigV, root: SyntaxNode, line: usize) -> CtxV {
    if line == 0 {
        empty_ctx()
    } else {
        enc(cfg, seq![root], 0, false, (line - 1) as usize, start_ctx(), 0)
    }
}


fn call_target_exec(n: &SyntaxNode) -> (r: Option<String>)
    ensures
        opt_text(r) == call_target(*n),
{
    let fallback = field_text_exec(n, "method");
    field_text_or_exec(n, "target", fallback)
}

fn call_arg_name_exec(n: &SyntaxNode) -> (r: Option<String>)
    ensures
        opt_text(r) == call_arg_name(*n),
{
    let a = match kind_child(&n.children, "arguments") {
        Some(a) => a,
        None => {
            return None;
        },
    };
    let args = &n.children[a];
    match first_named(&args.children) {
        Some(f) => {
            let first = &args.children[f];
            if str_eq(first.kind.as_str(), "call") {
                field_text_exec(first, "target")
            } else {
                opt_string_ref(&first.text)
            }
        },
        None => None,
    }
}

fn spans(n: &SyntaxNode, line: usize) -> (b: bool)
    ensures
        b == spans_line(*n, line),
{
    n.start_row <= line && n.end_row >= line
}

/// The comment and import marks of the node `sibs[idx]`.
fn mark(cfg: &LangConfig, sibs: &Vec<SyntaxNode>, idx: usize, has_parent: bool, line: usize, ctx: &mut SemanticContext)
    requires
        idx < sibs@.len(),
    ensures
        final(ctx)@ == mark_step(cfg@, sibs@, idx as int, has_parent, line, old(ctx)@),
{
    let n = &sibs[idx];
    let k = n.kind.as_str();
    if contains_kind(&cfg.comment_kinds, k) && spans(n, line) {
        ctx.is_doc_comment = is_doc_comment(cfg, sibs, idx, has_parent);
    }
    if contains_kind(&cfg.import_kinds, k) && spans(n, line) {
        ctx.is_import = true;
    }
}

/// Entering the node `sibs[idx]` when it is a function or a scope.
fn enter(cfg: &LangConfig, sibs: &Vec<SyntaxNode>, idx: usize, line: usize, ctx: &mut SemanticContext)
    requires
        idx < sibs@.len(),
    ensures
        final(ctx)@ == scope_step(cfg@, sibs@, idx as int, line, function_step(cfg@, sibs@, idx as int, line, old(ctx)@)),
{
    let n = &sibs[idx];
    let k = n.kind.as_str();
    if contains_kind(&cfg.function_kinds, k) && spans(n, line) {
        if let Some(name) = node_name_exec(n, cfg.function_name_extractor) {
            ctx.enclosing_function = Some(name);
        }
        ctx.is_toplevel = false;
        collect_annotations(cfg, sibs, idx, &mut ctx.annotations);
    }
    if contains_kind(&cfg.scope_kinds, k) && spans(n, line) {
        if let Some(name) = node_name_exec(n, cfg.scope_name_extractor) {
            ctx.enclosing_scope = Some(name);
        }
        ctx.is_toplevel = false;
        collect_annotations(cfg, sibs, idx, &mut ctx.annotations);
    }
}

/// A `call` node defining a function, a scope or an import; tells whether
/// a function or scope was entered.
fn enter_call(cfg: &LangConfig, n: &SyntaxNode, line: usize, ctx: &mut SemanticContext) -> (entered: bool)
    ensures
        final(ctx)@ == call_step(cfg@, *n, line, old(ctx)@),
        entered == enters_call(cfg@, *n, line),
{
    if !(str_eq(n.kind.as_str(), "call") && spans(n, line)) {
        return false;
    }
    let target = match call_target_exec(n) {
        Some(t) => t,
        None => {
            return false;
        },
    };
    if contains_kind(&cfg.call_function_targets, target.as_str()) {
        if let Some(name) = call_arg_name_exec(n) {
            ctx.enclosing_function = Some(name);
        }
        ctx.is_toplevel = false;
        true
    } else if contains_kind(&cfg.call_scope_targets, target.as_str()) {
        if let Some(name) = call_arg_name_exec(n) {
            ctx.enclosing_scope = Some(name);
        }
        ctx.is_toplevel = false;
        true
    } else {
        if contains_kind(&cfg.call_import_targets, target.as_str()) {
            ctx.is_import = true;
        }
        false
    }
}

/// What the node `sibs[idx]` adds to the context; returns the depth below it.
fn visit_node(cfg: &LangConfig, sibs: &Vec<SyntaxNode>, idx: usize, has_parent: bool, line: usize,
    ctx: &mut SemanticContext, depth: usize) -> (below: usize)
    requires
        idx < sibs@.len(),
    ensures
        final(ctx)@ == visit(cfg@, sibs@, idx as int, has_parent, line, old(ctx)@, depth as int),
        below as int == depth_below(cfg@, sibs@[idx as int], line, depth as int),
{
    mark(cfg, sibs, idx, has_parent, line, ctx);
    enter(cfg, sibs, idx, line, ctx);
    let n = &sibs[idx];
    let k = n.kind.as_str();
    let entered_block = (contains_kind(&cfg.function_kinds, k) || contains_kind(&cfg.scope_kinds, k)) && spans(n, line);
    let entered_call = enter_call(cfg, n, line, ctx);
    let below = if entered_block || entered_call {
        if depth < usize::MAX {
            depth + 1
        } else {
            depth
        }
    } else {
        depth
    };
    if below > ctx.nesting_depth {
        ctx.nesting_depth = below;
    }
    below
}

/// Walk the node `sibs[idx]` and, depth first, those of its descendants that
/// span the 0-based `line`; inner functions and scopes overwrite outer ones.
fn find_enclosing(cfg: &LangConfig, sibs: &Vec<SyntaxNode>, idx: usize, has_parent: bool, line: usize,
    ctx: &mut SemanticContext, depth: usize)
    requires
        idx < sibs@.len(),
    ensures
        final(ctx)@ == enc(cfg@, sibs@, idx as int, has_parent, line, old(ctx)@, depth as int),
    decreases sibs@[idx as int], 0int,
{
    let below = visit_node(cfg, sibs, idx, has_parent, line, ctx, depth);
    let cs = &sibs[idx].children;
    let n = cs.len();
    let ghost start = ctx@;
    let mut k: usize = 0;
    while k < n
        invariant
            n == cs@.len(),
            k <= n,
            cs == sibs@[idx as int].children,
            enc_children(cfg@, cs@, 0, line, start, below as int) == enc_children(cfg@, cs@, k as int, line, ctx@, below as int),
        decreases n - k,
    {
        if spans(&cs[k], line) {
            find_enclosing(cfg, cs, k, true, line, ctx, below);
        }
        k += 1;
    }
}


// ---------------------------------------------------------------------------
// Parsed files
// ---------------------------------------------------------------------------

/// A source file parsed with the grammar of its language.
pub struct ParsedFile {
    /// The root of the syntax tree, alone.
    top: Vec<SyntaxNode>,
    config: LangConfig,
}

impl ParsedFile {
    #[verifier::type_invariant]
    spec fn well_formed(self) -> bool {
        self.top@.len() == 1
    }

    /// The root of the syntax tree.
    pub closed spec fn root(self) -> SyntaxNode {
        self.top@[0]
    }

    /// The configuration of the file's language.
    pub closed spec fn language_config(self) -> ConfigV {
        self.config@
    }

    /// Parse a source file given its extension (e.g., "rs", "py") and content.
    /// Returns `None` if the language is not supported.
    pub fn parse(extension: &str, source: &str) -> (r: Option<Self>)
        ensures
            match config_for(extension@) {
                None => r is None,
                Some(c) => match syntax_tree(c.language, source@) {
                    None => r is None,
                    Some(t) => r matches Some(p) && p.root() == t && p.language_config() == c,
                },
            },
    {
        let config = match get_lang_config(extension) {
            Some(c) => c,
            None => {
                return None;
            },
        };
        match parse_syntax(config.language, source) {
            Some(tree) => Some(ParsedFile { top: vec![tree], config }),
            None => None,
        }
    }

    /// The semantic context of the 1-based line `line`.
    fn context_for(&self, line: usize) -> (r: SemanticContext)
        ensures
            r@ == context_at(self.language_config(), self.root(), line),
    {
        proof {
            use_type_invariant(self);
        }
        let mut ctx = SemanticContext::default();
        if line == 0 {
            return ctx;
        }
        ctx.is_toplevel = true;
        find_enclosing(&self.config, &self.top, 0, false, line - 1, &mut ctx, 0);
        ctx
    }

    /// Get the semantic context (enclosing function/scope) for a given
    /// 1-based line number.
    pub fn context_at_line(&self, line: usize) -> (r: SemanticContext)
        ensures
            r@ == context_at(self.language_config(), self.root(), line),
    {
        self.context_for(line)
    }

    /// Get semantic contexts for multiple 1-based line numbers; the tree is
    /// parsed once and reused.
    pub fn contexts_at_lines(&self, lines: &[usize]) -> (r: Vec<SemanticContext>)
        ensures
            r@.len() == lines@.len(),
            forall|i: int| 0 <= i < lines@.len() ==> (#[trigger] r@[i])@ == context_at(self.language_config(), self.root(), lines@[i]),
    {
        let mut r: Vec<SemanticContext> = Vec::new();
        let n = lines.len();
        let mut i: usize = 0;
        while i < n
            invariant
                n == lines@.len(),
                i <= n,
                r@.len() == i,
                forall|j: int| 0 <= j < i ==> (#[trigger] r@[j])@ == context_at(self.language_config(), self.root(), lines@[j]),
            decreases n - i,
        {
            r.push(self.context_for(lines[i]));
            i += 1;
        }
        r
    }
}

/// The context of the 1-based `line` in a file with extension `ext` and text
/// `source`: the empty context when the language is not supported or the
/// text cannot be parsed.
pub open spec fn file_context(ext: Seq<char>, source: Seq<char>, line: usize) -> CtxV {
    match config_for(ext) {
        None => empty_ctx(),
        Some(c) => match syntax_tree(c.language, source) {
            None => empty_ctx(),
            Some(t) => context_at(c, t, line),
        },
    }
}

/// Semantic contexts of many lines of one file, parsing it once.
pub fn contexts_for_lines(extension: &str, source: &str, lines: &[usize]) -> (r: Vec<SemanticContext>)
    ensures
        r@.len() == lines@.len(),
        forall|i: int| 0 <= i < lines@.len() ==> (#[trigger] r@[i])@ == file_context(extension@, source@, lines@[i]),
{
    match ParsedFile::parse(extension, source) {
        Some(parsed) => parsed.contexts_at_lines(lines),
        None => {
            let mut r: Vec<SemanticContext> = Vec::new();
            let n = lines.len();
            let mut i: usize = 0;
            while i < n
                invariant
                    n == lines@.len(),
                    i <= n,
                    r@.len() == i,
                    forall|j: int| 0 <= j < i ==> (#[trigger] r@[j])@ == empty_ctx(),
                decreases n - i,
            {
                r.push(SemanticContext::default());
                i += 1;
            }
            r
        },
    }
}


// ---------------------------------------------------------------------------
// Laws
// ---------------------------------------------------------------------------

/// A context is at the top level exactly when its depth is 0, and a walk at
/// depth `d` has its depth at least `d`.
pub open spec fn depth_consistent(c: CtxV, d: int) -> bool {
    &&& (c.toplevel <==> c.depth == 0)
    &&& 0 <= d <= c.depth
}

proof fn lemma_visit_consistent(cfg: ConfigV, sibs: Seq<SyntaxNode>, idx: int, has_parent: bool, line: usize,
    c: CtxV, d: int)
    requires
        depth_consistent(c, d),
    ensures
        depth_consistent(visit(cfg, sibs, idx, has_parent, line, c, d), depth_below(cfg, sibs[idx], line, d)),
{
}

proof fn lemma_enc_consistent(cfg: ConfigV, sibs: Seq<SyntaxNode>, idx: int, has_parent: bool, line: usize,
    c: CtxV, d: int)
    requires
        depth_consistent(c, d),
    ensures
        depth_consistent(enc(cfg, sibs, idx, has_parent, line, c, d), d),
    decreases sibs[idx], 0int,
{
    lemma_visit_consistent(cfg, sibs, idx, has_parent, line, c, d);
    lemma_children_consistent(cfg, sibs[idx].children@, 0, line, visit(cfg, sibs, idx, has_parent, line, c, d),
        depth_below(cfg, sibs[idx], line, d));
}

proof fn lemma_children_consistent(cfg: ConfigV, cs: Seq<SyntaxNode>, k: int, line: usize, c: CtxV, d: int)
    requires
        depth_consistent(c, d),
    ensures
        depth_consistent(enc_children(cfg, cs, k, line, c, d), d),
    decreases cs, cs.len() - k,
{
    if 0 <= k < cs.len() {
        if spans_line(cs[k], line) {
            lemma_enc_consistent(cfg, cs, k, true, line, c, d);
            lemma_children_consistent(cfg, cs, k + 1, line, enc(cfg, cs, k, true, line, c, d), d);
        } else {
            lemma_children_consistent(cfg, cs, k + 1, line, c, d);
        }
    }
}

/// The languages whose grammar calls a class `class_declaration`.
pub open spec fn classes_are_class_declarations(l: LanguageId) -> bool {
    ||| l == LanguageId::JavaScript
    ||| l == LanguageId::TypeScript
    ||| l == LanguageId::Tsx
    ||| l == LanguageId::Java
    ||| l == LanguageId::CSharp
    ||| l == LanguageId::Swift
    ||| l == LanguageId::Php
}

/// A class is a scope: in each language whose grammar calls a class
/// `class_declaration` (JavaScript, TypeScript, TSX, Java, C#, Swift, PHP),
/// reaching a class declaration that spans the line makes the class, by its
/// name, the line's scope, takes the line off the top level, and goes one
/// level deeper.
pub proof fn law_class_declaration_is_scope(l: LanguageId, sibs: Seq<SyntaxNode>, idx: int, has_parent: bool,
    line: usize, c: CtxV, d: int, name: Seq<char>)
    requires
        classes_are_class_declarations(l),
        0 <= idx < sibs.len(),
        sibs[idx].kind@ == "class_declaration"@,
        spans_line(sibs[idx], line),
        field_text(sibs[idx], "name"@) == Some(name),
    ensures
        ({
            let cfg = config_of_spec(l);
            let v = visit(cfg, sibs, idx, has_parent, line, c, d);
            &&& v.scope == Some(name)
            &&& !v.toplevel
            &&& depth_below(cfg, sibs[idx], line, d) == sat_inc(d)
        }),
{
    let cfg = config_of_spec(l);
    assert(cfg.scope_kinds[0]@ == "class_declaration"@);
    assert(in_kinds(cfg.scope_kinds, sibs[idx].kind@));
    reveal_strlit("call");
    reveal_strlit("class_declaration");
    assert("call"@.len() != "class_declaration"@.len());
}

/// A line is at the top level exactly when its nesting depth is 0: no
/// function or scope encloses it. (Line 0, which names no line, has the
/// empty context, which is neither.)
pub proof fn law_toplevel_iff_depth_zero(cfg: ConfigV, root: SyntaxNode, line: usize)
    requires
        line > 0,
    ensures
        context_at(cfg, root, line).toplevel <==> context_at(cfg, root, line).depth == 0,
{
    lemma_enc_consistent(cfg, seq![root], 0, false, (line - 1) as usize, start_ctx(), 0);
}

} // verus!
