//! Symbols of source files: their kinds, the languages the index reads, and
//! how symbols are picked out of a parsed syntax tree.
use vstd::prelude::*;

use crate::text::{
    byte_len, char_index_at, char_index_of_byte, contains, eq_str, extension_of, is_char_boundary,
    join, join_chars, last_dot, lemma_char_index_at, lemma_last_index_bound, lines, split_lines,
    sub_chars, to_chars, trim, trim_chars, views, from_chars, has_substring,
};

verus! {

broadcast use vstd::string::group_string_axioms;

#[derive(Debug, Clone)]
pub struct SymbolInfo {
    pub path: String,
    pub name: String,
    pub kind: SymbolKind,
    pub start_line: usize,
    pub end_line: usize,
    pub signature: String,
    pub body_snippet: String,
}

#[derive(Debug, Clone, Copy, PartialEq, Eq, Structural)]
pub enum SymbolKind {
    Function,
    Method,
    Struct,
    Class,
    Enum,
    Trait,
    Impl,
    Import,
    Interface,
    Constant,
}

/// The name under which a symbol kind is stored.
pub open spec fn kind_name(k: SymbolKind) -> Seq<char> {
    match k {
        SymbolKind::Function => "function"@,
        SymbolKind::Method => "method"@,
        SymbolKind::Struct => "struct"@,
        SymbolKind::Class => "class"@,
        SymbolKind::Enum => "enum"@,
        SymbolKind::Trait => "trait"@,
        SymbolKind::Impl => "impl"@,
        SymbolKind::Import => "import"@,
        SymbolKind::Interface => "interface"@,
        SymbolKind::Constant => "constant"@,
    }
}

/// The kind stored under a name; unknown names read as functions.
pub open spec fn kind_of_name(s: Seq<char>) -> SymbolKind {
    if s == "function"@ {
        SymbolKind::Function
    } else if s == "method"@ {
        SymbolKind::Method
    } else if s == "struct"@ {
        SymbolKind::Struct
    } else if s == "class"@ {
        SymbolKind::Class
    } else if s == "enum"@ {
        SymbolKind::Enum
    } else if s == "trait"@ {
        SymbolKind::Trait
    } else if s == "impl"@ {
        SymbolKind::Impl
    } else if s == "import"@ {
        SymbolKind::Import
    } else if s == "interface"@ {
        SymbolKind::Interface
    } else if s == "constant"@ {
        SymbolKind::Constant
    } else {
        SymbolKind::Function
    }
}

impl SymbolKind {
    pub fn as_str(&self) -> (s: &'static str)
        ensures
            s@ == kind_name(*self),
    {
        match self {
            SymbolKind::Function => "function",
            SymbolKind::Method => "method",
            SymbolKind::Struct => "struct",
            SymbolKind::Class => "class",
            SymbolKind::Enum => "enum",
            SymbolKind::Trait => "trait",
            SymbolKind::Impl => "impl",
            SymbolKind::Import => "import",
            SymbolKind::Interface => "interface",
            SymbolKind::Constant => "constant",
        }
    }

    pub fn from_str(s: &str) -> (k: Self)
        ensures
            k == kind_of_name(s@),
    {
        let v = to_chars(s);
        if eq_str(&v, "function") {
            SymbolKind::Function
        } else if eq_str(&v, "method") {
            SymbolKind::Method
        } else if eq_str(&v, "struct") {
            SymbolKind::Struct
        } else if eq_str(&v, "class") {
            SymbolKind::Class
        } else if eq_str(&v, "enum") {
            SymbolKind::Enum
        } else if eq_str(&v, "trait") {
            SymbolKind::Trait
        } else if eq_str(&v, "impl") {
            SymbolKind::Impl
        } else if eq_str(&v, "import") {
            SymbolKind::Import
        } else if eq_str(&v, "interface") {
            SymbolKind::Interface
        } else if eq_str(&v, "constant") {
            SymbolKind::Constant
        } else {
            SymbolKind::Function
        }
    }
}

/// Reading back the stored name of a kind gives the kind.
pub proof fn law_kind_name_round_trip(k: SymbolKind)
    ensures
        kind_of_name(kind_name(k)) == k,
{
    reveal_strlit("function");
    reveal_strlit("method");
    reveal_strlit("struct");
    reveal_strlit("class");
    reveal_strlit("enum");
    reveal_strlit("trait");
    reveal_strlit("impl");
    reveal_strlit("import");
    reveal_strlit("interface");
    reveal_strlit("constant");
    assert("method"@.len() != "function"@.len());
    assert("struct"@.len() != "function"@.len());
    assert("struct"@[0] != "method"@[0]);
    assert("class"@.len() != "function"@.len());
    assert("class"@.len() != "method"@.len());
    assert("class"@.len() != "struct"@.len());
    assert("enum"@.len() != "function"@.len());
    assert("enum"@.len() != "method"@.len());
    assert("enum"@.len() != "struct"@.len());
    assert("enum"@.len() != "class"@.len());
    assert("trait"@.len() != "function"@.len());
    assert("trait"@.len() != "method"@.len());
    assert("trait"@.len() != "struct"@.len());
    assert("trait"@[0] != "class"@[0]);
    assert("trait"@.len() != "enum"@.len());
    assert("impl"@.len() != "function"@.len());
    assert("impl"@.len() != "method"@.len());
    assert("impl"@.len() != "struct"@.len());
    assert("impl"@.len() != "class"@.len());
    assert("impl"@[0] != "enum"@[0]);
    assert("impl"@.len() != "trait"@.len());
    assert("import"@.len() != "function"@.len());
    assert("import"@[0] != "method"@[0]);
    assert("import"@[0] != "struct"@[0]);
    assert("import"@.len() != "class"@.len());
    assert("import"@.len() != "enum"@.len());
    assert("import"@.len() != "trait"@.len());
    assert("import"@.len() != "impl"@.len());
    assert("interface"@.len() != "function"@.len());
    assert("interface"@.len() != "method"@.len());
    assert("interface"@.len() != "struct"@.len());
    assert("interface"@.len() != "class"@.len());
    assert("interface"@.len() != "enum"@.len());
    assert("interface"@.len() != "trait"@.len());
    assert("interface"@.len() != "impl"@.len());
    assert("interface"@.len() != "import"@.len());
    assert("constant"@[0] != "function"@[0]);
    assert("constant"@.len() != "method"@.len());
    assert("constant"@.len() != "struct"@.len());
    assert("constant"@.len() != "class"@.len());
    assert("constant"@.len() != "enum"@.len());
    assert("constant"@.len() != "trait"@.len());
    assert("constant"@.len() != "impl"@.len());
    assert("constant"@.len() != "import"@.len());
    assert("constant"@.len() != "interface"@.len());
}

#[derive(Debug)]
pub struct IndexStats {
    pub files_scanned: usize,
    pub files_indexed: usize,
    pub symbols_found: usize,
    pub elapsed_ms: u128,
}

// ── Language Detection ──

#[derive(Debug, Clone, Copy, PartialEq, Eq, Structural)]
pub enum Language {
    Rust,
    Go,
    Python,
    TypeScript,
    Java,
    C,
    Cpp,
    JavaScript,
    Ruby,
    Kotlin,
}

/// The language of source files with a given extension.
pub open spec fn language_of_extension(e: Seq<char>) -> Option<Language> {
    if e == "rs"@ {
        Some(Language::Rust)
    } else if e == "go"@ {
        Some(Language::Go)
    } else if e == "py"@ {
        Some(Language::Python)
    } else if e == "ts"@ || e == "tsx"@ {
        Some(Language::TypeScript)
    } else if e == "java"@ {
        Some(Language::Java)
    } else if e == "c"@ || e == "h"@ {
        Some(Language::C)
    } else if e == "cpp"@ || e == "cc"@ || e == "cxx"@ || e == "hpp"@ || e == "hxx"@ {
        Some(Language::Cpp)
    } else if e == "js"@ || e == "jsx"@ || e == "mjs"@ {
        Some(Language::JavaScript)
    } else if e == "rb"@ || e == "rake"@ {
        Some(Language::Ruby)
    } else if e == "kt"@ || e == "kts"@ {
        Some(Language::Kotlin)
    } else {
        None
    }
}

/// The language of a source file, by the extension of its file name.
pub fn detect_language(file_name: &str) -> (r: Option<Language>)
    ensures
        r == match extension_of(file_name@) {
            Some(e) => language_of_extension(e),
            None => None,
        },
{
    let name = to_chars(file_name);
    let d = match last_dot(&name) {
        Some(d) => d,
        None => return None,
    };
    if d == 0 {
        return None;
    }
    proof {
        lemma_last_index_bound(name@, '.');
    }
    assert(d < name.len());
    let e = sub_chars(&name, d + 1, name.len());
    assert(e@ =~= name@.skip(d + 1));
    if eq_str(&e, "rs") {
        Some(Language::Rust)
    } else if eq_str(&e, "go") {
        Some(Language::Go)
    } else if eq_str(&e, "py") {
        Some(Language::Python)
    } else if eq_str(&e, "ts") || eq_str(&e, "tsx") {
        Some(Language::TypeScript)
    } else if eq_str(&e, "java") {
        Some(Language::Java)
    } else if eq_str(&e, "c") || eq_str(&e, "h") {
        Some(Language::C)
    } else if eq_str(&e, "cpp") || eq_str(&e, "cc") || eq_str(&e, "cxx") || eq_str(&e, "hpp")
        || eq_str(&e, "hxx") {
        Some(Language::Cpp)
    } else if eq_str(&e, "js") || eq_str(&e, "jsx") || eq_str(&e, "mjs") {
        Some(Language::JavaScript)
    } else if eq_str(&e, "rb") || eq_str(&e, "rake") {
        Some(Language::Ruby)
    } else if eq_str(&e, "kt") || eq_str(&e, "kts") {
        Some(Language::Kotlin)
    } else {
        None
    }
}

/// The name under which a language is stored.
pub open spec fn language_name(l: Language) -> Seq<char> {
    match l {
        Language::Rust => "rust"@,
        Language::Go => "go"@,
        Language::Python => "python"@,
        Language::TypeScript => "typescript"@,
        Language::Java => "java"@,
        Language::C => "c"@,
        Language::Cpp => "cpp"@,
        Language::JavaScript => "javascript"@,
        Language::Ruby => "ruby"@,
        Language::Kotlin => "kotlin"@,
    }
}

impl Language {
    pub fn as_str(&self) -> (s: &'static str)
        ensures
            s@ == language_name(*self),
    {
        match self {
            Language::Rust => "rust",
            Language::Go => "go",
            Language::Python => "python",
            Language::TypeScript => "typescript",
            Language::Java => "java",
            Language::C => "c",
            Language::Cpp => "cpp",
            Language::JavaScript => "javascript",
            Language::Ruby => "ruby",
            Language::Kotlin => "kotlin",
        }
    }
}

/// The symbol kind that a syntax node of a language stands for, if any.
pub open spec fn symbol_for_node(kind: Seq<char>, language: Language) -> Option<SymbolKind> {
    match language {
        Language::Rust => {
            if kind == "function_item"@ {
                Some(SymbolKind::Function)
            } else if kind == "struct_item"@ {
                Some(SymbolKind::Struct)
            } else if kind == "enum_item"@ {
                Some(SymbolKind::Enum)
            } else if kind == "trait_item"@ {
                Some(SymbolKind::Trait)
            } else if kind == "impl_item"@ {
                Some(SymbolKind::Impl)
            } else if kind == "use_declaration"@ {
                Some(SymbolKind::Import)
            } else if kind == "const_item"@ {
                Some(SymbolKind::Constant)
            } else if kind == "static_item"@ {
                Some(SymbolKind::Constant)
            } else {
                None
            }
        },
        Language::Go => {
            if kind == "function_declaration"@ {
                Some(SymbolKind::Function)
            } else if kind == "method_declaration"@ {
                Some(SymbolKind::Method)
            } else if kind == "type_declaration"@ {
                Some(SymbolKind::Struct)
            } else if kind == "import_declaration"@ {
                Some(SymbolKind::Import)
            } else {
                None
            }
        },
        Language::Python => {
            if kind == "function_definition"@ {
                Some(SymbolKind::Function)
            } else if kind == "class_definition"@ {
                Some(SymbolKind::Class)
            } else if kind == "import_statement"@ {
                Some(SymbolKind::Import)
            } else if kind == "import_from_statement"@ {
                Some(SymbolKind::Import)
            } else {
                None
            }
        },
        Language::TypeScript => {
            if kind == "function_declaration"@ {
                Some(SymbolKind::Function)
            } else if kind == "class_declaration"@ {
                Some(SymbolKind::Class)
            } else if kind == "interface_declaration"@ {
                Some(SymbolKind::Interface)
            } else if kind == "type_alias_declaration"@ {
                Some(SymbolKind::Struct)
            } else if kind == "import_statement"@ {
                Some(SymbolKind::Import)
            } else if kind == "enum_declaration"@ {
                Some(SymbolKind::Enum)
            } else {
                None
            }
        },
        Language::Java => {
            if kind == "method_declaration"@ {
                Some(SymbolKind::Method)
            } else if kind == "constructor_declaration"@ {
                Some(SymbolKind::Method)
            } else if kind == "class_declaration"@ {
                Some(SymbolKind::Class)
            } else if kind == "interface_declaration"@ {
                Some(SymbolKind::Interface)
            } else if kind == "enum_declaration"@ {
                Some(SymbolKind::Enum)
            } else if kind == "import_declaration"@ {
                Some(SymbolKind::Import)
            } else {
                None
            }
        },
        Language::C => {
            if kind == "function_definition"@ {
                Some(SymbolKind::Function)
            } else if kind == "struct_specifier"@ {
                Some(SymbolKind::Struct)
            } else if kind == "enum_specifier"@ {
                Some(SymbolKind::Enum)
            } else if kind == "type_definition"@ {
                Some(SymbolKind::Struct)
            } else if kind == "preproc_include"@ {
                Some(SymbolKind::Import)
            } else {
                None
            }
        },
        Language::Cpp => {
            if kind == "function_definition"@ {
                Some(SymbolKind::Function)
            } else if kind == "class_specifier"@ {
                Some(SymbolKind::Class)
            } else if kind == "struct_specifier"@ {
                Some(SymbolKind::Struct)
            } else if kind == "enum_specifier"@ {
                Some(SymbolKind::Enum)
            } else if kind == "namespace_definition"@ {
                Some(SymbolKind::Impl)
            } else if kind == "preproc_include"@ {
                Some(SymbolKind::Import)
            } else {
                None
            }
        },
        Language::JavaScript => {
            if kind == "function_declaration"@ {
                Some(SymbolKind::Function)
            } else if kind == "method_definition"@ {
                Some(SymbolKind::Method)
            } else if kind == "class_declaration"@ {
                Some(SymbolKind::Class)
            } else if kind == "lexical_declaration"@ {
                Some(SymbolKind::Constant)
            } else if kind == "import_statement"@ {
                Some(SymbolKind::Import)
            } else {
                None
            }
        },
        Language::Ruby => {
            if kind == "method"@ {
                Some(SymbolKind::Function)
            } else if kind == "singleton_method"@ {
                Some(SymbolKind::Method)
            } else if kind == "class"@ {
                Some(SymbolKind::Class)
            } else if kind == "module"@ {
                Some(SymbolKind::Impl)
            } else {
                None
            }
        },
        Language::Kotlin => {
            if kind == "function_declaration"@ {
                Some(SymbolKind::Function)
            } else if kind == "class_declaration"@ {
                Some(SymbolKind::Class)
            } else if kind == "object_declaration"@ {
                Some(SymbolKind::Class)
            } else if kind == "property_declaration"@ {
                Some(SymbolKind::Constant)
            } else if kind == "import_header"@ {
                Some(SymbolKind::Import)
            } else {
                None
            }
        },
    }
}

/// The symbol kind of a node kind in a language.
pub fn node_kind_to_symbol(kind: &str, language: Language) -> (r: Option<SymbolKind>)
    ensures
        r == symbol_for_node(kind@, language),
{
    let k = to_chars(kind);
    match language {
        Language::Rust => {
            if eq_str(&k, "function_item") {
                Some(SymbolKind::Function)
            } else if eq_str(&k, "struct_item") {
                Some(SymbolKind::Struct)
            } else if eq_str(&k, "enum_item") {
                Some(SymbolKind::Enum)
            } else if eq_str(&k, "trait_item") {
                Some(SymbolKind::Trait)
            } else if eq_str(&k, "impl_item") {
                Some(SymbolKind::Impl)
            } else if eq_str(&k, "use_declaration") {
                Some(SymbolKind::Import)
            } else if eq_str(&k, "const_item") {
                Some(SymbolKind::Constant)
            } else if eq_str(&k, "static_item") {
                Some(SymbolKind::Constant)
            } else {
                None
            }
        },
        Language::Go => {
            if eq_str(&k, "function_declaration") {
                Some(SymbolKind::Function)
            } else if eq_str(&k, "method_declaration") {
                Some(SymbolKind::Method)
            } else if eq_str(&k, "type_declaration") {
                Some(SymbolKind::Struct)
            } else if eq_str(&k, "import_declaration") {
                Some(SymbolKind::Import)
            } else {
                None
            }
        },
        Language::Python => {
            if eq_str(&k, "function_definition") {
                Some(SymbolKind::Function)
            } else if eq_str(&k, "class_definition") {
                Some(SymbolKind::Class)
            } else if eq_str(&k, "import_statement") {
                Some(SymbolKind::Import)
            } else if eq_str(&k, "import_from_statement") {
                Some(SymbolKind::Import)
            } else {
                None
            }
        },
        Language::TypeScript => {
            if eq_str(&k, "function_declaration") {
                Some(SymbolKind::Function)
            } else if eq_str(&k, "class_declaration") {
                Some(SymbolKind::Class)
            } else if eq_str(&k, "interface_declaration") {
                Some(SymbolKind::Interface)
            } else if eq_str(&k, "type_alias_declaration") {
                Some(SymbolKind::Struct)
            } else if eq_str(&k, "import_statement") {
                Some(SymbolKind::Import)
            } else if eq_str(&k, "enum_declaration") {
                Some(SymbolKind::Enum)
            } else {
                None
            }
        },
        Language::Java => {
            if eq_str(&k, "method_declaration") {
                Some(SymbolKind::Method)
            } else if eq_str(&k, "constructor_declaration") {
                Some(SymbolKind::Method)
            } else if eq_str(&k, "class_declaration") {
                Some(SymbolKind::Class)
            } else if eq_str(&k, "interface_declaration") {
                Some(SymbolKind::Interface)
            } else if eq_str(&k, "enum_declaration") {
                Some(SymbolKind::Enum)
            } else if eq_str(&k, "import_declaration") {
                Some(SymbolKind::Import)
            } else {
                None
            }
        },
        Language::C => {
            if eq_str(&k, "function_definition") {
                Some(SymbolKind::Function)
            } else if eq_str(&k, "struct_specifier") {
                Some(SymbolKind::Struct)
            } else if eq_str(&k, "enum_specifier") {
                Some(SymbolKind::Enum)
            } else if eq_str(&k, "type_definition") {
                Some(SymbolKind::Struct)
            } else if eq_str(&k, "preproc_include") {
                Some(SymbolKind::Import)
            } else {
                None
            }
        },
        Language::Cpp => {
            if eq_str(&k, "function_definition") {
                Some(SymbolKind::Function)
            } else if eq_str(&k, "class_specifier") {
                Some(SymbolKind::Class)
            } else if eq_str(&k, "struct_specifier") {
                Some(SymbolKind::Struct)
            } else if eq_str(&k, "enum_specifier") {
                Some(SymbolKind::Enum)
            } else if eq_str(&k, "namespace_definition") {
                Some(SymbolKind::Impl)
            } else if eq_str(&k, "preproc_include") {
                Some(SymbolKind::Import)
            } else {
                None
            }
        },
        Language::JavaScript => {
            if eq_str(&k, "function_declaration") {
                Some(SymbolKind::Function)
            } else if eq_str(&k, "method_definition") {
                Some(SymbolKind::Method)
            } else if eq_str(&k, "class_declaration") {
                Some(SymbolKind::Class)
            } else if eq_str(&k, "lexical_declaration") {
                Some(SymbolKind::Constant)
            } else if eq_str(&k, "import_statement") {
                Some(SymbolKind::Import)
            } else {
                None
            }
        },
        Language::Ruby => {
            if eq_str(&k, "method") {
                Some(SymbolKind::Function)
            } else if eq_str(&k, "singleton_method") {
                Some(SymbolKind::Method)
            } else if eq_str(&k, "class") {
                Some(SymbolKind::Class)
            } else if eq_str(&k, "module") {
                Some(SymbolKind::Impl)
            } else {
                None
            }
        },
        Language::Kotlin => {
            if eq_str(&k, "function_declaration") {
                Some(SymbolKind::Function)
            } else if eq_str(&k, "class_declaration") {
                Some(SymbolKind::Class)
            } else if eq_str(&k, "object_declaration") {
                Some(SymbolKind::Class)
            } else if eq_str(&k, "property_declaration") {
                Some(SymbolKind::Constant)
            } else if eq_str(&k, "import_header") {
                Some(SymbolKind::Import)
            } else {
                None
            }
        },
    }
}

// ── Symbol extraction from a syntax tree ──

/// One node of a parsed syntax tree. A tree is a list of nodes in preorder;
/// each node lists its children (all of them, in order) by their positions
/// in that list, and knows the field name it has in its parent, if any.
pub struct SyntaxNode {
    pub kind: String,
    pub field: Option<String>,
    pub start_byte: usize,
    pub end_byte: usize,
    pub start_row: usize,
    pub end_row: usize,
    pub children: Vec<usize>,
}

/// A symbol found in a source file, lines counted from 1.
pub struct ParsedSymbol {
    pub name: String,
    pub kind: SymbolKind,
    pub start_line: usize,
    pub end_line: usize,
    pub signature: String,
    pub body_snippet: String,
}

/// A symbol as plain values.
pub struct SymbolView {
    pub name: Seq<char>,
    pub kind: SymbolKind,
    pub start_line: usize,
    pub end_line: usize,
    pub signature: Seq<char>,
    pub body_snippet: Seq<char>,
}

impl ParsedSymbol {
    pub open spec fn view_of(&self) -> SymbolView {
        SymbolView {
            name: self.name@,
            kind: self.kind,
            start_line: self.start_line,
            end_line: self.end_line,
            signature: self.signature@,
            body_snippet: self.body_snippet@,
        }
    }
}

pub open spec fn symbol_views(v: Seq<ParsedSymbol>) -> Seq<SymbolView> {
    v.map_values(|x: ParsedSymbol| x.view_of())
}

/// The text of the source between two byte offsets; empty when an offset
/// falls inside a character (the bytes are then no valid UTF-8).
pub open spec fn node_text(src: Seq<char>, start: int, end: int) -> Seq<char> {
    if is_char_boundary(src, start) && is_char_boundary(src, end) {
        src.subrange(char_index_at(src, start), char_index_at(src, end))
    } else {
        seq![]
    }
}

/// Whether the nodes fit the source: byte ranges lie within it, children
/// are nodes of the list, and rows leave room for the line arithmetic.
pub open spec fn tree_fits(nodes: Seq<SyntaxNode>, src: Seq<char>) -> bool {
    forall|i: int|
        0 <= i < nodes.len() ==> {
            let n = #[trigger] nodes[i];
            &&& n.start_byte <= n.end_byte <= byte_len(src)
            &&& n.start_row <= n.end_row
            &&& n.end_row + 10 <= usize::MAX
            &&& forall|j: int| 0 <= j < n.children@.len() ==> #[trigger] n.children@[j] < nodes.len()
        }
}

/// Lines `start..` (at most `max_lines` of them, and none past `end`) joined by newlines.
pub open spec fn snippet(ls: Seq<Seq<char>>, start: int, end: int, max_lines: int) -> Seq<char> {
    let e1 = if start + max_lines < end + 1 { start + max_lines } else { end + 1 };
    let e = if e1 < ls.len() { e1 } else { ls.len() as int };
    if start >= ls.len() {
        seq![]
    } else {
        join(ls.subrange(start, e), "\n"@)
    }
}

pub fn extract_snippet(lines: &Vec<Vec<char>>, start: usize, end: usize, max_lines: usize) -> (r: Vec<char>)
    requires
        start <= end + 1,
        end < usize::MAX,
        start + max_lines <= usize::MAX,
    ensures
        r@ == snippet(views(lines@), start as int, end as int, max_lines as int),
{
    let e1 = if start + max_lines < end + 1 { start + max_lines } else { end + 1 };
    let e = if e1 < lines.len() { e1 } else { lines.len() };
    if start >= lines.len() {
        return Vec::new();
    }
    let mut part: Vec<Vec<char>> = Vec::new();
    let mut i = start;
    while i < e
        invariant
            start <= i <= e <= lines@.len(),
            views(part@) == views(lines@).subrange(start as int, i as int),
        decreases e - i,
    {
        let ghost p0 = views(part@);
        part.push(sub_chars(&lines[i], 0, lines[i].len()));
        assert(lines[i as int]@.subrange(0, lines[i as int]@.len() as int) =~= lines[i as int]@);
        assert(views(part@) =~= p0.push(lines@[i as int]@));
        i = i + 1;
        assert(views(part@) =~= views(lines@).subrange(start as int, i as int));
    }
    join_chars(&part, &to_chars("\n"))
}

pub open spec fn is_identifier_kind(k: Seq<char>) -> bool {
    k == "identifier"@ || k == "type_identifier"@ || k == "property_identifier"@
}

pub open spec fn opt_text(o: Option<String>) -> Option<Seq<char>> {
    match o {
        Some(s) => Some(s@),
        None => None,
    }
}

/// The first of the children `ch` whose field in the parent is `name`.
pub open spec fn first_name_child(nodes: Seq<SyntaxNode>, ch: Seq<usize>) -> Option<usize>
    decreases ch.len(),
{
    if ch.len() == 0 {
        None
    } else if opt_text(nodes[ch[0] as int].field) == Some("name"@) {
        Some(ch[0])
    } else {
        first_name_child(nodes, ch.drop_first())
    }
}

/// The first of the children `ch` that is an identifier.
pub open spec fn first_identifier_child(nodes: Seq<SyntaxNode>, ch: Seq<usize>) -> Option<usize>
    decreases ch.len(),
{
    if ch.len() == 0 {
        None
    } else if is_identifier_kind(nodes[ch[0] as int].kind@) {
        Some(ch[0])
    } else {
        first_identifier_child(nodes, ch.drop_first())
    }
}

pub open spec fn text_of(nodes: Seq<SyntaxNode>, i: int, src: Seq<char>) -> Seq<char> {
    node_text(src, nodes[i].start_byte as int, nodes[i].end_byte as int)
}

/// The name of a symbol node: for imports and `use` declarations their
/// trimmed text (at most 100 characters); otherwise the trimmed text of the
/// child in field `name`, else of the first identifier child, else nothing.
pub open spec fn symbol_name(nodes: Seq<SyntaxNode>, i: int, src: Seq<char>) -> Seq<char> {
    let n = nodes[i];
    if has_substring(n.kind@, "import"@) || has_substring(n.kind@, "use"@) {
        let t = trim(text_of(nodes, i, src));
        t.take(if t.len() < 100 { t.len() as int } else { 100 })
    } else {
        match first_name_child(nodes, n.children@) {
            Some(c) => trim(text_of(nodes, c as int, src)),
            None => match first_identifier_child(nodes, n.children@) {
                Some(c) => trim(text_of(nodes, c as int, src)),
                None => seq![],
            },
        }
    }
}

proof fn lemma_first_name_child_at(nodes: Seq<SyntaxNode>, ch: Seq<usize>, j: int)
    requires
        0 <= j < ch.len(),
        opt_text(nodes[ch[j] as int].field) == Some("name"@),
        forall|k: int| 0 <= k < j ==> opt_text(#[trigger] nodes[ch[k] as int].field) != Some("name"@),
    ensures
        first_name_child(nodes, ch) == Some(ch[j]),
    decreases j,
{
    if j > 0 {
        let t = ch.drop_first();
        assert forall|k: int| 0 <= k < j - 1 implies opt_text(#[trigger] nodes[t[k] as int].field) != Some("name"@) by {
            assert(t[k] == ch[k + 1]);
        }
        assert(opt_text(nodes[ch[0] as int].field) != Some("name"@));
        lemma_first_name_child_at(nodes, t, j - 1);
    }
}

/// A symbol node (no import or `use` declaration) with a child in field
/// `name` is named by that child's trimmed text, whatever identifiers come
/// before it among the children (the first such child where there are several).
pub proof fn law_name_field_names_symbol(nodes: Seq<SyntaxNode>, i: int, src: Seq<char>, j: int)
    requires
        0 <= i < nodes.len(),
        !has_substring(nodes[i].kind@, "import"@),
        !has_substring(nodes[i].kind@, "use"@),
        0 <= j < nodes[i].children@.len(),
        nodes[i].children@[j] < nodes.len(),
        opt_text(nodes[nodes[i].children@[j] as int].field) == Some("name"@),
        forall|k: int| 0 <= k < j ==> opt_text(#[trigger] nodes[nodes[i].children@[k] as int].field) != Some("name"@),
    ensures
        symbol_name(nodes, i, src) == trim(node_text(
            src,
            nodes[nodes[i].children@[j] as int].start_byte as int,
            nodes[nodes[i].children@[j] as int].end_byte as int,
        )),
{
    lemma_first_name_child_at(nodes, nodes[i].children@, j);
}

/// The first line of a text, trimmed.
pub open spec fn first_line_trimmed(t: Seq<char>) -> Seq<char> {
    if lines(t).len() > 0 {
        trim(lines(t)[0])
    } else {
        seq![]
    }
}

/// The symbol a node stands for, if it has a symbol kind and a non-empty name.
pub open spec fn symbol_of(nodes: Seq<SyntaxNode>, i: int, src: Seq<char>, language: Language) -> Option<SymbolView> {
    let n = nodes[i];
    match symbol_for_node(n.kind@, language) {
        Some(k) => if symbol_name(nodes, i, src).len() > 0 {
            Some(
                SymbolView {
                    name: symbol_name(nodes, i, src),
                    kind: k,
                    start_line: (n.start_row + 1) as usize,
                    end_line: (n.end_row + 1) as usize,
                    signature: first_line_trimmed(text_of(nodes, i, src)),
                    body_snippet: snippet(lines(src), n.start_row as int, n.end_row as int, 10),
                },
            )
        } else {
            None
        },
        None => None,
    }
}

/// The symbols of the first `k` nodes, in order.
pub open spec fn symbols_upto(nodes: Seq<SyntaxNode>, k: int, src: Seq<char>, language: Language) -> Seq<SymbolView>
    decreases k,
{
    if k <= 0 {
        seq![]
    } else {
        let rest = symbols_upto(nodes, k - 1, src, language);
        match symbol_of(nodes, k - 1, src, language) {
            Some(s) => rest.push(s),
            None => rest,
        }
    }
}

fn node_text_exec(src: &Vec<char>, start: usize, end: usize) -> (r: Vec<char>)
    requires
        start <= end,
    ensures
        r@ == node_text(src@, start as int, end as int),
{
    match (char_index_of_byte(src, start), char_index_of_byte(src, end)) {
        (Some(a), Some(b)) => {
            proof {
                lemma_char_index_at(src@, a as int);
                lemma_char_index_at(src@, b as int);
                if b < a {
                    crate::text::lemma_byte_len_take_mono(src@, b as int, a as int);
                }
            }
            sub_chars(src, a, b)
        },
        _ => Vec::new(),
    }
}

fn field_is_name(f: &Option<String>) -> (b: bool)
    ensures
        b == (opt_text(*f) == Some("name"@)),
{
    match f {
        Some(s) => eq_str(&to_chars(s.as_str()), "name"),
        None => false,
    }
}

/// The name of a symbol node (see `symbol_name`).
#[verifier::loop_isolation(false)]
pub fn extract_name(nodes: &Vec<SyntaxNode>, i: usize, src: &Vec<char>) -> (r: Vec<char>)
    requires
        i < nodes@.len(),
        tree_fits(nodes@, src@),
    ensures
        r@ == symbol_name(nodes@, i as int, src@),
{
    let n = &nodes[i];
    let kind = to_chars(n.kind.as_str());
    if contains(&kind, &to_chars("import")) || contains(&kind, &to_chars("use")) {
        let t = trim_chars(&node_text_exec(src, n.start_byte, n.end_byte));
        let m = if t.len() < 100 { t.len() } else { 100 };
        let r = sub_chars(&t, 0, m);
        assert(r@ =~= t@.take(m as int));
        return r;
    }
    let ch = &n.children;
    assert(tree_fits(nodes@, src@) ==> (forall|j: int| 0 <= j < ch@.len() ==> ch@[j] < nodes@.len())) by {
        let nn = nodes@[i as int];
    }
    let mut j: usize = 0;
    assert(ch@.skip(0) =~= ch@);
    while j < ch.len()
        invariant
            j <= ch@.len(),
            ch@ == nodes@[i as int].children@,
            forall|k: int| 0 <= k < ch@.len() ==> ch@[k] < nodes@.len(),
            tree_fits(nodes@, src@),
            first_name_child(nodes@, ch@) == first_name_child(nodes@, ch@.skip(j as int)),
        decreases ch.len() - j,
    {
        assert(ch@.skip(j as int).drop_first() =~= ch@.skip(j as int + 1));
        let c = &nodes[ch[j]];
        if field_is_name(&c.field) {
            return trim_chars(&node_text_exec(src, c.start_byte, c.end_byte));
        }
        j = j + 1;
    }
    let mut j: usize = 0;
    assert(ch@.skip(0) =~= ch@);
    while j < ch.len()
        invariant
            j <= ch@.len(),
            ch@ == nodes@[i as int].children@,
            forall|k: int| 0 <= k < ch@.len() ==> ch@[k] < nodes@.len(),
            tree_fits(nodes@, src@),
            first_name_child(nodes@, ch@) is None,
            first_identifier_child(nodes@, ch@) == first_identifier_child(nodes@, ch@.skip(j as int)),
        decreases ch.len() - j,
    {
        assert(ch@.skip(j as int).drop_first() =~= ch@.skip(j as int + 1));
        let c = &nodes[ch[j]];
        let ck = to_chars(c.kind.as_str());
        if eq_str(&ck, "identifier") || eq_str(&ck, "type_identifier") || eq_str(&ck, "property_identifier") {
            return trim_chars(&node_text_exec(src, c.start_byte, c.end_byte));
        }
        j = j + 1;
    }
    Vec::new()
}

fn first_line_trimmed_exec(t: &Vec<char>) -> (r: Vec<char>)
    ensures
        r@ == first_line_trimmed(t@),
{
    let ls = split_lines(t);
    if ls.len() > 0 {
        trim_chars(&ls[0])
    } else {
        Vec::new()
    }
}

/// The symbols of a syntax tree, in the order of its nodes (preorder).
pub fn extract_symbols(source: &str, nodes: &Vec<SyntaxNode>, language: Language) -> (r: Vec<ParsedSymbol>)
    requires
        tree_fits(nodes@, source@),
    ensures
        symbol_views(r@) == symbols_upto(nodes@, nodes@.len() as int, source@, language),
{
    let src = to_chars(source);
    let ls = split_lines(&src);
    let mut symbols: Vec<ParsedSymbol> = Vec::new();
    let mut i: usize = 0;
    while i < nodes.len()
        invariant
            i <= nodes@.len(),
            src@ == source@,
            views(ls@) == lines(source@),
            tree_fits(nodes@, source@),
            symbol_views(symbols@) == symbols_upto(nodes@, i as int, source@, language),
        decreases nodes.len() - i,
    {
        let n = &nodes[i];
        let ghost s0 = symbol_views(symbols@);
        match node_kind_to_symbol(n.kind.as_str(), language) {
            Some(k) => {
                let name = extract_name(nodes, i, &src);
                if name.len() > 0 {
                    let text = node_text_exec(&src, n.start_byte, n.end_byte);
                    let sig = first_line_trimmed_exec(&text);
                    let body = extract_snippet(&ls, n.start_row, n.end_row, 10);
                    let sym = ParsedSymbol {
                        name: from_chars(&name),
                        kind: k,
                        start_line: n.start_row + 1,
                        end_line: n.end_row + 1,
                        signature: from_chars(&sig),
                        body_snippet: from_chars(&body),
                    };
                    symbols.push(sym);
                    assert(symbol_views(symbols@) =~= s0.push(symbol_of(nodes@, i as int, source@, language)->0));
                }
            },
            None => {},
        }
        i = i + 1;
    }
    symbols
}

// ── Incremental indexing ──

#[verifier::external_type_specification]
#[verifier::external_body]
pub struct ExTsParser(tree_sitter::Parser);

#[verifier::external_type_specification]
#[verifier::external_body]
pub struct ExTreeCursor<'a>(tree_sitter::TreeCursor<'a>);

/// What tree-sitter's `Parser::parse` gives for a source text with the
/// grammar of a language, its nodes listed in preorder (each with its
/// children's positions in the list and the field name it has under its
/// parent); `None` where the parser gives no tree.
pub uninterp spec fn syntax_tree(source: Seq<char>, language: Language) -> Option<Seq<SyntaxNode>>;

/// tree-sitter's `Parser::set_language` with the language's grammar and
/// `Parser::parse` on the source, the tree walked with a `TreeCursor` into a
/// list of nodes. What it gives is named `syntax_tree`.
#[verifier::external_body]
pub fn parse_syntax(source: &str, language: Language) -> (r: Option<Vec<SyntaxNode>>)
    ensures
        r is Some <==> syntax_tree(source@, language) is Some,
        r matches Some(v) ==> syntax_tree(source@, language) == Some(v@),
{
    let mut parser = tree_sitter::Parser::new();
    if !set_grammar(&mut parser, language) {
        return None;
    }
    let tree = parser.parse(source, None)?;
    let mut nodes = Vec::new();
    flatten(&mut tree.walk(), &mut nodes);
    Some(nodes)
}

/// Gives the parser the tree-sitter grammar of a language
/// (`Parser::set_language`), telling whether it took it. Only `parse_syntax`
/// calls it; nothing is stated of it alone.
#[verifier::external_body]
fn set_grammar(parser: &mut tree_sitter::Parser, language: Language) -> bool {
    let grammar: tree_sitter::Language = match language {
        Language::Rust => tree_sitter_rust::LANGUAGE.into(),
        Language::Go => tree_sitter_go::LANGUAGE.into(),
        Language::Python => tree_sitter_python::LANGUAGE.into(),
        Language::TypeScript => tree_sitter_typescript::LANGUAGE_TYPESCRIPT.into(),
        Language::Java => tree_sitter_java::LANGUAGE.into(),
        Language::C => tree_sitter_c::LANGUAGE.into(),
        Language::Cpp => tree_sitter_cpp::LANGUAGE.into(),
        Language::JavaScript => tree_sitter_javascript::LANGUAGE.into(),
        Language::Ruby => tree_sitter_ruby::LANGUAGE.into(),
        Language::Kotlin => tree_sitter_kotlin_ng::LANGUAGE.into(),
    };
    parser.set_language(&grammar).is_ok()
}

/// Records the node under the cursor and then its subtree, in the order the
/// cursor walks them, and gives the node's position in the list. Only
/// `parse_syntax` calls it; nothing is stated of it alone.
#[verifier::external_body]
fn flatten(cursor: &mut tree_sitter::TreeCursor, nodes: &mut Vec<SyntaxNode>) -> usize {
    let (n, me) = (cursor.node(), nodes.len());
    let (start_row, end_row) = (n.start_position().row, n.end_position().row);
    let (start_byte, end_byte, kind) = (n.start_byte(), n.end_byte(), n.kind().to_string());
    nodes.push(SyntaxNode { kind, field: None, start_byte, end_byte, start_row, end_row, children: Vec::new() });
    let mut more = cursor.goto_first_child();
    while more {
        let field = cursor.field_name().map(|f| f.to_string());
        let child = flatten(cursor, nodes);
        nodes[child].field = field;
        nodes[me].children.push(child);
        more = cursor.goto_next_sibling() || !cursor.goto_parent();
    }
    me
}

/// Whether a node list fits a source text (see `tree_fits`).
pub fn fits_source(nodes: &Vec<SyntaxNode>, source: &str) -> (b: bool)
    ensures
        b == tree_fits(nodes@, source@),
{
    let len = crate::text::str_byte_len(source);
    let mut i: usize = 0;
    while i < nodes.len()
        invariant
            i <= nodes@.len(),
            len == byte_len(source@),
            forall|k: int|
                0 <= k < i ==> {
                    let n = #[trigger] nodes@[k];
                    &&& n.start_byte <= n.end_byte <= byte_len(source@)
                    &&& n.start_row <= n.end_row
                    &&& n.end_row + 10 <= usize::MAX
                    &&& forall|j: int| 0 <= j < n.children@.len() ==> #[trigger] n.children@[j] < nodes@.len()
                },
        decreases nodes.len() - i,
    {
        let n = &nodes[i];
        if !(n.start_byte <= n.end_byte && n.end_byte <= len && n.start_row <= n.end_row && n.end_row <= usize::MAX - 10) {
            assert(!tree_fits(nodes@, source@)) by {
                assert(nodes@[i as int] == *n);
            }
            return false;
        }
        let mut j: usize = 0;
        while j < n.children.len()
            invariant
                j <= n.children@.len(),
                i < nodes@.len(),
                nodes@[i as int] == *n,
                len == byte_len(source@),
                n.start_byte <= n.end_byte <= byte_len(source@),
                n.start_row <= n.end_row,
                n.end_row + 10 <= usize::MAX,
                forall|k: int|
                    0 <= k < i ==> {
                        let m = #[trigger] nodes@[k];
                        &&& m.start_byte <= m.end_byte <= byte_len(source@)
                        &&& m.start_row <= m.end_row
                        &&& m.end_row + 10 <= usize::MAX
                        &&& forall|j: int| 0 <= j < m.children@.len() ==> #[trigger] m.children@[j] < nodes@.len()
                    },
                forall|jj: int| 0 <= jj < j ==> #[trigger] n.children@[jj] < nodes@.len(),
            decreases n.children.len() - j,
        {
            if n.children[j] >= nodes.len() {
                assert(!tree_fits(nodes@, source@)) by {
                    assert(nodes@[i as int] == *n);
                    assert(nodes@[i as int].children@[j as int] >= nodes@.len());
                }
                return false;
            }
            j = j + 1;
        }
        assert(nodes@[i as int] == *n);
        i = i + 1;
    }
    true
}

/// The symbols of a source text: its syntax tree read with the language's
/// grammar and its symbols picked out; `None` where the parser gives no tree
/// or gives one that does not fit the text.
pub fn symbols_of_source(source: &str, language: Language) -> (r: Option<Vec<ParsedSymbol>>)
    ensures
        r is Some <==> (syntax_tree(source@, language) matches Some(t) && tree_fits(t, source@)),
        r matches Some(s) ==> (syntax_tree(source@, language) matches Some(t) && symbol_views(s@)
            == symbols_upto(t, t.len() as int, source@, language)),
{
    match parse_syntax(source, language) {
        Some(nodes) => {
            if fits_source(&nodes, source) {
                Some(extract_symbols(source, &nodes, language))
            } else {
                None
            }
        },
        None => None,
    }
}

/// The trimmed lines of a command's output that are not blank, in order.
pub open spec fn listed_paths(ls: Seq<Seq<char>>) -> Seq<Seq<char>>
    decreases ls.len(),
{
    if ls.len() == 0 {
        seq![]
    } else if trim(ls.last()).len() > 0 {
        listed_paths(ls.drop_last()).push(trim(ls.last()))
    } else {
        listed_paths(ls.drop_last())
    }
}

/// `acc` with each of `items` added, in order, unless it is there already.
pub open spec fn add_new(acc: Seq<Seq<char>>, items: Seq<Seq<char>>) -> Seq<Seq<char>>
    decreases items.len(),
{
    if items.len() == 0 {
        acc
    } else {
        add_new(
            if acc.contains(items[0]) {
                acc
            } else {
                acc.push(items[0])
            },
            items.drop_first(),
        )
    }
}

/// The files to index again: those changed since `HEAD` as listed, then the
/// staged and the untracked ones not listed before.
pub open spec fn changed_files_spec(head: Seq<char>, staged: Seq<char>, untracked: Seq<char>) -> Seq<Seq<char>> {
    add_new(add_new(listed_paths(lines(head)), listed_paths(lines(staged))), listed_paths(lines(untracked)))
}

fn listed_paths_exec(out: &str) -> (r: Vec<String>)
    ensures
        crate::text::string_views(r@) == listed_paths(lines(out@)),
{
    let ls = split_lines(&to_chars(out));
    let ghost lv = views(ls@);
    let mut r: Vec<String> = Vec::new();
    let mut i: usize = 0;
    while i < ls.len()
        invariant
            i <= ls@.len(),
            lv == views(ls@),
            lv == lines(out@),
            crate::text::string_views(r@) == listed_paths(lv.take(i as int)),
        decreases ls.len() - i,
    {
        assert(lv.take(i as int + 1).drop_last() =~= lv.take(i as int));
        assert(lv.take(i as int + 1).last() == ls@[i as int]@);
        let t = trim_chars(&ls[i]);
        if t.len() > 0 {
            let ghost before = crate::text::string_views(r@);
            let ghost tv = t@;
            r.push(from_chars(&t));
            assert(crate::text::string_views(r@) =~= before.push(tv));
        }
        i = i + 1;
    }
    assert(lv.take(ls@.len() as int) =~= lv);
    r
}

fn add_new_exec(acc: &mut Vec<String>, items: &Vec<String>)
    ensures
        crate::text::string_views(final(acc)@) == add_new(
            crate::text::string_views(old(acc)@),
            crate::text::string_views(items@),
        ),
{
    let ghost iv = crate::text::string_views(items@);
    let ghost target = add_new(crate::text::string_views(acc@), iv);
    let mut i: usize = 0;
    assert(iv.skip(0) =~= iv);
    while i < items.len()
        invariant
            i <= items@.len(),
            iv == crate::text::string_views(items@),
            add_new(crate::text::string_views(acc@), iv.skip(i as int)) == target,
        decreases items.len() - i,
    {
        let ghost rest = iv.skip(i as int);
        assert(rest[0] == items@[i as int]@);
        assert(rest.drop_first() =~= iv.skip(i as int + 1));
        let c = to_chars(items[i].as_str());
        if !crate::text::contains_string(acc, &c) {
            let ghost before = crate::text::string_views(acc@);
            acc.push(from_chars(&c));
            assert(crate::text::string_views(acc@) =~= before.push(c@));
        }
        i = i + 1;
    }
    assert(iv.skip(i as int) =~= Seq::<Seq<char>>::empty());
}

/// The files to index again, from the outputs of `git diff --name-only HEAD`,
/// `git diff --cached --name-only` and `git ls-files --others --exclude-standard`.
pub fn collect_changed_files(head: &str, staged: &str, untracked: &str) -> (r: Vec<String>)
    ensures
        crate::text::string_views(r@) == changed_files_spec(head@, staged@, untracked@),
{
    let mut files = listed_paths_exec(head);
    add_new_exec(&mut files, &listed_paths_exec(staged));
    add_new_exec(&mut files, &listed_paths_exec(untracked));
    files
}

/// Whether the index still holds a file as it is: it was recorded at or
/// after the file's modification time.
pub fn is_cached(cached_mtime: Option<i64>, modified_at: i64) -> (r: bool)
    ensures
        r == (cached_mtime matches Some(c) && c >= modified_at),
{
    match cached_mtime {
        Some(c) => c >= modified_at,
        None => false,
    }
}

/// What incremental indexing does with a changed file.
#[derive(Debug, Clone, Copy, PartialEq, Eq, Structural)]
pub enum ChangedFileStep {
    /// It no longer exists: drop it from the index.
    Remove,
    /// Leave it alone (not allowed, or no known language).
    Skip,
    /// Index it.
    Index,
}

pub fn changed_file_step(exists: bool, allowed: bool, has_language: bool) -> (r: ChangedFileStep)
    ensures
        !exists ==> r == ChangedFileStep::Remove,
        exists && !(allowed && has_language) ==> r == ChangedFileStep::Skip,
        exists && allowed && has_language ==> r == ChangedFileStep::Index,
{
    if !exists {
        ChangedFileStep::Remove
    } else if !allowed || !has_language {
        ChangedFileStep::Skip
    } else {
        ChangedFileStep::Index
    }
}

impl IndexStats {
    /// Stats before any file was looked at.
    pub fn empty() -> (s: Self)
        ensures
            s.files_scanned == 0 && s.files_indexed == 0 && s.symbols_found == 0 && s.elapsed_ms == 0,
    {
        IndexStats { files_scanned: 0, files_indexed: 0, symbols_found: 0, elapsed_ms: 0 }
    }

    /// Counts one more file looked at and adds what indexing it found (nothing
    /// where indexing it failed).
    pub fn add_file(&mut self, indexed: Option<&IndexStats>)
        requires
            old(self).files_scanned < usize::MAX,
            indexed matches Some(s) ==> old(self).files_indexed + s.files_indexed <= usize::MAX
                && old(self).symbols_found + s.symbols_found <= usize::MAX,
        ensures
            final(self).files_scanned == old(self).files_scanned + 1,
            final(self).files_indexed == old(self).files_indexed + match indexed {
                Some(s) => s.files_indexed as int,
                None => 0,
            },
            final(self).symbols_found == old(self).symbols_found + match indexed {
                Some(s) => s.symbols_found as int,
                None => 0,
            },
            final(self).elapsed_ms == old(self).elapsed_ms,
    {
        self.files_scanned = self.files_scanned + 1;
        match indexed {
            Some(s) => {
                self.files_indexed = self.files_indexed + s.files_indexed;
                self.symbols_found = self.symbols_found + s.symbols_found;
            },
            None => {},
        }
    }
}

} // verus!
