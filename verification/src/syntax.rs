//! Syntax trees of assembly source.

use vstd::prelude::*;

use crate::text::document_sized;

verus! {

/// A syntax tree of `tree_sitter`.
#[verifier::external_type_specification]
#[verifier::external_body]
pub struct ExTree(tree_sitter::Tree);

/// A parser of `tree_sitter`.
#[verifier::external_type_specification]
#[verifier::external_body]
pub struct ExParser(tree_sitter::Parser);

/// The syntax tree of an assembly source, which its view is.
pub struct SyntaxTree {
    tree: tree_sitter::Tree,
    source: Ghost<Seq<char>>,
}

impl View for SyntaxTree {
    type V = Seq<char>;

    closed spec fn view(&self) -> Seq<char> {
        self.source@
    }
}

impl SyntaxTree {
    /// The tree itself.
    pub closed spec fn spec_tree(self) -> tree_sitter::Tree {
        self.tree
    }

    /// The tree itself.
    pub fn tree(&self) -> (r: &tree_sitter::Tree)
        ensures
            *r == self.spec_tree(),
    {
        &self.tree
    }
}

/// A parser of assembly source.
pub struct AsmParser {
    parser: tree_sitter::Parser,
}

impl AsmParser {
    /// Calls `tree_sitter::Parser::new` and `set_language` with `tree_sitter_asm::language`. A
    /// parser so made has the assembly grammar, no timeout and no cancellation flag, and nothing
    /// outside this type can change that.
    #[verifier::external_body]
    pub(crate) fn new() -> AsmParser {
        let mut parser = tree_sitter::Parser::new();
        parser.set_language(&tree_sitter_asm::language()).unwrap();
        AsmParser { parser }
    }

    /// Calls `tree_sitter::Parser::parse` without an old tree. With a language set, and neither a
    /// timeout nor a cancellation flag, it always returns a tree, which is the tree of that text.
    #[verifier::external_body]
    pub(crate) fn parse(&mut self, text: &str) -> (r: Option<SyntaxTree>)
        requires
            document_sized(text@),
        ensures
            r is Some,
            r->0@ == text@,
    {
        self.parser.parse(text, None).map(|tree| SyntaxTree { tree, source: Ghost(text@) })
    }
}

} // verus!
