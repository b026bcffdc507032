use vstd::prelude::*;

verus! {

/// The kind tag of a rule occurrence produced by the grammar engine.
#[derive(Clone, Copy, Debug, PartialEq, Eq, Structural)]
pub enum RuleKind {
    Program,
    Assignment,
    Expression,
    Identifier,
    Number,
    FunctionCall,
    FunctionArguments,
    FunctionDefinition,
    IdentList,
    Block,
}

/// A half-open range `[start, end)` of character positions in the source text.
#[derive(Clone, Copy, Debug, PartialEq, Eq, Structural)]
pub struct Span {
    pub start: usize,
    pub end: usize,
}

/// One matched instance of a grammar rule: its tag, the text it matched, where
/// that text lies in the source, and its child occurrences in source order.
#[derive(Debug)]
pub struct Occurrence {
    pub rule: RuleKind,
    pub text: String,
    pub span: Span,
    pub children: Vec<Occurrence>,
}

impl Span {
    /// The span lies inside a text of `len` characters.
    pub open spec fn within(self, len: int) -> bool {
        self.start <= self.end && self.end <= len
    }

    /// This span lies inside `outer`.
    pub open spec fn inside(self, outer: Span) -> bool {
        outer.start <= self.start && self.start <= self.end && self.end <= outer.end
    }
}

impl Occurrence {
    /// The occurrence, and every occurrence below it, matched exactly the part of
    /// `source` that its span covers, and each child lies inside its parent.
    pub open spec fn fits(self, source: Seq<char>) -> bool
        decreases self,
    {
        &&& self.span.within(source.len() as int)
        &&& self.text@ == source.subrange(self.span.start as int, self.span.end as int)
        &&& forall|i: int|
            0 <= i < self.children.len() ==> {
                &&& (#[trigger] self.children[i]).fits(source)
                &&& self.children[i].span.inside(self.span)
            }
    }
}

} // verus!
