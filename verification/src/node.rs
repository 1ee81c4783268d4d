use vstd::prelude::*;

verus! {

/// The kind tag of a syntax-tree node, a closed form of the template
/// grammar's vocabulary.  A kind outside the vocabulary is carried as
/// `Other` together with its name, so that an unrecognized construct can
/// be reported instead of aborting the compilation.
pub enum NodeKind {
    SourceFile,
    Children,
    MixinDefinition,
    BlockDefinition,
    BlockUse,
    Each,
    IterationVariable,
    IterationIterator,
    ScriptBlock,
    UnbufferedCode,
    BufferedCode,
    UnescapedBufferedCode,
    EscapedStringInterpolation,
    Case,
    When,
    TagInterpolation,
    Pipe,
    Conditional,
    Tag,
    Filter,
    TagName,
    FilterName,
    Attributes,
    AttributeName,
    Javascript,
    QuotedAttributeValue,
    Content,
    Extends,
    Include,
    Filename,
    Keyword,
    MixinAttributes,
    Comment,
    BlockName,
    Class,
    Id,
    Error,
    Other(Vec<u8>),
}

/// One node of the parsed template, reduced to what the compiler reads:
/// the kind tag, whether the parser classified the node as named
/// (semantically meaningful), the byte span `[start, end)` of the node in
/// the source text, and the named children in source order.
pub struct PugNode {
    pub kind: NodeKind,
    pub named: bool,
    pub start: usize,
    pub end: usize,
    pub children: Vec<PugNode>,
}

impl PugNode {
    /// The span of every node of the tree is ordered and lies inside a
    /// source text of `src_len` bytes.  The external parser guarantees
    /// this of every tree it hands out.
    pub open spec fn wf(self, src_len: nat) -> bool
        decreases self,
    {
        &&& self.start <= self.end <= src_len
        &&& forall|i: int|
            0 <= i < self.children@.len() ==> (#[trigger] self.children@[i]).wf(src_len)
    }
}

} // verus!
