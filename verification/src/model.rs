use vstd::prelude::*;

use crate::literals::{
    lit_anchor_close, lit_anchor_open, lit_class_open, lit_class_word, lit_comma_space, lit_dquote,
    lit_equals, lit_expr_open, lit_gt, lit_id_open, lit_id_word, lit_lt, lit_lt_slash,
    lit_script_close, lit_slash, lit_space, lit_squote, lit_stmt_open,
};
use crate::node::{NodeKind, PugNode};
use crate::state::RangeModel;
use crate::voids::is_void_spec;

verus! {

// The mathematical model of the compilation.  `visit_of` says, for every
// node, exactly which bytes the walk emits, which correspondence ranges it
// records (with output offsets local to the node's own emission), and which
// diagnostics it reports.  The executable visitor is proved to realize this
// model step for step.

/// What visiting one node emits: the output bytes, the correspondence
/// ranges over those bytes (offsets relative to the start of `out`), and
/// the reported diagnostics (unrecognized kind names).
#[verifier::ext_equal]
pub struct Effect {
    pub out: Seq<u8>,
    pub rngs: Seq<RangeModel>,
    pub diags: Seq<Seq<u8>>,
}

/// Moves the output coordinates of every range `k` bytes to the right.
pub open spec fn shift_ranges(rs: Seq<RangeModel>, k: int) -> Seq<RangeModel> {
    rs.map_values(
        |r: RangeModel|
            RangeModel {
                html_start: r.html_start + k,
                html_end: r.html_end + k,
                pug_start: r.pug_start,
                pug_end: r.pug_end,
            },
    )
}

pub broadcast proof fn lemma_shift_zero(rs: Seq<RangeModel>)
    ensures
        #[trigger] shift_ranges(rs, 0) == rs,
{
    assert(shift_ranges(rs, 0) =~= rs);
}

pub broadcast proof fn lemma_shift_shift(rs: Seq<RangeModel>, j: int, k: int)
    ensures
        #[trigger] shift_ranges(shift_ranges(rs, j), k) == shift_ranges(rs, j + k),
{
    assert(shift_ranges(shift_ranges(rs, j), k) =~= shift_ranges(rs, j + k));
}

pub broadcast proof fn lemma_shift_add(a: Seq<RangeModel>, b: Seq<RangeModel>, k: int)
    ensures
        #[trigger] shift_ranges(a + b, k) == shift_ranges(a, k) + shift_ranges(b, k),
{
    assert(shift_ranges(a + b, k) =~= shift_ranges(a, k) + shift_ranges(b, k));
}

impl Effect {
    /// Sequential composition: what `self` emits, followed by what
    /// `other` emits.
    pub open spec fn chain(self, other: Effect) -> Effect {
        Effect {
            out: self.out + other.out,
            rngs: self.rngs + shift_ranges(other.rngs, self.out.len() as int),
            diags: self.diags + other.diags,
        }
    }
}

/// The effect of emitting nothing.
pub open spec fn eff_empty() -> Effect {
    Effect { out: Seq::empty(), rngs: Seq::empty(), diags: Seq::empty() }
}

/// Emitting synthetic text: no correspondence range is recorded.
pub open spec fn eff_lit(s: Seq<u8>) -> Effect {
    Effect { out: s, rngs: Seq::empty(), diags: Seq::empty() }
}

/// Emitting `s` mapped to the source span `[pug_start, pug_end)`.
pub open spec fn eff_mapped(s: Seq<u8>, pug_start: int, pug_end: int) -> Effect {
    Effect {
        out: s,
        rngs: seq![
            RangeModel { html_start: 0, html_end: s.len() as int, pug_start, pug_end },
        ],
        diags: Seq::empty(),
    }
}

/// Reporting an unrecognized node kind; nothing is emitted.
pub open spec fn eff_diag(name: Seq<u8>) -> Effect {
    Effect { out: Seq::empty(), rngs: Seq::empty(), diags: seq![name] }
}

pub broadcast proof fn lemma_chain_empty(e: Effect)
    ensures
        #[trigger] e.chain(eff_empty()) == e,
        #[trigger] eff_empty().chain(e) == e,
{
    lemma_shift_zero(e.rngs);
    assert(e.chain(eff_empty()) =~= e);
    assert(eff_empty().chain(e) =~= e);
}

/// The bytes of the source that node `n` spans.
pub open spec fn node_text(n: PugNode, src: Seq<u8>) -> Seq<u8> {
    src.subrange(n.start as int, n.end as int)
}

/// Emitting the node's own source text, mapped to its own span.
pub open spec fn eff_text(n: PugNode, src: Seq<u8>) -> Effect {
    eff_mapped(node_text(n, src), n.start as int, n.end as int)
}

/// A bare token turned into a single-quoted HTML attribute value: the
/// quote (synthetic), the node's own text (mapped), the quote again.
pub open spec fn quoted_eff(c: PugNode, src: Seq<u8>) -> Effect {
    eff_lit(lit_squote()).chain(eff_text(c, src)).chain(eff_lit(lit_squote()))
}

/// A script-language fragment preserved as inert, locatable text: the
/// opening marker (synthetic), the fragment's own text (mapped), and the
/// closing marker `;</script>` (synthetic).
pub open spec fn wrap_eff(open: Seq<u8>, c: PugNode, src: Seq<u8>) -> Effect {
    eff_lit(open).chain(eff_text(c, src)).chain(eff_lit(lit_script_close()))
}

/// How the children of a node are walked: recursed into as ordinary nodes,
/// or with script fragments wrapped in expression or statement mode.
#[derive(Clone, Copy)]
pub enum ChildMode {
    Plain,
    Expr,
    Stmt,
}

/// The effect of one child inside a children walk.
pub open spec fn child_eff(c: PugNode, src: Seq<u8>, mode: ChildMode) -> Effect
    decreases c, 5int, 0int,
{
    match mode {
        ChildMode::Plain => visit_of(c, src),
        ChildMode::Expr => if c.kind is Javascript {
            wrap_eff(lit_expr_open(), c, src)
        } else {
            visit_of(c, src)
        },
        ChildMode::Stmt => if c.kind is Javascript {
            wrap_eff(lit_stmt_open(), c, src)
        } else {
            visit_of(c, src)
        },
    }
}

/// The combined effect of children `lo .. i` of `n`, walked in order.
pub open spec fn children_eff(n: PugNode, src: Seq<u8>, lo: int, i: int, mode: ChildMode) -> Effect
    decreases n, 1int, i,
{
    if lo < 0 || i <= lo || i > n.children@.len() {
        eff_empty()
    } else {
        children_eff(n, src, lo, i - 1, mode).chain(child_eff(n.children@[i - 1], src, mode))
    }
}

/// The indices, among children `1 .. i` of a tag node, of its `class`
/// shorthand children (`want_class`), or of its `id` shorthand children.
pub open spec fn sigil_indices(n: PugNode, want_class: bool, i: int) -> Seq<int>
    decreases i,
{
    if i <= 1 || i > n.children@.len() {
        Seq::empty()
    } else {
        sigil_indices(n, want_class, i - 1) + if (want_class && n.children@[i - 1].kind is Class)
            || (!want_class && n.children@[i - 1].kind is Id) {
            seq![i - 1]
        } else {
            Seq::<int>::empty()
        }
    }
}

/// One shorthand token: the node's text with the leading sigil (`.` or
/// `#`) stripped, mapped to its span without the sigil.  A degenerate
/// empty token contributes nothing.
pub open spec fn token_eff(c: PugNode, src: Seq<u8>) -> Effect {
    if c.start < c.end {
        eff_mapped(src.subrange(c.start + 1, c.end as int), c.start + 1, c.end as int)
    } else {
        eff_empty()
    }
}

/// The first `k` shorthand tokens at `idxs`, space-separated.
pub open spec fn join_eff(n: PugNode, src: Seq<u8>, idxs: Seq<int>, k: int) -> Effect
    decreases k,
{
    if k <= 0 || k > idxs.len() {
        eff_empty()
    } else {
        let idx = idxs[k - 1];
        let tok = if 0 <= idx < n.children@.len() {
            token_eff(n.children@[idx], src)
        } else {
            eff_empty()
        };
        if k == 1 {
            tok
        } else {
            join_eff(n, src, idxs, k - 1).chain(eff_lit(lit_space())).chain(tok)
        }
    }
}

/// The aggregated shorthand attribute of a tag: all of its `class`
/// (or `id`) shorthand children rendered as one `class="a b"`
/// (or `id="a b"`) attribute; nothing if the tag has none.
pub open spec fn flush_eff(n: PugNode, src: Seq<u8>, want_class: bool) -> Effect {
    let idxs = sigil_indices(n, want_class, n.children@.len() as int);
    if idxs.len() == 0 {
        eff_empty()
    } else {
        eff_lit(if want_class {
            lit_class_open()
        } else {
            lit_id_open()
        }).chain(join_eff(n, src, idxs, idxs.len() as int)).chain(eff_lit(lit_dquote()))
    }
}

/// The explicit attribute lists of a tag: every child of kind
/// `attributes` among children `1 .. i`, rendered in order.
pub open spec fn attrs_sec(n: PugNode, src: Seq<u8>, i: int) -> Effect
    decreases n, 1int, i,
{
    if i <= 1 || i > n.children@.len() {
        eff_empty()
    } else {
        attrs_sec(n, src, i - 1).chain(
            if n.children@[i - 1].kind is Attributes {
                visit_of(n.children@[i - 1], src)
            } else {
                eff_empty()
            },
        )
    }
}

/// The body of a tag: every child among `1 .. i` that is not shorthand
/// and not an attribute list, walked in order.
pub open spec fn body_sec(n: PugNode, src: Seq<u8>, i: int) -> Effect
    decreases n, 1int, i,
{
    if i <= 1 || i > n.children@.len() {
        eff_empty()
    } else {
        body_sec(n, src, i - 1).chain(
            if n.children@[i - 1].kind is Class || n.children@[i - 1].kind is Id || n.children@[i
                - 1].kind is Attributes {
                eff_empty()
            } else {
                visit_of(n.children@[i - 1], src)
            },
        )
    }
}

/// The opening of a tag, up to but not including the closing `>` or `/>`:
/// `<`, the name child, the aggregated class shorthand, then the
/// aggregated id shorthand (class always before id), one space, and the
/// explicit attribute lists.
pub open spec fn tag_open_eff(n: PugNode, src: Seq<u8>) -> Effect
    decreases n, 2int, 0int,
{
    if n.children@.len() == 0 {
        eff_empty()
    } else {
        eff_lit(lit_lt()).chain(visit_of(n.children@[0], src)).chain(flush_eff(n, src, true)).chain(
            flush_eff(n, src, false),
        ).chain(eff_lit(lit_space())).chain(attrs_sec(n, src, n.children@.len() as int))
    }
}

/// A tag-like node.  A void tag is closed with `/>` and its body children
/// are ignored; any other tag is closed with `>`, its body is walked, and
/// a synthetic `</name>` is appended.  A tag with no children at all (no
/// name child) emits nothing.
pub open spec fn tag_eff(n: PugNode, src: Seq<u8>) -> Effect
    decreases n, 3int, 0int,
{
    if n.children@.len() == 0 {
        eff_empty()
    } else {
        let name = node_text(n.children@[0], src);
        if is_void_spec(name) {
            tag_open_eff(n, src).chain(eff_lit(lit_slash())).chain(eff_lit(lit_gt()))
        } else {
            tag_open_eff(n, src).chain(eff_lit(lit_gt())).chain(
                body_sec(n, src, n.children@.len() as int),
            ).chain(eff_lit(lit_lt_slash())).chain(eff_lit(name)).chain(eff_lit(lit_gt()))
        }
    }
}

/// One entry of an explicit attribute list.  A name alone becomes the
/// boolean form `name='name'` (the name's span is mapped twice); a name
/// with a value becomes `name=` followed by the visited value child; an
/// entry with no children contributes nothing.
pub open spec fn entry_eff(a: PugNode, src: Seq<u8>) -> Effect
    decreases a, 0int, 0int,
{
    if a.children@.len() == 0 {
        eff_empty()
    } else {
        let name_child = a.children@[0];
        if a.children@.len() == 1 {
            eff_text(name_child, src).chain(eff_lit(lit_equals())).chain(quoted_eff(name_child, src))
        } else {
            eff_text(name_child, src).chain(eff_lit(lit_equals())).chain(
                visit_of(a.children@[1], src),
            )
        }
    }
}

/// The first `i` entries of an attribute list, separated by `, `.
pub open spec fn attrs_entries(n: PugNode, src: Seq<u8>, i: int) -> Effect
    decreases n, 1int, i,
{
    if i <= 0 || i > n.children@.len() {
        eff_empty()
    } else {
        let e = entry_eff(n.children@[i - 1], src);
        if i == 1 {
            e
        } else {
            attrs_entries(n, src, i - 1).chain(eff_lit(lit_comma_space())).chain(e)
        }
    }
}

/// The full compilation model: what the depth-first walk of `n` emits.
/// Unnamed nodes are skipped entirely; a kind outside the vocabulary
/// emits nothing and reports one diagnostic.
pub open spec fn visit_of(n: PugNode, src: Seq<u8>) -> Effect
    decreases n, 4int, 0int,
{
    if !n.named {
        eff_empty()
    } else {
        let len = n.children@.len() as int;
        match n.kind {
            NodeKind::SourceFile
            | NodeKind::Children
            | NodeKind::MixinDefinition
            | NodeKind::BlockDefinition
            | NodeKind::BlockUse
            | NodeKind::Each
            | NodeKind::Extends
            | NodeKind::Include
            | NodeKind::Error => children_eff(n, src, 0, len, ChildMode::Plain),
            NodeKind::IterationVariable
            | NodeKind::IterationIterator
            | NodeKind::BufferedCode
            | NodeKind::UnescapedBufferedCode
            | NodeKind::EscapedStringInterpolation
            | NodeKind::Case
            | NodeKind::When => children_eff(n, src, 0, len, ChildMode::Expr),
            NodeKind::ScriptBlock | NodeKind::UnbufferedCode => children_eff(
                n,
                src,
                0,
                len,
                ChildMode::Stmt,
            ),
            NodeKind::TagName
            | NodeKind::FilterName
            | NodeKind::AttributeName
            | NodeKind::QuotedAttributeValue => eff_text(n, src),
            NodeKind::Javascript => quoted_eff(n, src),
            NodeKind::Content => children_eff(n, src, 0, len, ChildMode::Plain).chain(
                eff_text(n, src),
            ),
            NodeKind::Filename => eff_lit(lit_anchor_open()).chain(eff_text(n, src)).chain(
                eff_lit(lit_anchor_close()),
            ),
            NodeKind::Pipe => children_eff(n, src, 1, len, ChildMode::Plain),
            NodeKind::TagInterpolation => if len >= 2 {
                children_eff(
                    n.children@[1],
                    src,
                    0,
                    n.children@[1].children@.len() as int,
                    ChildMode::Plain,
                )
            } else {
                eff_empty()
            },
            NodeKind::Conditional => if len >= 2 && n.children@[1].kind is Javascript {
                wrap_eff(lit_expr_open(), n.children@[1], src).chain(
                    children_eff(n, src, 2, len, ChildMode::Plain),
                )
            } else {
                children_eff(n, src, 1, len, ChildMode::Plain)
            },
            NodeKind::Tag | NodeKind::Filter => tag_eff(n, src),
            NodeKind::Attributes => attrs_entries(n, src, len),
            NodeKind::Keyword | NodeKind::MixinAttributes | NodeKind::Comment
            | NodeKind::BlockName => eff_empty(),
            NodeKind::Class => eff_diag(lit_class_word()),
            NodeKind::Id => eff_diag(lit_id_word()),
            NodeKind::Other(name) => eff_diag(name@),
        }
    }
}

/// The integer values of a list of collected child indices.
pub open spec fn idxs_as_int(s: Seq<usize>) -> Seq<int> {
    s.map_values(|u: usize| u as int)
}

} // verus!
