use vstd::prelude::*;

use crate::literals::{lit_equals, lit_gt, lit_lt, lit_slash, lit_space, lit_squote};
use crate::model::{
    attrs_sec, eff_lit, eff_text, entry_eff, flush_eff, node_text, quoted_eff, tag_open_eff,
    visit_of,
};
use crate::node::PugNode;
use crate::voids::is_void_spec;

verus! {

// The laws of the compiler that relate several parts of the model.  The
// two global guarantees — the correspondence list is ordered, bounded by
// the buffer and non-overlapping, and every range is a verbatim copy of
// its source span — are the `wf` clause of `compile`'s contract.

/// Void elements are self-closing: a tag-like node whose resolved name is
/// a void element compiles to its opening (name, shorthand, attributes)
/// followed by `/>`, and to nothing else — no body child contributes any
/// output and no `</name>` is emitted, however many children the tree
/// holds under the tag.
pub proof fn lemma_void_tag_self_closing(n: PugNode, src: Seq<u8>)
    requires
        n.named,
        n.kind is Tag || n.kind is Filter,
        n.children@.len() > 0,
        is_void_spec(node_text(n.children@[0], src)),
    ensures
        visit_of(n, src) == tag_open_eff(n, src).chain(eff_lit(lit_slash())).chain(
            eff_lit(lit_gt()),
        ),
        visit_of(n, src).out == tag_open_eff(n, src).out + lit_slash() + lit_gt(),
{
    assert(visit_of(n, src).out =~= tag_open_eff(n, src).out + lit_slash() + lit_gt());
}

/// Shorthand attributes are normalized: however class and id shorthand
/// were interleaved in the source, the opening of a tag renders the
/// aggregated `class="…"` attribute (built from the class children
/// alone, in source order), then the aggregated `id="…"` attribute
/// (built from the id children alone), then the space and the explicit
/// attribute lists.
pub proof fn lemma_class_rendered_before_id(n: PugNode, src: Seq<u8>)
    requires
        n.children@.len() > 0,
    ensures
        tag_open_eff(n, src) == eff_lit(lit_lt()).chain(visit_of(n.children@[0], src)).chain(
            flush_eff(n, src, true),
        ).chain(flush_eff(n, src, false)).chain(eff_lit(lit_space())).chain(
            attrs_sec(n, src, n.children@.len() as int),
        ),
{
}

/// Boolean attribute expansion: an attribute entry with a name and no
/// value compiles to `name='name'` — the name doubles as its own value,
/// single-quoted, and the name's source span is mapped on both sides of
/// the `=`.
pub proof fn lemma_boolean_attribute(a: PugNode, src: Seq<u8>)
    requires
        a.children@.len() == 1,
    ensures
        entry_eff(a, src) == eff_text(a.children@[0], src).chain(eff_lit(lit_equals())).chain(
            quoted_eff(a.children@[0], src),
        ),
        entry_eff(a, src).out == node_text(a.children@[0], src) + lit_equals() + lit_squote()
            + node_text(a.children@[0], src) + lit_squote(),
{
    assert(entry_eff(a, src).out =~= node_text(a.children@[0], src) + lit_equals() + lit_squote()
        + node_text(a.children@[0], src) + lit_squote());
}

/// An unrecognized construct degrades locally: a named node whose kind is
/// outside the vocabulary emits no output text and no correspondence
/// range, and reports exactly one diagnostic carrying the kind's name;
/// the rest of the compilation is unaffected.
pub proof fn lemma_unknown_kind_reports(n: PugNode, src: Seq<u8>)
    requires
        n.named,
        n.kind is Other,
    ensures
        visit_of(n, src).out == Seq::<u8>::empty(),
        visit_of(n, src).rngs.len() == 0,
        visit_of(n, src).diags == seq![n.kind->Other_0@],
{
}

} // verus!
