use vstd::prelude::*;
use vstd::slice::slice_to_vec;

use crate::literals::{
    bytes_anchor_close, bytes_anchor_open, bytes_class_open, bytes_class_word, bytes_comma_space,
    bytes_dquote, bytes_equals, bytes_expr_open, bytes_gt, bytes_id_open, bytes_id_word, bytes_lt,
    bytes_lt_slash, bytes_script_close, bytes_slash, bytes_space, bytes_squote, bytes_stmt_open,
    lit_anchor_close, lit_anchor_open, lit_class_open, lit_comma_space, lit_dquote, lit_equals,
    lit_expr_open, lit_gt, lit_id_open, lit_lt, lit_lt_slash, lit_script_close, lit_slash,
    lit_space,
};
use crate::model::{
    attrs_entries, attrs_sec, body_sec, child_eff, children_eff, eff_diag, eff_empty, eff_lit,
    eff_mapped, eff_text, entry_eff, flush_eff, idxs_as_int, join_eff, lemma_chain_empty,
    lemma_shift_add, lemma_shift_shift, lemma_shift_zero, node_text, quoted_eff, sigil_indices,
    tag_eff, tag_open_eff, token_eff, visit_of, wrap_eff, ChildMode, Effect,
};
use crate::node::{NodeKind, PugNode};
use crate::state::{
    copy_range, diags_abs, push_range, push_range_surround, ranges_abs, CompileState, Diagnostic,
};
use crate::voids::is_void_element;

verus! {

/// The step relation of the walk: going from accumulator `pre` to
/// accumulator `post` emitted exactly the effect `e` — the HTML buffer
/// grew by `e.out`, the range list by `e.rngs` placed at the old buffer
/// length, and the diagnostics by `e.diags`.
pub open spec fn emits(pre: CompileState, post: CompileState, e: Effect) -> bool {
    &&& post.html_text@ == pre.html_text@ + e.out
    &&& ranges_abs(post.ranges@) == ranges_abs(pre.ranges@) + crate::model::shift_ranges(
        e.rngs,
        pre.html_text@.len() as int,
    )
    &&& diags_abs(post.diagnostics@) == diags_abs(pre.diagnostics@) + e.diags
}

/// A state emits the empty effect to itself.
pub proof fn lemma_emits_empty(s: CompileState)
    ensures
        emits(s, s, eff_empty()),
{
    assert(s.html_text@ =~= s.html_text@ + eff_empty().out);
    assert(ranges_abs(s.ranges@) =~= ranges_abs(s.ranges@) + crate::model::shift_ranges(
        eff_empty().rngs,
        s.html_text@.len() as int,
    ));
    assert(diags_abs(s.diagnostics@) =~= diags_abs(s.diagnostics@) + eff_empty().diags);
}

/// Emission steps compose: two consecutive steps emit the chained effect.
pub proof fn lemma_emits_chain(
    s0: CompileState,
    s1: CompileState,
    s2: CompileState,
    a: Effect,
    b: Effect,
)
    requires
        emits(s0, s1, a),
        emits(s1, s2, b),
    ensures
        emits(s0, s2, a.chain(b)),
{
    let l0 = s0.html_text@.len() as int;
    assert(s2.html_text@ =~= s0.html_text@ + a.chain(b).out);
    assert(diags_abs(s2.diagnostics@) =~= diags_abs(s0.diagnostics@) + a.chain(b).diags);
    lemma_shift_add(a.rngs, crate::model::shift_ranges(b.rngs, a.out.len() as int), l0);
    lemma_shift_shift(b.rngs, a.out.len() as int, l0);
    assert(s1.html_text@.len() as int == l0 + a.out.len());
    assert(ranges_abs(s2.ranges@) =~= ranges_abs(s0.ranges@) + crate::model::shift_ranges(
        a.chain(b).rngs,
        l0,
    ));
}

/// Emits synthetic text: appends `text` with no correspondence range.
fn emit_lit(state: &mut CompileState, text: &Vec<u8>, Ghost(src): Ghost<Seq<u8>>)
    requires
        old(state).wf(src),
    ensures
        final(state).wf(src),
        emits(*old(state), *final(state), eff_lit(text@)),
{
    push_range(state, text, None, Ghost(src));
    proof {
        assert(ranges_abs(state.ranges@) =~= ranges_abs(old(state).ranges@)
            + crate::model::shift_ranges(eff_lit(text@).rngs, old(state).html_text@.len() as int));
    }
}

/// Emits `text` mapped to the source span `[pug_start, pug_end)`; the
/// pushed bytes must be exactly that span of the source.
fn emit_mapped(
    state: &mut CompileState,
    text: &Vec<u8>,
    pug_start: usize,
    pug_end: usize,
    Ghost(src): Ghost<Seq<u8>>,
)
    requires
        old(state).wf(src),
        pug_start <= pug_end <= src.len(),
        text@ == src.subrange(pug_start as int, pug_end as int),
    ensures
        final(state).wf(src),
        emits(
            *old(state),
            *final(state),
            eff_mapped(text@, pug_start as int, pug_end as int),
        ),
{
    push_range(state, text, Some((pug_start, pug_end)), Ghost(src));
    proof {
        assert(ranges_abs(state.ranges@) =~= ranges_abs(old(state).ranges@)
            + crate::model::shift_ranges(
            eff_mapped(text@, pug_start as int, pug_end as int).rngs,
            old(state).html_text@.len() as int,
        ));
    }
}

/// Emits the node's own source text, mapped to its own span.
fn emit_node_text(node: &PugNode, source: &Vec<u8>, state: &mut CompileState)
    requires
        node.wf(source@.len()),
        old(state).wf(source@),
    ensures
        final(state).wf(source@),
        emits(*old(state), *final(state), eff_text(*node, source@)),
{
    let text = copy_range(source, node.start, node.end);
    emit_mapped(state, &text, node.start, node.end, Ghost(source@));
}

/// Emits `quote`, then `text` mapped to `[pug_start, pug_end)`, then
/// `quote` again: a bare token quoted into an HTML attribute value.
fn emit_quoted(
    state: &mut CompileState,
    text: &Vec<u8>,
    pug_start: usize,
    pug_end: usize,
    quote: &Vec<u8>,
    Ghost(src): Ghost<Seq<u8>>,
)
    requires
        old(state).wf(src),
        pug_start <= pug_end <= src.len(),
        text@ == src.subrange(pug_start as int, pug_end as int),
    ensures
        final(state).wf(src),
        emits(
            *old(state),
            *final(state),
            eff_lit(quote@).chain(eff_mapped(text@, pug_start as int, pug_end as int)).chain(
                eff_lit(quote@),
            ),
        ),
{
    push_range_surround(state, text, pug_start, pug_end, quote, Ghost(src));
    proof {
        let e = eff_lit(quote@).chain(eff_mapped(text@, pug_start as int, pug_end as int)).chain(
            eff_lit(quote@),
        );
        assert(state.html_text@ =~= old(state).html_text@ + e.out);
        assert(ranges_abs(state.ranges@) =~= ranges_abs(old(state).ranges@)
            + crate::model::shift_ranges(e.rngs, old(state).html_text@.len() as int));
    }
}

/// Emits a script fragment wrapped as inert text: the opening marker,
/// the fragment's source text mapped to its span, and `;</script>`.
fn emit_wrapped(open: &Vec<u8>, fragment: &PugNode, source: &Vec<u8>, state: &mut CompileState)
    requires
        fragment.wf(source@.len()),
        old(state).wf(source@),
    ensures
        final(state).wf(source@),
        emits(*old(state), *final(state), wrap_eff(open@, *fragment, source@)),
{
    let ghost s0 = *state;
    emit_lit(state, open, Ghost(source@));
    let ghost s1 = *state;
    emit_node_text(fragment, source, state);
    let ghost s2 = *state;
    let close = bytes_script_close();
    emit_lit(state, &close, Ghost(source@));
    proof {
        lemma_emits_chain(s0, s1, s2, eff_lit(open@), eff_text(*fragment, source@));
        lemma_emits_chain(
            s0,
            s2,
            *state,
            eff_lit(open@).chain(eff_text(*fragment, source@)),
            eff_lit(lit_script_close()),
        );
    }
}

/// Records the diagnostic for a node kind outside the vocabulary.
fn report_unknown(state: &mut CompileState, node_kind: Vec<u8>, Ghost(src): Ghost<Seq<u8>>)
    requires
        old(state).wf(src),
    ensures
        final(state).wf(src),
        emits(*old(state), *final(state), eff_diag(node_kind@)),
{
    let ghost nk = node_kind@;
    state.diagnostics.push(Diagnostic { node_kind });
    proof {
        assert(state.html_text@ =~= old(state).html_text@ + eff_diag(nk).out);
        assert(ranges_abs(state.ranges@) =~= ranges_abs(old(state).ranges@)
            + crate::model::shift_ranges(eff_diag(nk).rngs, old(state).html_text@.len() as int));
        assert(diags_abs(state.diagnostics@) =~= diags_abs(old(state).diagnostics@) + eff_diag(
            nk,
        ).diags);
    }
}

/// Emits a name leaf (`tag_name`, `filter_name`): the node's text, mapped.
pub fn visit_tag_name(node: &PugNode, source: &Vec<u8>, state: &mut CompileState)
    requires
        node.wf(source@.len()),
        old(state).wf(source@),
    ensures
        final(state).wf(source@),
        emits(*old(state), *final(state), eff_text(*node, source@)),
{
    emit_node_text(node, source, state);
}

/// Emits an attribute name: the node's text, mapped.
pub fn visit_attribute_name(node: &PugNode, source: &Vec<u8>, state: &mut CompileState)
    requires
        node.wf(source@.len()),
        old(state).wf(source@),
    ensures
        final(state).wf(source@),
        emits(*old(state), *final(state), eff_text(*node, source@)),
{
    emit_node_text(node, source, state);
}

/// Walks children `lo ..` of `node` in order.  In `Plain` mode every
/// child is dispatched; in `Expr` / `Stmt` mode a `javascript` child is
/// wrapped as a script expression / statement instead.
pub fn visit_children(
    node: &PugNode,
    lo: usize,
    mode: ChildMode,
    source: &Vec<u8>,
    state: &mut CompileState,
)
    requires
        node.wf(source@.len()),
        old(state).wf(source@),
    ensures
        final(state).wf(source@),
        emits(
            *old(state),
            *final(state),
            children_eff(*node, source@, lo as int, node.children@.len() as int, mode),
        ),
    decreases *node, 1int, 0int,
{
    let ghost s0 = *state;
    let len = node.children.len();
    if lo >= len {
        proof {
            lemma_emits_empty(s0);
            assert(children_eff(*node, source@, lo as int, len as int, mode) == eff_empty());
        }
        return;
    }
    let mut i: usize = lo;
    while i < len
        invariant
            lo <= i <= len,
            len == node.children@.len(),
            node.wf(source@.len()),
            state.wf(source@),
            emits(s0, *state, children_eff(*node, source@, lo as int, i as int, mode)),
        decreases len - i,
    {
        let child = &node.children[i];
        proof {
            assert(node.children@[i as int].wf(source@.len()));
        }
        let ghost before = *state;
        match mode {
            ChildMode::Plain => {
                traverse_tree(child, source, state);
            },
            ChildMode::Expr => {
                if matches!(&child.kind, NodeKind::Javascript) {
                    let open = bytes_expr_open();
                    emit_wrapped(&open, child, source, state);
                } else {
                    traverse_tree(child, source, state);
                }
            },
            ChildMode::Stmt => {
                if matches!(&child.kind, NodeKind::Javascript) {
                    let open = bytes_stmt_open();
                    emit_wrapped(&open, child, source, state);
                } else {
                    traverse_tree(child, source, state);
                }
            },
        }
        proof {
            assert(emits(before, *state, child_eff(node.children@[i as int], source@, mode)));
            lemma_emits_chain(
                s0,
                before,
                *state,
                children_eff(*node, source@, lo as int, i as int, mode),
                child_eff(node.children@[i as int], source@, mode),
            );
            assert(children_eff(*node, source@, lo as int, i + 1, mode) == children_eff(
                *node,
                source@,
                lo as int,
                i as int,
                mode,
            ).chain(child_eff(node.children@[i as int], source@, mode)));
        }
        i = i + 1;
    }
}

/// Emits the shorthand tokens collected at `idxs`, space-separated, each
/// token's text stripped of its leading sigil and mapped to its own span.
pub fn visit_id_class(
    node: &PugNode,
    idxs: &Vec<usize>,
    source: &Vec<u8>,
    state: &mut CompileState,
)
    requires
        node.wf(source@.len()),
        old(state).wf(source@),
        forall|k: int| 0 <= k < idxs@.len() ==> #[trigger] idxs@[k] < node.children@.len(),
    ensures
        final(state).wf(source@),
        emits(
            *old(state),
            *final(state),
            join_eff(*node, source@, idxs_as_int(idxs@), idxs@.len() as int),
        ),
{
    let ghost s0 = *state;
    proof {
        lemma_emits_empty(s0);
        assert(join_eff(*node, source@, idxs_as_int(idxs@), 0) == eff_empty());
    }
    let mut k: usize = 0;
    while k < idxs.len()
        invariant
            0 <= k <= idxs@.len(),
            node.wf(source@.len()),
            state.wf(source@),
            forall|m: int| 0 <= m < idxs@.len() ==> #[trigger] idxs@[m] < node.children@.len(),
            emits(s0, *state, join_eff(*node, source@, idxs_as_int(idxs@), k as int)),
        decreases idxs@.len() - k,
    {
        let ghost pre_iter = *state;
        if k > 0 {
            let sp = bytes_space();
            emit_lit(state, &sp, Ghost(source@));
        }
        let ghost pre_tok = *state;
        let idx = idxs[k];
        let c = &node.children[idx];
        proof {
            assert(node.children@[idx as int].wf(source@.len()));
        }
        if c.start < c.end {
            let text = copy_range(source, c.start + 1, c.end);
            emit_mapped(state, &text, c.start + 1, c.end, Ghost(source@));
        } else {
            proof {
                lemma_emits_empty(*state);
            }
        }
        proof {
            let ghost I = idxs_as_int(idxs@);
            assert(I[k as int] == idx as int);
            assert(emits(pre_tok, *state, token_eff(node.children@[idx as int], source@)));
            if k == 0 {
                lemma_emits_chain(
                    s0,
                    pre_tok,
                    *state,
                    join_eff(*node, source@, I, 0),
                    token_eff(node.children@[idx as int], source@),
                );
                lemma_chain_empty(token_eff(node.children@[idx as int], source@));
                assert(join_eff(*node, source@, I, 1) == token_eff(
                    node.children@[idx as int],
                    source@,
                ));
            } else {
                lemma_emits_chain(
                    s0,
                    pre_iter,
                    pre_tok,
                    join_eff(*node, source@, I, k as int),
                    eff_lit(lit_space()),
                );
                lemma_emits_chain(
                    s0,
                    pre_tok,
                    *state,
                    join_eff(*node, source@, I, k as int).chain(eff_lit(lit_space())),
                    token_eff(node.children@[idx as int], source@),
                );
                assert(join_eff(*node, source@, I, k + 1) == join_eff(
                    *node,
                    source@,
                    I,
                    k as int,
                ).chain(eff_lit(lit_space())).chain(
                    token_eff(node.children@[idx as int], source@),
                ));
            }
        }
        k = k + 1;
    }
}

/// Renders one aggregated shorthand attribute of a tag: ` class="…"` for
/// the collected class tokens, or ` id="…"` for the collected id tokens;
/// nothing when none were collected.
fn flush_shorthand(
    node: &PugNode,
    idxs: &Vec<usize>,
    want_class: bool,
    source: &Vec<u8>,
    state: &mut CompileState,
)
    requires
        node.wf(source@.len()),
        old(state).wf(source@),
        idxs_as_int(idxs@) == sigil_indices(*node, want_class, node.children@.len() as int),
        forall|k: int| 0 <= k < idxs@.len() ==> #[trigger] idxs@[k] < node.children@.len(),
    ensures
        final(state).wf(source@),
        emits(*old(state), *final(state), flush_eff(*node, source@, want_class)),
{
    let ghost s0 = *state;
    if idxs.len() == 0 {
        proof {
            lemma_emits_empty(s0);
            assert(flush_eff(*node, source@, want_class) == eff_empty());
        }
        return;
    }
    let opener = if want_class {
        bytes_class_open()
    } else {
        bytes_id_open()
    };
    emit_lit(state, &opener, Ghost(source@));
    let ghost s1 = *state;
    visit_id_class(node, idxs, source, state);
    let ghost s2 = *state;
    let dq = bytes_dquote();
    emit_lit(state, &dq, Ghost(source@));
    proof {
        let lead = if want_class {
            lit_class_open()
        } else {
            lit_id_open()
        };
        lemma_emits_chain(
            s0,
            s1,
            s2,
            eff_lit(lead),
            join_eff(*node, source@, idxs_as_int(idxs@), idxs@.len() as int),
        );
        lemma_emits_chain(
            s0,
            s2,
            *state,
            eff_lit(lead).chain(
                join_eff(*node, source@, idxs_as_int(idxs@), idxs@.len() as int),
            ),
            eff_lit(lit_dquote()),
        );
    }
}

/// A tag-like node: `<`, the name child, the aggregated class shorthand,
/// the aggregated id shorthand (class always before id), one space, the
/// explicit attribute lists, then `/>` for a void element (its body is
/// ignored) or `>`, the body, and a synthetic `</name>` otherwise.
pub fn visit_tag(node: &PugNode, source: &Vec<u8>, state: &mut CompileState)
    requires
        node.wf(source@.len()),
        old(state).wf(source@),
    ensures
        final(state).wf(source@),
        emits(*old(state), *final(state), tag_eff(*node, source@)),
    decreases *node, 3int, 0int,
{
    let ghost s0 = *state;
    let len = node.children.len();
    if len == 0 {
        proof {
            lemma_emits_empty(s0);
            assert(tag_eff(*node, source@) == eff_empty());
        }
        return;
    }
    let name_node = &node.children[0];
    proof {
        assert(node.children@[0].wf(source@.len()));
    }
    let lt = bytes_lt();
    emit_lit(state, &lt, Ghost(source@));
    let ghost s1 = *state;
    traverse_tree(name_node, source, state);
    let ghost s2 = *state;
    proof {
        lemma_emits_chain(
            s0,
            s1,
            s2,
            eff_lit(lit_lt()),
            visit_of(node.children@[0], source@),
        );
    }

    // collect the shorthand children, in source order
    let mut classes: Vec<usize> = Vec::new();
    let mut ids: Vec<usize> = Vec::new();
    let mut i: usize = 1;
    while i < len
        invariant
            1 <= i <= len,
            len == node.children@.len(),
            idxs_as_int(classes@) == sigil_indices(*node, true, i as int),
            idxs_as_int(ids@) == sigil_indices(*node, false, i as int),
            forall|k: int| 0 <= k < classes@.len() ==> #[trigger] classes@[k] < len,
            forall|k: int| 0 <= k < ids@.len() ==> #[trigger] ids@[k] < len,
        decreases len - i,
    {
        let child = &node.children[i];
        if matches!(&child.kind, NodeKind::Class) {
            classes.push(i);
        } else if matches!(&child.kind, NodeKind::Id) {
            ids.push(i);
        }
        proof {
            assert(idxs_as_int(classes@) =~= sigil_indices(*node, true, i + 1));
            assert(idxs_as_int(ids@) =~= sigil_indices(*node, false, i + 1));
        }
        i = i + 1;
    }

    // class="…" before id="…", then one space, then the attribute lists
    flush_shorthand(node, &classes, true, source, state);
    let ghost s3 = *state;
    flush_shorthand(node, &ids, false, source, state);
    let ghost s4 = *state;
    let sp = bytes_space();
    emit_lit(state, &sp, Ghost(source@));
    let ghost s5 = *state;
    proof {
        lemma_emits_chain(
            s0,
            s2,
            s3,
            eff_lit(lit_lt()).chain(visit_of(node.children@[0], source@)),
            flush_eff(*node, source@, true),
        );
        lemma_emits_chain(
            s0,
            s3,
            s4,
            eff_lit(lit_lt()).chain(visit_of(node.children@[0], source@)).chain(
                flush_eff(*node, source@, true),
            ),
            flush_eff(*node, source@, false),
        );
        lemma_emits_chain(
            s0,
            s4,
            s5,
            eff_lit(lit_lt()).chain(visit_of(node.children@[0], source@)).chain(
                flush_eff(*node, source@, true),
            ).chain(flush_eff(*node, source@, false)),
            eff_lit(lit_space()),
        );
        lemma_emits_empty(s5);
        assert(attrs_sec(*node, source@, 1) == eff_empty());
    }

    let mut j: usize = 1;
    while j < len
        invariant
            1 <= j <= len,
            len == node.children@.len(),
            node.wf(source@.len()),
            state.wf(source@),
            emits(s5, *state, attrs_sec(*node, source@, j as int)),
        decreases len - j,
    {
        let child = &node.children[j];
        proof {
            assert(node.children@[j as int].wf(source@.len()));
        }
        if matches!(&child.kind, NodeKind::Attributes) {
            let ghost before = *state;
            traverse_tree(child, source, state);
            proof {
                lemma_emits_chain(
                    s5,
                    before,
                    *state,
                    attrs_sec(*node, source@, j as int),
                    visit_of(node.children@[j as int], source@),
                );
                assert(attrs_sec(*node, source@, j + 1) == attrs_sec(
                    *node,
                    source@,
                    j as int,
                ).chain(visit_of(node.children@[j as int], source@)));
            }
        } else {
            proof {
                lemma_chain_empty(attrs_sec(*node, source@, j as int));
                assert(attrs_sec(*node, source@, j + 1) == attrs_sec(
                    *node,
                    source@,
                    j as int,
                ).chain(eff_empty()));
            }
        }
        j = j + 1;
    }
    let ghost s6 = *state;
    let ghost e_open = eff_lit(lit_lt()).chain(visit_of(node.children@[0], source@)).chain(
        flush_eff(*node, source@, true),
    ).chain(flush_eff(*node, source@, false)).chain(eff_lit(lit_space())).chain(
        attrs_sec(*node, source@, len as int),
    );
    proof {
        lemma_emits_chain(
            s0,
            s5,
            s6,
            eff_lit(lit_lt()).chain(visit_of(node.children@[0], source@)).chain(
                flush_eff(*node, source@, true),
            ).chain(flush_eff(*node, source@, false)).chain(eff_lit(lit_space())),
            attrs_sec(*node, source@, len as int),
        );
        assert(e_open == tag_open_eff(*node, source@));
    }

    // close the opening tag; a void element takes no body and no close tag
    let name_text = copy_range(source, name_node.start, name_node.end);
    let gt = bytes_gt();
    if is_void_element(name_text.as_slice()) {
        let sl = bytes_slash();
        emit_lit(state, &sl, Ghost(source@));
        let ghost s7 = *state;
        emit_lit(state, &gt, Ghost(source@));
        proof {
            lemma_emits_chain(s0, s6, s7, e_open, eff_lit(lit_slash()));
            lemma_emits_chain(s0, s7, *state, e_open.chain(eff_lit(lit_slash())), eff_lit(lit_gt()));
            assert(tag_eff(*node, source@) == tag_open_eff(*node, source@).chain(
                eff_lit(lit_slash()),
            ).chain(eff_lit(lit_gt())));
        }
        return;
    }
    emit_lit(state, &gt, Ghost(source@));
    let ghost s7 = *state;
    proof {
        lemma_emits_chain(s0, s6, s7, e_open, eff_lit(lit_gt()));
        lemma_emits_empty(s7);
        assert(body_sec(*node, source@, 1) == eff_empty());
    }
    let mut b: usize = 1;
    while b < len
        invariant
            1 <= b <= len,
            len == node.children@.len(),
            node.wf(source@.len()),
            state.wf(source@),
            emits(s7, *state, body_sec(*node, source@, b as int)),
        decreases len - b,
    {
        let child = &node.children[b];
        proof {
            assert(node.children@[b as int].wf(source@.len()));
        }
        if matches!(&child.kind, NodeKind::Class | NodeKind::Id | NodeKind::Attributes) {
            proof {
                lemma_chain_empty(body_sec(*node, source@, b as int));
                assert(body_sec(*node, source@, b + 1) == body_sec(*node, source@, b as int).chain(
                    eff_empty(),
                ));
            }
        } else {
            let ghost before = *state;
            traverse_tree(child, source, state);
            proof {
                lemma_emits_chain(
                    s7,
                    before,
                    *state,
                    body_sec(*node, source@, b as int),
                    visit_of(node.children@[b as int], source@),
                );
                assert(body_sec(*node, source@, b + 1) == body_sec(*node, source@, b as int).chain(
                    visit_of(node.children@[b as int], source@),
                ));
            }
        }
        b = b + 1;
    }
    let ghost s8 = *state;
    let lts = bytes_lt_slash();
    emit_lit(state, &lts, Ghost(source@));
    let ghost s9 = *state;
    emit_lit(state, &name_text, Ghost(source@));
    let ghost s10 = *state;
    emit_lit(state, &gt, Ghost(source@));
    proof {
        let body = body_sec(*node, source@, len as int);
        let nm = node_text(node.children@[0], source@);
        lemma_emits_chain(s0, s7, s8, e_open.chain(eff_lit(lit_gt())), body);
        lemma_emits_chain(
            s0,
            s8,
            s9,
            e_open.chain(eff_lit(lit_gt())).chain(body),
            eff_lit(lit_lt_slash()),
        );
        lemma_emits_chain(
            s0,
            s9,
            s10,
            e_open.chain(eff_lit(lit_gt())).chain(body).chain(eff_lit(lit_lt_slash())),
            eff_lit(nm),
        );
        lemma_emits_chain(
            s0,
            s10,
            *state,
            e_open.chain(eff_lit(lit_gt())).chain(body).chain(eff_lit(lit_lt_slash())).chain(
                eff_lit(nm),
            ),
            eff_lit(lit_gt()),
        );
        assert(tag_eff(*node, source@) == tag_open_eff(*node, source@).chain(
            eff_lit(lit_gt()),
        ).chain(body).chain(eff_lit(lit_lt_slash())).chain(eff_lit(nm)).chain(eff_lit(lit_gt())));
    }
}

/// An explicit attribute list: its attribute entries in order, separated
/// by `, `.  A name-only entry becomes the boolean form `name='name'`;
/// a name with a value becomes `name=` followed by the value.
pub fn visit_attributes(node: &PugNode, source: &Vec<u8>, state: &mut CompileState)
    requires
        node.wf(source@.len()),
        old(state).wf(source@),
    ensures
        final(state).wf(source@),
        emits(
            *old(state),
            *final(state),
            attrs_entries(*node, source@, node.children@.len() as int),
        ),
    decreases *node, 3int, 0int,
{
    let ghost s0 = *state;
    let len = node.children.len();
    proof {
        lemma_emits_empty(s0);
        assert(attrs_entries(*node, source@, 0) == eff_empty());
    }
    let mut i: usize = 0;
    while i < len
        invariant
            0 <= i <= len,
            len == node.children@.len(),
            node.wf(source@.len()),
            state.wf(source@),
            emits(s0, *state, attrs_entries(*node, source@, i as int)),
        decreases len - i,
    {
        let ghost pre_iter = *state;
        if i > 0 {
            let cs = bytes_comma_space();
            emit_lit(state, &cs, Ghost(source@));
        }
        let ghost pre_entry = *state;
        let attribute = &node.children[i];
        proof {
            assert(node.children@[i as int].wf(source@.len()));
        }
        if attribute.children.len() == 0 {
            proof {
                lemma_emits_empty(*state);
                assert(entry_eff(node.children@[i as int], source@) == eff_empty());
            }
        } else {
            let name_child = &attribute.children[0];
            proof {
                assert(node.children@[i as int].children@[0].wf(source@.len()));
            }
            visit_attribute_name(name_child, source, state);
            let ghost t1 = *state;
            let eq = bytes_equals();
            emit_lit(state, &eq, Ghost(source@));
            let ghost t2 = *state;
            proof {
                lemma_emits_chain(
                    pre_entry,
                    t1,
                    t2,
                    eff_text(node.children@[i as int].children@[0], source@),
                    eff_lit(lit_equals()),
                );
            }
            if attribute.children.len() >= 2 {
                let value = &attribute.children[1];
                proof {
                    assert(node.children@[i as int].children@[1].wf(source@.len()));
                }
                traverse_tree(value, source, state);
                proof {
                    lemma_emits_chain(
                        pre_entry,
                        t2,
                        *state,
                        eff_text(node.children@[i as int].children@[0], source@).chain(
                            eff_lit(lit_equals()),
                        ),
                        visit_of(node.children@[i as int].children@[1], source@),
                    );
                    assert(entry_eff(node.children@[i as int], source@) == eff_text(
                        node.children@[i as int].children@[0],
                        source@,
                    ).chain(eff_lit(lit_equals())).chain(
                        visit_of(node.children@[i as int].children@[1], source@),
                    ));
                }
            } else {
                let text = copy_range(source, name_child.start, name_child.end);
                let q = bytes_squote();
                emit_quoted(state, &text, name_child.start, name_child.end, &q, Ghost(source@));
                proof {
                    let nc = node.children@[i as int].children@[0];
                    assert(eff_lit(q@).chain(
                        eff_mapped(text@, nc.start as int, nc.end as int),
                    ).chain(eff_lit(q@)) == quoted_eff(nc, source@));
                    lemma_emits_chain(
                        pre_entry,
                        t2,
                        *state,
                        eff_text(nc, source@).chain(eff_lit(lit_equals())),
                        quoted_eff(nc, source@),
                    );
                    assert(entry_eff(node.children@[i as int], source@) == eff_text(
                        nc,
                        source@,
                    ).chain(eff_lit(lit_equals())).chain(quoted_eff(nc, source@)));
                }
            }
        }
        proof {
            if i == 0 {
                lemma_emits_chain(
                    s0,
                    pre_entry,
                    *state,
                    attrs_entries(*node, source@, 0),
                    entry_eff(node.children@[0], source@),
                );
                lemma_chain_empty(entry_eff(node.children@[0], source@));
                assert(attrs_entries(*node, source@, 1) == entry_eff(
                    node.children@[0],
                    source@,
                ));
            } else {
                lemma_emits_chain(
                    s0,
                    pre_iter,
                    pre_entry,
                    attrs_entries(*node, source@, i as int),
                    eff_lit(lit_comma_space()),
                );
                lemma_emits_chain(
                    s0,
                    pre_entry,
                    *state,
                    attrs_entries(*node, source@, i as int).chain(eff_lit(lit_comma_space())),
                    entry_eff(node.children@[i as int], source@),
                );
                assert(attrs_entries(*node, source@, i + 1) == attrs_entries(
                    *node,
                    source@,
                    i as int,
                ).chain(eff_lit(lit_comma_space())).chain(
                    entry_eff(node.children@[i as int], source@),
                ));
            }
        }
        i = i + 1;
    }
}

/// A conditional: the keyword child is skipped; when the second child is
/// a script fragment it is the condition and is wrapped in expression
/// mode; the remaining children (the body) are walked.
pub fn visit_conditional(node: &PugNode, source: &Vec<u8>, state: &mut CompileState)
    requires
        node.wf(source@.len()),
        old(state).wf(source@),
        node.named,
        node.kind is Conditional,
    ensures
        final(state).wf(source@),
        emits(*old(state), *final(state), visit_of(*node, source@)),
    decreases *node, 3int, 0int,
{
    let ghost s0 = *state;
    let len = node.children.len();
    if len >= 2 && matches!(&node.children[1].kind, NodeKind::Javascript) {
        let condition = &node.children[1];
        proof {
            assert(node.children@[1].wf(source@.len()));
        }
        let open = bytes_expr_open();
        emit_wrapped(&open, condition, source, state);
        let ghost s1 = *state;
        visit_children(node, 2, ChildMode::Plain, source, state);
        proof {
            lemma_emits_chain(
                s0,
                s1,
                *state,
                wrap_eff(lit_expr_open(), node.children@[1], source@),
                children_eff(*node, source@, 2, len as int, ChildMode::Plain),
            );
        }
    } else {
        visit_children(node, 1, ChildMode::Plain, source, state);
    }
}

/// A pipe (plain text line): the pipe marker child is skipped, the
/// remaining children are walked.
pub fn visit_pipe(node: &PugNode, source: &Vec<u8>, state: &mut CompileState)
    requires
        node.wf(source@.len()),
        old(state).wf(source@),
    ensures
        final(state).wf(source@),
        emits(
            *old(state),
            *final(state),
            children_eff(*node, source@, 1, node.children@.len() as int, ChildMode::Plain),
        ),
    decreases *node, 3int, 0int,
{
    visit_children(node, 1, ChildMode::Plain, source, state);
}

/// A tag interpolation: the marker child is skipped and the children of
/// the second child (the interpolation holder) are walked.
pub fn visit_tag_interpolation(node: &PugNode, source: &Vec<u8>, state: &mut CompileState)
    requires
        node.wf(source@.len()),
        old(state).wf(source@),
        node.named,
        node.kind is TagInterpolation,
    ensures
        final(state).wf(source@),
        emits(*old(state), *final(state), visit_of(*node, source@)),
    decreases *node, 3int, 0int,
{
    if node.children.len() >= 2 {
        let holder = &node.children[1];
        proof {
            assert(node.children@[1].wf(source@.len()));
        }
        visit_children(holder, 0, ChildMode::Plain, source, state);
    } else {
        proof {
            lemma_emits_empty(*old(state));
        }
    }
}

/// A filename: rendered as the start of a link — `<a href="`, the
/// filename text mapped to its own span, then `">`; no closing tag.
pub fn visit_filename(node: &PugNode, source: &Vec<u8>, state: &mut CompileState)
    requires
        node.wf(source@.len()),
        old(state).wf(source@),
    ensures
        final(state).wf(source@),
        emits(
            *old(state),
            *final(state),
            eff_lit(lit_anchor_open()).chain(eff_text(*node, source@)).chain(
                eff_lit(lit_anchor_close()),
            ),
        ),
{
    let ghost s0 = *state;
    let ao = bytes_anchor_open();
    emit_lit(state, &ao, Ghost(source@));
    let ghost s1 = *state;
    emit_node_text(node, source, state);
    let ghost s2 = *state;
    let ac = bytes_anchor_close();
    emit_lit(state, &ac, Ghost(source@));
    proof {
        lemma_emits_chain(s0, s1, s2, eff_lit(lit_anchor_open()), eff_text(*node, source@));
        lemma_emits_chain(
            s0,
            s2,
            *state,
            eff_lit(lit_anchor_open()).chain(eff_text(*node, source@)),
            eff_lit(lit_anchor_close()),
        );
    }
}

/// An `extends` or `include` node: every child is walked in order (a
/// `filename` child renders as a link start via normal dispatch).
pub fn visit_extends_include(node: &PugNode, source: &Vec<u8>, state: &mut CompileState)
    requires
        node.wf(source@.len()),
        old(state).wf(source@),
    ensures
        final(state).wf(source@),
        emits(
            *old(state),
            *final(state),
            children_eff(*node, source@, 0, node.children@.len() as int, ChildMode::Plain),
        ),
    decreases *node, 3int, 0int,
{
    visit_children(node, 0, ChildMode::Plain, source, state);
}

/// A `case` or `when` node: script children are wrapped in expression
/// mode (the discriminant and the clause guards), the rest are walked.
pub fn visit_case_when(node: &PugNode, source: &Vec<u8>, state: &mut CompileState)
    requires
        node.wf(source@.len()),
        old(state).wf(source@),
    ensures
        final(state).wf(source@),
        emits(
            *old(state),
            *final(state),
            children_eff(*node, source@, 0, node.children@.len() as int, ChildMode::Expr),
        ),
    decreases *node, 3int, 0int,
{
    visit_children(node, 0, ChildMode::Expr, source, state);
}

/// An unbuffered code block: script children are wrapped in statement
/// mode, the rest are walked.
pub fn visit_unbuffered_code(node: &PugNode, source: &Vec<u8>, state: &mut CompileState)
    requires
        node.wf(source@.len()),
        old(state).wf(source@),
    ensures
        final(state).wf(source@),
        emits(
            *old(state),
            *final(state),
            children_eff(*node, source@, 0, node.children@.len() as int, ChildMode::Stmt),
        ),
    decreases *node, 3int, 0int,
{
    visit_children(node, 0, ChildMode::Stmt, source, state);
}

/// A buffered code block: script children are wrapped in expression
/// mode (they produce a value to surface), the rest are walked.
pub fn visit_buffered_code(node: &PugNode, source: &Vec<u8>, state: &mut CompileState)
    requires
        node.wf(source@.len()),
        old(state).wf(source@),
    ensures
        final(state).wf(source@),
        emits(
            *old(state),
            *final(state),
            children_eff(*node, source@, 0, node.children@.len() as int, ChildMode::Expr),
        ),
    decreases *node, 3int, 0int,
{
    visit_children(node, 0, ChildMode::Expr, source, state);
}

/// The node dispatcher: walks `node` depth-first and emits HTML and
/// correspondence ranges according to its kind, exactly as `visit_of`
/// describes.  Unnamed nodes emit nothing; a kind outside the vocabulary
/// emits nothing and reports one diagnostic.
pub fn traverse_tree(node: &PugNode, source: &Vec<u8>, state: &mut CompileState)
    requires
        node.wf(source@.len()),
        old(state).wf(source@),
    ensures
        final(state).wf(source@),
        emits(*old(state), *final(state), visit_of(*node, source@)),
    decreases *node, 4int, 0int,
{
    let ghost s0 = *state;
    if !node.named {
        proof {
            lemma_emits_empty(s0);
        }
        return;
    }
    match &node.kind {
        NodeKind::SourceFile
        | NodeKind::Children
        | NodeKind::MixinDefinition
        | NodeKind::BlockDefinition
        | NodeKind::BlockUse
        | NodeKind::Each => {
            visit_children(node, 0, ChildMode::Plain, source, state);
        },
        NodeKind::Extends | NodeKind::Include => {
            visit_extends_include(node, source, state);
        },
        NodeKind::Error => {
            visit_children(node, 0, ChildMode::Plain, source, state);
        },
        NodeKind::IterationVariable | NodeKind::IterationIterator => {
            visit_children(node, 0, ChildMode::Expr, source, state);
        },
        NodeKind::BufferedCode | NodeKind::UnescapedBufferedCode
        | NodeKind::EscapedStringInterpolation => {
            visit_buffered_code(node, source, state);
        },
        NodeKind::Case | NodeKind::When => {
            visit_case_when(node, source, state);
        },
        NodeKind::ScriptBlock => {
            visit_children(node, 0, ChildMode::Stmt, source, state);
        },
        NodeKind::UnbufferedCode => {
            visit_unbuffered_code(node, source, state);
        },
        NodeKind::TagName | NodeKind::FilterName => {
            visit_tag_name(node, source, state);
        },
        NodeKind::AttributeName => {
            visit_attribute_name(node, source, state);
        },
        NodeKind::QuotedAttributeValue => {
            emit_node_text(node, source, state);
        },
        NodeKind::Javascript => {
            let text = copy_range(source, node.start, node.end);
            let q = bytes_squote();
            emit_quoted(state, &text, node.start, node.end, &q, Ghost(source@));
            proof {
                assert(eff_lit(q@).chain(
                    eff_mapped(text@, node.start as int, node.end as int),
                ).chain(eff_lit(q@)) == quoted_eff(*node, source@));
            }
        },
        NodeKind::Content => {
            visit_children(node, 0, ChildMode::Plain, source, state);
            let ghost s1 = *state;
            emit_node_text(node, source, state);
            proof {
                lemma_emits_chain(
                    s0,
                    s1,
                    *state,
                    children_eff(
                        *node,
                        source@,
                        0,
                        node.children@.len() as int,
                        ChildMode::Plain,
                    ),
                    eff_text(*node, source@),
                );
            }
        },
        NodeKind::Filename => {
            visit_filename(node, source, state);
        },
        NodeKind::Pipe => {
            visit_pipe(node, source, state);
        },
        NodeKind::TagInterpolation => {
            visit_tag_interpolation(node, source, state);
        },
        NodeKind::Conditional => {
            visit_conditional(node, source, state);
        },
        NodeKind::Tag | NodeKind::Filter => {
            visit_tag(node, source, state);
        },
        NodeKind::Attributes => {
            visit_attributes(node, source, state);
        },
        NodeKind::Keyword | NodeKind::MixinAttributes | NodeKind::Comment
        | NodeKind::BlockName => {
            proof {
                lemma_emits_empty(s0);
            }
        },
        NodeKind::Class => {
            let word = bytes_class_word();
            report_unknown(state, word, Ghost(source@));
        },
        NodeKind::Id => {
            let word = bytes_id_word();
            report_unknown(state, word, Ghost(source@));
        },
        NodeKind::Other(name) => {
            let copied = slice_to_vec(name.as_slice());
            report_unknown(state, copied, Ghost(source@));
        },
    }
}

/// Compiles a parsed template: walks the tree once, depth-first, and
/// returns the accumulator holding the HTML text, the ordered
/// correspondence list and the diagnostics.
///
/// The contract pins the whole result to the model: the HTML is exactly
/// `visit_of(root).out` and likewise for ranges and diagnostics.  The
/// accumulator invariant `wf` carries the two global guarantees: the
/// correspondence list is ordered and non-overlapping in output
/// coordinates with every range inside the buffer (the buffer is
/// append-only), and every range maps HTML bytes that are verbatim equal
/// to the source bytes of its input span.
pub fn compile(source: &Vec<u8>, root: &PugNode) -> (result: CompileState)
    requires
        root.wf(source@.len()),
    ensures
        result.wf(source@),
        result.html_text@ == visit_of(*root, source@).out,
        ranges_abs(result.ranges@) == visit_of(*root, source@).rngs,
        diags_abs(result.diagnostics@) == visit_of(*root, source@).diags,
        // the buffer is append-only and the list is in emission order:
        // every range lies inside the final buffer, and in output
        // coordinates the ranges are ordered and never overlap
        forall|i: int|
            0 <= i < result.ranges@.len() ==> {
                let r = #[trigger] result.ranges@[i];
                r.html_start <= r.html_end <= result.html_text@.len() && r.pug_start <= r.pug_end
                    <= source@.len()
            },
        forall|i: int, j: int|
            0 <= i < j < result.ranges@.len() ==> (#[trigger] result.ranges@[i]).html_end <= (
            #[trigger] result.ranges@[j]).html_start,
        // round trip: the HTML bytes of every range are verbatim the
        // source bytes of the span it maps to
        forall|i: int|
            0 <= i < result.ranges@.len() ==> {
                let r = #[trigger] result.ranges@[i];
                result.html_text@.subrange(r.html_start as int, r.html_end as int)
                    == source@.subrange(r.pug_start as int, r.pug_end as int)
            },
{
    let mut state = CompileState::new();
    traverse_tree(root, source, &mut state);
    proof {
        lemma_shift_zero(visit_of(*root, source@).rngs);
        assert(state.html_text@ =~= visit_of(*root, source@).out);
        assert(ranges_abs(state.ranges@) =~= visit_of(*root, source@).rngs);
        assert(diags_abs(state.diagnostics@) =~= visit_of(*root, source@).diags);
    }
    state
}

} // verus!
