use vstd::prelude::*;

verus! {

/// The record that one span of compiled HTML was derived from one span of
/// template source: HTML bytes `[html_start, html_end)` were produced from
/// source bytes `[pug_start, pug_end)`.
pub struct CorrespondenceRange {
    pub html_end: usize,
    pub html_start: usize,
    pub pug_end: usize,
    pub pug_start: usize,
}

/// The value of a correspondence range over unbounded integers; the
/// compilation model and the contracts speak in these.
pub struct RangeModel {
    pub html_end: int,
    pub html_start: int,
    pub pug_end: int,
    pub pug_start: int,
}

impl CorrespondenceRange {
    /// The mathematical value of this range.
    pub open spec fn abs(self) -> RangeModel {
        RangeModel {
            html_end: self.html_end as int,
            html_start: self.html_start as int,
            pug_end: self.pug_end as int,
            pug_start: self.pug_start as int,
        }
    }
}

/// The mathematical values of a list of correspondence ranges.
pub open spec fn ranges_abs(rs: Seq<CorrespondenceRange>) -> Seq<RangeModel> {
    rs.map_values(|r: CorrespondenceRange| r.abs())
}

/// One diagnostic: the name of a node kind outside the known vocabulary,
/// reported so the caller can surface it; the node itself contributes no
/// output.
pub struct Diagnostic {
    pub node_kind: Vec<u8>,
}

/// The kind names held by a list of diagnostics.
pub open spec fn diags_abs(ds: Seq<Diagnostic>) -> Seq<Seq<u8>> {
    ds.map_values(|d: Diagnostic| d.node_kind@)
}

/// The output accumulator: the growing HTML buffer, the ordered list of
/// correspondence ranges, and the diagnostics collected during the walk.
/// All three are append-only; the accumulator is the only component that
/// mutates output.
pub struct CompileState {
    pub html_text: Vec<u8>,
    pub ranges: Vec<CorrespondenceRange>,
    pub diagnostics: Vec<Diagnostic>,
}

impl CompileState {
    /// The accumulator invariant with respect to the source text `src`:
    /// every range lies inside the HTML buffer and the source, the HTML
    /// bytes of every range are exactly the source bytes it maps to, and
    /// the ranges are ordered and disjoint in output coordinates.
    pub open spec fn wf(self, src: Seq<u8>) -> bool {
        &&& forall|i: int|
            0 <= i < self.ranges@.len() ==> {
                let r = #[trigger] self.ranges@[i];
                &&& r.html_start <= r.html_end <= self.html_text@.len()
                &&& r.pug_start <= r.pug_end <= src.len()
                &&& self.html_text@.subrange(r.html_start as int, r.html_end as int)
                    == src.subrange(r.pug_start as int, r.pug_end as int)
            }
        &&& forall|i: int, j: int|
            0 <= i < j < self.ranges@.len() ==> (#[trigger] self.ranges@[i]).html_end <= (
            #[trigger] self.ranges@[j]).html_start
    }

    /// A fresh accumulator: empty buffer, no ranges, no diagnostics.
    pub fn new() -> (s: CompileState)
        ensures
            s.html_text@ == Seq::<u8>::empty(),
            s.ranges@ == Seq::<CorrespondenceRange>::empty(),
            s.diagnostics@ == Seq::<Diagnostic>::empty(),
            forall|src: Seq<u8>| #[trigger] s.wf(src),
    {
        let s = CompileState {
            html_text: Vec::new(),
            ranges: Vec::new(),
            diagnostics: Vec::new(),
        };
        s
    }
}

/// Copies the source bytes `[start, end)` into a fresh buffer.
pub fn copy_range(source: &Vec<u8>, start: usize, end: usize) -> (v: Vec<u8>)
    requires
        start <= end <= source@.len(),
    ensures
        v@ == source@.subrange(start as int, end as int),
{
    let mut v: Vec<u8> = Vec::new();
    let mut i: usize = start;
    while i < end
        invariant
            start <= i <= end <= source@.len(),
            v@ == source@.subrange(start as int, i as int),
        decreases end - i,
    {
        v.push(source[i]);
        proof {
            assert(v@ =~= source@.subrange(start as int, i + 1));
        }
        i = i + 1;
    }
    v
}

/// Appends `extra` to the buffer `dst`.
fn append_bytes(dst: &mut Vec<u8>, extra: &Vec<u8>)
    ensures
        final(dst)@ == old(dst)@ + extra@,
{
    let mut i: usize = 0;
    while i < extra.len()
        invariant
            i <= extra@.len(),
            dst@ == old(dst)@ + extra@.subrange(0, i as int),
        decreases extra@.len() - i,
    {
        dst.push(extra[i]);
        proof {
            assert(dst@ =~= old(dst)@ + extra@.subrange(0, i + 1));
        }
        i = i + 1;
    }
    proof {
        assert(dst@ =~= old(dst)@ + extra@);
    }
}

/// Appends `to_push` to the HTML buffer; when `pug_range` carries a source
/// span, also records the correspondence range from the buffer's pre-append
/// length to its post-append length, mapped to that span.  Only text that
/// is traceable to a concrete source span gets a range, and a mapped push
/// must be verbatim: the pushed bytes are exactly the source bytes of the
/// span, which keeps the accumulator invariant.
pub fn push_range(
    state: &mut CompileState,
    to_push: &Vec<u8>,
    pug_range: Option<(usize, usize)>,
    Ghost(src): Ghost<Seq<u8>>,
)
    requires
        old(state).wf(src),
        pug_range matches Some((ps, pe)) ==> ps <= pe && pe <= src.len() && to_push@
            == src.subrange(ps as int, pe as int),
    ensures
        final(state).wf(src),
        final(state).html_text@ == old(state).html_text@ + to_push@,
        final(state).diagnostics@ == old(state).diagnostics@,
        ranges_abs(final(state).ranges@) == ranges_abs(old(state).ranges@) + match pug_range {
            Some((ps, pe)) => seq![
                RangeModel {
                    html_start: old(state).html_text@.len() as int,
                    html_end: old(state).html_text@.len() + to_push@.len() as int,
                    pug_start: ps as int,
                    pug_end: pe as int,
                },
            ],
            None => Seq::<RangeModel>::empty(),
        },
{
    let ghost old_html = state.html_text@;
    let html_start = state.html_text.len();
    append_bytes(&mut state.html_text, to_push);
    proof {
        assert forall|i: int| 0 <= i < state.ranges@.len() implies {
            let r = #[trigger] state.ranges@[i];
            state.html_text@.subrange(r.html_start as int, r.html_end as int) == src.subrange(
                r.pug_start as int,
                r.pug_end as int,
            )
        } by {
            let r = state.ranges@[i];
            assert(state.html_text@.subrange(r.html_start as int, r.html_end as int) =~= old_html
                .subrange(r.html_start as int, r.html_end as int));
        }
    }
    match pug_range {
        Some((ps, pe)) => {
            let html_end = state.html_text.len();
            let range = CorrespondenceRange { html_end, html_start, pug_end: pe, pug_start: ps };
            let ghost old_ranges = state.ranges@;
            state.ranges.push(range);
            proof {
                assert(state.html_text@.subrange(html_start as int, html_end as int) =~= to_push@);
                assert(ranges_abs(state.ranges@) =~= ranges_abs(old_ranges) + seq![range.abs()]);
            }
        },
        None => {
            proof {
                assert(ranges_abs(state.ranges@) =~= ranges_abs(state.ranges@)
                    + Seq::<RangeModel>::empty());
            }
        },
    }
}

/// Emits `surround`, then `to_push` mapped to the source span
/// `[pug_start, pug_end)`, then `surround` again: a bare token turned into
/// a quoted HTML attribute value.  Only the middle emission is mapped.
pub fn push_range_surround(
    state: &mut CompileState,
    to_push: &Vec<u8>,
    pug_start: usize,
    pug_end: usize,
    surround: &Vec<u8>,
    Ghost(src): Ghost<Seq<u8>>,
)
    requires
        old(state).wf(src),
        pug_start <= pug_end <= src.len(),
        to_push@ == src.subrange(pug_start as int, pug_end as int),
    ensures
        final(state).wf(src),
        final(state).html_text@ == old(state).html_text@ + surround@ + to_push@ + surround@,
        final(state).diagnostics@ == old(state).diagnostics@,
        ranges_abs(final(state).ranges@) == ranges_abs(old(state).ranges@) + seq![
            RangeModel {
                html_start: old(state).html_text@.len() + surround@.len() as int,
                html_end: old(state).html_text@.len() + surround@.len() + to_push@.len() as int,
                pug_start: pug_start as int,
                pug_end: pug_end as int,
            },
        ],
{
    push_range(state, surround, None, Ghost(src));
    push_range(state, to_push, Some((pug_start, pug_end)), Ghost(src));
    push_range(state, surround, None, Ghost(src));
    proof {
        assert(ranges_abs(state.ranges@) =~= ranges_abs(old(state).ranges@) + seq![
            RangeModel {
                html_start: old(state).html_text@.len() + surround@.len() as int,
                html_end: old(state).html_text@.len() + surround@.len() + to_push@.len() as int,
                pug_start: pug_start as int,
                pug_end: pug_end as int,
            },
        ]);
    }
}

} // verus!
