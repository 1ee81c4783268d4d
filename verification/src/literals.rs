use vstd::prelude::*;

verus! {

// The fixed text fragments that the compiler emits around mapped source text.
// Each fragment exists twice: as a spec sequence, which the model and the
// contracts speak of, and as a verified builder that produces the same bytes
// at run time.

/// The bytes of `<`.
pub open spec fn lit_lt() -> Seq<u8> {
    seq!['<' as u8]
}

pub fn bytes_lt() -> (v: Vec<u8>)
    ensures
        v@ == lit_lt(),
{
    let mut v: Vec<u8> = Vec::new();
    v.push('<' as u8);
    proof {
        assert(v@ =~= lit_lt());
    }
    v
}

/// The bytes of `>`.
pub open spec fn lit_gt() -> Seq<u8> {
    seq!['>' as u8]
}

pub fn bytes_gt() -> (v: Vec<u8>)
    ensures
        v@ == lit_gt(),
{
    let mut v: Vec<u8> = Vec::new();
    v.push('>' as u8);
    proof {
        assert(v@ =~= lit_gt());
    }
    v
}

/// The bytes of `/`.
pub open spec fn lit_slash() -> Seq<u8> {
    seq!['/' as u8]
}

pub fn bytes_slash() -> (v: Vec<u8>)
    ensures
        v@ == lit_slash(),
{
    let mut v: Vec<u8> = Vec::new();
    v.push('/' as u8);
    proof {
        assert(v@ =~= lit_slash());
    }
    v
}

/// The bytes of `</`.
pub open spec fn lit_lt_slash() -> Seq<u8> {
    seq!['<' as u8, '/' as u8]
}

pub fn bytes_lt_slash() -> (v: Vec<u8>)
    ensures
        v@ == lit_lt_slash(),
{
    let mut v: Vec<u8> = Vec::new();
    v.push('<' as u8);
    v.push('/' as u8);
    proof {
        assert(v@ =~= lit_lt_slash());
    }
    v
}

/// The bytes of `'`.
pub open spec fn lit_squote() -> Seq<u8> {
    seq!['\'' as u8]
}

pub fn bytes_squote() -> (v: Vec<u8>)
    ensures
        v@ == lit_squote(),
{
    let mut v: Vec<u8> = Vec::new();
    v.push('\'' as u8);
    proof {
        assert(v@ =~= lit_squote());
    }
    v
}

/// The bytes of `"`.
pub open spec fn lit_dquote() -> Seq<u8> {
    seq!['"' as u8]
}

pub fn bytes_dquote() -> (v: Vec<u8>)
    ensures
        v@ == lit_dquote(),
{
    let mut v: Vec<u8> = Vec::new();
    v.push('"' as u8);
    proof {
        assert(v@ =~= lit_dquote());
    }
    v
}

/// The bytes of ` `.
pub open spec fn lit_space() -> Seq<u8> {
    seq![' ' as u8]
}

pub fn bytes_space() -> (v: Vec<u8>)
    ensures
        v@ == lit_space(),
{
    let mut v: Vec<u8> = Vec::new();
    v.push(' ' as u8);
    proof {
        assert(v@ =~= lit_space());
    }
    v
}

/// The bytes of `, `.
pub open spec fn lit_comma_space() -> Seq<u8> {
    seq![',' as u8, ' ' as u8]
}

pub fn bytes_comma_space() -> (v: Vec<u8>)
    ensures
        v@ == lit_comma_space(),
{
    let mut v: Vec<u8> = Vec::new();
    v.push(',' as u8);
    v.push(' ' as u8);
    proof {
        assert(v@ =~= lit_comma_space());
    }
    v
}

/// The bytes of `=`.
pub open spec fn lit_equals() -> Seq<u8> {
    seq!['=' as u8]
}

pub fn bytes_equals() -> (v: Vec<u8>)
    ensures
        v@ == lit_equals(),
{
    let mut v: Vec<u8> = Vec::new();
    v.push('=' as u8);
    proof {
        assert(v@ =~= lit_equals());
    }
    v
}

/// The bytes of ` class="`.
pub open spec fn lit_class_open() -> Seq<u8> {
    seq![' ' as u8, 'c' as u8, 'l' as u8, 'a' as u8, 's' as u8, 's' as u8, '=' as u8, '"' as u8]
}

pub fn bytes_class_open() -> (v: Vec<u8>)
    ensures
        v@ == lit_class_open(),
{
    let mut v: Vec<u8> = Vec::new();
    v.push(' ' as u8);
    v.push('c' as u8);
    v.push('l' as u8);
    v.push('a' as u8);
    v.push('s' as u8);
    v.push('s' as u8);
    v.push('=' as u8);
    v.push('"' as u8);
    proof {
        assert(v@ =~= lit_class_open());
    }
    v
}

/// The bytes of ` id="`.
pub open spec fn lit_id_open() -> Seq<u8> {
    seq![' ' as u8, 'i' as u8, 'd' as u8, '=' as u8, '"' as u8]
}

pub fn bytes_id_open() -> (v: Vec<u8>)
    ensures
        v@ == lit_id_open(),
{
    let mut v: Vec<u8> = Vec::new();
    v.push(' ' as u8);
    v.push('i' as u8);
    v.push('d' as u8);
    v.push('=' as u8);
    v.push('"' as u8);
    proof {
        assert(v@ =~= lit_id_open());
    }
    v
}

/// The bytes of `<script>return `.
pub open spec fn lit_expr_open() -> Seq<u8> {
    seq!['<' as u8, 's' as u8, 'c' as u8, 'r' as u8, 'i' as u8, 'p' as u8, 't' as u8, '>' as u8, 'r' as u8, 'e' as u8, 't' as u8, 'u' as u8, 'r' as u8, 'n' as u8, ' ' as u8]
}

pub fn bytes_expr_open() -> (v: Vec<u8>)
    ensures
        v@ == lit_expr_open(),
{
    let mut v: Vec<u8> = Vec::new();
    v.push('<' as u8);
    v.push('s' as u8);
    v.push('c' as u8);
    v.push('r' as u8);
    v.push('i' as u8);
    v.push('p' as u8);
    v.push('t' as u8);
    v.push('>' as u8);
    v.push('r' as u8);
    v.push('e' as u8);
    v.push('t' as u8);
    v.push('u' as u8);
    v.push('r' as u8);
    v.push('n' as u8);
    v.push(' ' as u8);
    proof {
        assert(v@ =~= lit_expr_open());
    }
    v
}

/// The bytes of `<script>`.
pub open spec fn lit_stmt_open() -> Seq<u8> {
    seq!['<' as u8, 's' as u8, 'c' as u8, 'r' as u8, 'i' as u8, 'p' as u8, 't' as u8, '>' as u8]
}

pub fn bytes_stmt_open() -> (v: Vec<u8>)
    ensures
        v@ == lit_stmt_open(),
{
    let mut v: Vec<u8> = Vec::new();
    v.push('<' as u8);
    v.push('s' as u8);
    v.push('c' as u8);
    v.push('r' as u8);
    v.push('i' as u8);
    v.push('p' as u8);
    v.push('t' as u8);
    v.push('>' as u8);
    proof {
        assert(v@ =~= lit_stmt_open());
    }
    v
}

/// The bytes of `;</script>`.
pub open spec fn lit_script_close() -> Seq<u8> {
    seq![';' as u8, '<' as u8, '/' as u8, 's' as u8, 'c' as u8, 'r' as u8, 'i' as u8, 'p' as u8, 't' as u8, '>' as u8]
}

pub fn bytes_script_close() -> (v: Vec<u8>)
    ensures
        v@ == lit_script_close(),
{
    let mut v: Vec<u8> = Vec::new();
    v.push(';' as u8);
    v.push('<' as u8);
    v.push('/' as u8);
    v.push('s' as u8);
    v.push('c' as u8);
    v.push('r' as u8);
    v.push('i' as u8);
    v.push('p' as u8);
    v.push('t' as u8);
    v.push('>' as u8);
    proof {
        assert(v@ =~= lit_script_close());
    }
    v
}

/// The bytes of `<a href="`.
pub open spec fn lit_anchor_open() -> Seq<u8> {
    seq!['<' as u8, 'a' as u8, ' ' as u8, 'h' as u8, 'r' as u8, 'e' as u8, 'f' as u8, '=' as u8, '"' as u8]
}

pub fn bytes_anchor_open() -> (v: Vec<u8>)
    ensures
        v@ == lit_anchor_open(),
{
    let mut v: Vec<u8> = Vec::new();
    v.push('<' as u8);
    v.push('a' as u8);
    v.push(' ' as u8);
    v.push('h' as u8);
    v.push('r' as u8);
    v.push('e' as u8);
    v.push('f' as u8);
    v.push('=' as u8);
    v.push('"' as u8);
    proof {
        assert(v@ =~= lit_anchor_open());
    }
    v
}

/// The bytes of `">`.
pub open spec fn lit_anchor_close() -> Seq<u8> {
    seq!['"' as u8, '>' as u8]
}

pub fn bytes_anchor_close() -> (v: Vec<u8>)
    ensures
        v@ == lit_anchor_close(),
{
    let mut v: Vec<u8> = Vec::new();
    v.push('"' as u8);
    v.push('>' as u8);
    proof {
        assert(v@ =~= lit_anchor_close());
    }
    v
}

/// The bytes of `class`.
pub open spec fn lit_class_word() -> Seq<u8> {
    seq!['c' as u8, 'l' as u8, 'a' as u8, 's' as u8, 's' as u8]
}

pub fn bytes_class_word() -> (v: Vec<u8>)
    ensures
        v@ == lit_class_word(),
{
    let mut v: Vec<u8> = Vec::new();
    v.push('c' as u8);
    v.push('l' as u8);
    v.push('a' as u8);
    v.push('s' as u8);
    v.push('s' as u8);
    proof {
        assert(v@ =~= lit_class_word());
    }
    v
}

/// The bytes of `id`.
pub open spec fn lit_id_word() -> Seq<u8> {
    seq!['i' as u8, 'd' as u8]
}

pub fn bytes_id_word() -> (v: Vec<u8>)
    ensures
        v@ == lit_id_word(),
{
    let mut v: Vec<u8> = Vec::new();
    v.push('i' as u8);
    v.push('d' as u8);
    proof {
        assert(v@ =~= lit_id_word());
    }
    v
}

} // verus!
