//! The driver: trim the source, parse it, lower the tree.

use vstd::prelude::*;
use vstd::slice::slice_subrange;
use vstd::string::*;

use crate::codegen::{into_asm_string, spec_asm_string};
use crate::error::{CompileError, SpecCompileError};
use crate::parser::{spec_program, Parser, SpecParseOut, SpecParserState};
use crate::tokenizer::{ints_fit_from, is_ws_byte, lemma_skip_ws_bounds, skip_ws, spec_token_list};

verus! {

/// The end of the text with trailing ASCII whitespace removed: steps
/// back from `e` over whitespace bytes.
pub open spec fn trim_end_idx(t: Seq<u8>, e: nat) -> nat
    decreases e,
{
    if e > 0 && e <= t.len() && is_ws_byte(t[e - 1]) {
        trim_end_idx(t, (e - 1) as nat)
    } else {
        e
    }
}

pub proof fn lemma_trim_end_idx_bounds(t: Seq<u8>, e: nat)
    ensures
        trim_end_idx(t, e) <= e,
    decreases e,
{
    if e > 0 && e <= t.len() && is_ws_byte(t[e - 1]) {
        lemma_trim_end_idx_bounds(t, (e - 1) as nat);
    }
}

/// The text with leading and trailing ASCII whitespace removed.
pub open spec fn spec_trimmed(t: Seq<u8>) -> Seq<u8> {
    let s = skip_ws(t, 0);
    let e = trim_end_idx(t, t.len());
    if s <= e {
        t.subrange(s as int, e as int)
    } else {
        Seq::empty()
    }
}

/// The parse of the trimmed text, from the empty starting state.
pub open spec fn spec_parse_text(t: Seq<u8>) -> SpecParseOut {
    let tr = spec_trimmed(t);
    spec_program(
        spec_token_list(tr, 0),
        tr.len(),
        SpecParserState { pos: 0, locals: Seq::empty(), suffix: 0 },
        Seq::empty(),
    )
}

/// What `compile` returns for a text: the whole emitted program for
/// the parsed tree, or the first parse error.
pub open spec fn spec_compile(t: Seq<u8>) -> Result<Seq<char>, SpecCompileError> {
    match spec_parse_text(t).res {
        Ok(n) => Ok(spec_asm_string(n)),
        Err(e) => Err(e),
    }
}

/// Whether a text is within the driver's stated machine bounds: the
/// length leaves room for the slot arithmetic and every integer
/// literal fits 32 bits.
pub open spec fn compile_pre(t: Seq<u8>) -> bool {
    &&& 8 * (t.len() + 4) <= usize::MAX
    &&& ints_fit_from(spec_trimmed(t), 0)
}

fn ws_byte_exec(b: u8) -> (r: bool)
    ensures
        r == is_ws_byte(b),
{
    b == 0x20 || b == 0x09 || b == 0x0a || b == 0x0d || b == 0x0c || b == 0x0b
}

/// The byte range of the text with leading and trailing ASCII
/// whitespace removed.
#[verifier::loop_isolation(false)]
fn trim_ascii(bytes: &[u8]) -> (r: &[u8])
    ensures
        r@ == spec_trimmed(bytes@),
{
    let ghost t = bytes@;
    let n = bytes.len();
    let mut s: usize = 0;
    while s < n && ws_byte_exec(bytes[s])
        invariant
            s <= n,
            skip_ws(t, s as nat) == skip_ws(t, 0),
        decreases n - s,
    {
        s = s + 1;
    }
    proof {
        assert(s as nat == skip_ws(t, 0));
    }
    let mut e: usize = n;
    while e > 0 && ws_byte_exec(bytes[e - 1])
        invariant
            e <= n,
            trim_end_idx(t, e as nat) == trim_end_idx(t, t.len()),
        decreases e,
    {
        e = e - 1;
    }
    proof {
        assert(e as nat == trim_end_idx(t, t.len()));
    }
    if s <= e {
        slice_subrange(bytes, s, e)
    } else {
        let r = slice_subrange(bytes, 0, 0);
        proof {
            assert(r@ =~= spec_trimmed(t));
        }
        r
    }
}

/// Compiles a source text to x86-64 assembly, or reports the first
/// error. Leading and trailing ASCII whitespace is trimmed first; all
/// offsets are relative to the trimmed text.
pub fn compile(text: &str) -> (r: Result<String, CompileError>)
    requires
        compile_pre(text.spec_bytes()),
    ensures
        match r {
            Ok(s) => spec_compile(text.spec_bytes()) matches Ok(cs) && s@ == cs,
            Err(e) => spec_compile(text.spec_bytes()) matches Err(se) && e.deep_view() == se,
        },
{
    let ghost t = text.spec_bytes();
    let trimmed = trim_ascii(text.as_bytes());
    proof {
        lemma_skip_ws_bounds(t, 0);
        lemma_trim_end_idx_bounds(t, t.len());
        assert(trimmed@.len() <= t.len());
    }
    let mut parser = Parser::new_from_bytes(trimmed);
    match parser.parse() {
        Err(e) => Err(e),
        Ok(node) => {
            proof {
                assert(node.deep_view().wf());
            }
            let s = into_asm_string(&node);
            Ok(s)
        },
    }
}

} // verus!
