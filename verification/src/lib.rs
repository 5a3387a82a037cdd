//! A compiler front end for a small stage-pipeline description language.
//!
//! A description declares stream-level `INPUT`/`OUTPUT` variables and an
//! ordered list of `STAGE` blocks.  The library parses the description from
//! a structural token sequence, resolves which stage inputs flow through the
//! pipeline and which are captured worker state, and emits the token sequence
//! of the wiring code for a staged-pipeline runtime.

use vstd::prelude::*;

pub mod chunks;
pub mod codegen;
pub mod parse;
pub mod props;
pub mod spar_stream;
pub mod tokens;

verus! {

/// Compiles one whole stage description: builds and resolves the stream,
/// then emits the pipeline wiring code.  `num_workers` is the validated
/// worker-count override that replaces every fixed replica count.
pub fn to_stream(item: &Vec<tokens::Token>, num_workers: Option<u32>) -> (r: Result<
    Vec<tokens::Token>,
    parse::SparError,
>)
    ensures
        match spar_stream::build_stream(tokens::tokens_model(item@)) {
            Some(sm) => match codegen::codegen_model(sm, num_workers) {
                Some(c) => r matches Ok(o) && tokens::tokens_model(o@) == c,
                None => r is Err,
            },
            None => r is Err,
        },
{
    match spar_stream::SparStream::try_from(item) {
        Ok(stream) => codegen::codegen(stream, num_workers),
        Err(e) => Err(e),
    }
}

} // verus!
