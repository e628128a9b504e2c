//! The echoing step: it hands every message on as it came, and as a
//! producer begins by sending its own parameters under a fresh trace.

use crate::co2_struct::copy_json;
use crate::co2_struct::copy_text;
use crate::modules::Config;
use crate::modules::next_trace;
use crate::modules::Request;
use crate::modules::Return;
use crate::modules::ReturnModel;
use crate::modules::TraceId;
use vstd::prelude::*;

verus! {

/// What the step sends before it has received anything: as a producer, its
/// parameters as a success, under the next trace identifier of the step's
/// counter; else nothing, and no identifier is taken.
pub fn opening(config: &Config, counter: &mut TraceId) -> (first: Option<Return>)
    ensures
        match first {
            Some(message) => {
                &&& config@.producer == Some(true)
                &&& final(counter).id == next_trace(old(counter).id)
                &&& message@ == (ReturnModel {
                    payload: Ok(config@.params),
                    attach: config@.default_attach,
                    trace_id: final(counter).id,
                })
            },
            None => config@.producer != Some(true) && final(counter).id == old(counter).id,
        },
{
    match config.producer {
        Some(true) => {
            let trace_id = counter.get_trace();
            Some(
                Return {
                    payload: Ok(copy_json(&config.params)),
                    attach: copy_text(&config.default_attach),
                    trace_id,
                },
            )
        },
        _ => None,
    }
}

/// What the step answers to `request`: the same payload under the same
/// trace identifier, bound for the step's attach target.
pub fn mock(request: Request, config: &Config) -> (answer: Return)
    ensures
        answer@ == (ReturnModel {
            payload: request@.payload,
            attach: config@.default_attach,
            trace_id: request@.trace_id,
        }),
{
    Return {
        payload: request.payload,
        attach: copy_text(&config.default_attach),
        trace_id: request.trace_id,
    }
}

} // verus!
