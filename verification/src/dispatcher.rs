//! The load-generating step: it sends its payload a given number of times,
//! in bursts with a pause between them, and once more for every message it
//! receives.
//!
//! Pausing and sending is the caller's work; how much to send in each
//! burst, and what, is decided here.

use crate::co2_struct::copy_text;
use crate::co2_struct::text_model;
use crate::json::Json;
use crate::json::JsonModel;
use crate::modules::Config;
use crate::modules::ConfigModel;
use crate::modules::ID;
use crate::modules::next_trace;
use crate::modules::Response;
use crate::modules::ResponseModel;
use crate::modules::TraceId;
use vstd::prelude::*;

verus! {

/// What the step sends, how often, how many at a time, and how many
/// milliseconds it pauses between two bursts.
#[derive(Debug, PartialEq)]
pub struct Plan {
    pub payload: Json,
    pub number_of_dispatch: i64,
    pub spawn_rate: i64,
    pub spawn_interval: u64,
}

/// What a `Plan` stands for.
pub struct PlanModel {
    pub payload: JsonModel,
    pub number_of_dispatch: i64,
    pub spawn_rate: i64,
    pub spawn_interval: u64,
}

impl View for Plan {
    type V = PlanModel;

    open spec fn view(&self) -> PlanModel {
        PlanModel {
            payload: self.payload@,
            number_of_dispatch: self.number_of_dispatch,
            spawn_rate: self.spawn_rate,
            spawn_interval: self.spawn_interval,
        }
    }
}

/// The parameters as an object: the parameters themselves where they are
/// one, an object without members otherwise.
pub open spec fn params_of(config: ConfigModel) -> JsonModel {
    JsonModel::Object(config.params_object())
}

/// The count that the member `key` of `params` names: one where the member
/// is missing or is no signed integer.
pub open spec fn count_at(params: JsonModel, key: Seq<char>) -> i64 {
    match params.member(key) {
        Some(value) => match value.as_i64() {
            Some(count) => count,
            None => 1,
        },
        None => 1,
    }
}

/// The pause that `params` names: none where the member is missing, one
/// millisecond where it is no signed integer, and the 64 bits of the
/// integer read without a sign otherwise.
pub open spec fn pause_of(params: JsonModel) -> u64 {
    match params.member("spawn_interval"@) {
        Some(value) => match value.as_i64() {
            Some(pause) => if pause < 0 {
                (pause + 0x1_0000_0000_0000_0000) as u64
            } else {
                pause as u64
            },
            None => 1,
        },
        None => 0,
    }
}

/// The plan of a step that is started with `config`; a step without a
/// payload of its own sends the empty text.
pub open spec fn plan_of(config: ConfigModel) -> PlanModel {
    let params = params_of(config);
    PlanModel {
        payload: match params.member("payload"@) {
            Some(payload) => payload,
            None => JsonModel::Text(Seq::empty()),
        },
        number_of_dispatch: count_at(params, "number_of_dispatch"@),
        spawn_rate: count_at(params, "spawn_rate"@),
        spawn_interval: pause_of(params),
    }
}

/// The count that the member `key` of `params` names.
fn read_count(params: &Json, key: &str) -> (count: i64)
    ensures
        count == count_at(params@, key@),
{
    match params.get(key) {
        Some(value) => match value.as_i64() {
            Some(count) => count,
            None => 1,
        },
        None => 1,
    }
}

/// The plan of the step that is started with `config`.
pub fn plan(config: Config) -> (plan: Plan)
    ensures
        plan@ == plan_of(config@),
{
    let ghost model = config@;
    let members = config.get_params_object();
    let params = Json::Object(members);
    proof {
        crate::json::lemma_view_of_parts(params);
        assert(params@ == params_of(model));
    }
    let payload = match params.get("payload") {
        Some(payload) => payload.duplicate(),
        None => Json::Text(String::new()),
    };
    let spawn_interval: u64 = match params.get("spawn_interval") {
        Some(value) => match value.as_i64() {
            Some(pause) => if pause < 0 {
                0xffff_ffff_ffff_ffffu64 - ((-(pause + 1)) as u64)
            } else {
                pause as u64
            },
            None => 1,
        },
        None => 0,
    };
    Plan {
        payload,
        number_of_dispatch: read_count(&params, "number_of_dispatch"),
        spawn_rate: read_count(&params, "spawn_rate"),
        spawn_interval,
    }
}

/// One burst: how many messages it sends, and how many trace identifiers
/// it takes from the counter. A burst that ends because enough has been
/// sent takes one identifier that it does not use.
#[derive(PartialEq, Eq, Structural, Clone, Copy, Debug)]
pub struct Burst {
    pub sends: u64,
    pub traces: u64,
}

/// The burst that follows when `total` messages have been sent; none once
/// `total` has reached the number to send. A burst sends as many messages
/// as the rate says, but no more than are still to send.
pub open spec fn burst_of(plan: PlanModel, total: i64) -> Option<Burst> {
    if total >= plan.number_of_dispatch {
        None
    } else if plan.spawn_rate <= 0 {
        Some(Burst { sends: 0, traces: 0 })
    } else if plan.spawn_rate <= plan.number_of_dispatch - total {
        Some(Burst { sends: plan.spawn_rate as u64, traces: plan.spawn_rate as u64 })
    } else {
        Some(
            Burst {
                sends: (plan.number_of_dispatch - total) as u64,
                traces: (plan.number_of_dispatch - total + 1) as u64,
            },
        )
    }
}

/// The burst that follows when `total` messages have been sent.
pub fn burst(plan: &Plan, total: i64) -> (next: Option<Burst>)
    ensures
        next == burst_of(plan@, total),
{
    if total >= plan.number_of_dispatch {
        return None;
    }
    if plan.spawn_rate <= 0 {
        return Some(Burst { sends: 0, traces: 0 });
    }
    let left: u64 = if total >= 0 {
        (plan.number_of_dispatch - total) as u64
    } else {
        (plan.number_of_dispatch as i128 - total as i128) as u64
    };
    if plan.spawn_rate as u64 <= left {
        Some(Burst { sends: plan.spawn_rate as u64, traces: plan.spawn_rate as u64 })
    } else {
        Some(Burst { sends: left, traces: left + 1 })
    }
}

/// The message that step `id` sends: the plan's payload as a success,
/// bound for `attach`, under the next trace identifier of the step's counter.
pub fn dispatcher(
    id: ID,
    plan: &Plan,
    attach: &Option<String>,
    counter: &mut TraceId,
) -> (response: Response)
    ensures
        final(counter).id == next_trace(old(counter).id),
        response@ == (ResponseModel {
            payload: Ok(Some(plan@.payload)),
            attach: text_model(*attach),
            origin: id,
            trace_id: final(counter).id,
        }),
{
    let trace_id = counter.get_trace();
    Response {
        payload: Ok(Some(plan.payload.duplicate())),
        attach: copy_text(attach),
        origin: id,
        trace_id,
    }
}

} // verus!
