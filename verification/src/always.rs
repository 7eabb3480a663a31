//! What holds on every way through a plan, whatever the host answers.
use crate::config::ConfigModel;
use crate::drive_requests::list_model;
use crate::http::{HttpReplyModel, HttpRequestModel};
use crate::json::Json;
use crate::plan::{bind, Listed, Plan};
use vstd::prelude::*;

verus! {

/// What a plan asks of the host.
pub enum Question {
    Http(HttpRequestModel),
    ReadSecret(Seq<char>),
    WriteSecret(Seq<char>, Option<Seq<char>>),
    LoadConfig(Seq<char>),
    SaveConfig(Seq<char>, ConfigModel),
    DecodeConfig(Json),
}

/// Whatever the host answers, everything that the plan asks is allowed by `asks`
/// and every result that it ends with by `ends`. Of a listing, every page may be
/// asked for.
pub open spec fn always<R>(
    plan: Plan<R>,
    asks: spec_fn(Question) -> bool,
    ends: spec_fn(R) -> bool,
) -> bool
    decreases plan,
{
    match plan {
        Plan::Return(result) => ends(result),
        Plan::Http(request, next) => {
            &&& asks(Question::Http(request))
            &&& forall|answer: Result<HttpReplyModel, Seq<char>>|
                always(#[trigger] next(answer), asks, ends)
        },
        Plan::Listing(listing, next) => {
            &&& forall|token: Option<Seq<char>>|
                asks(
                    Question::Http(#[trigger] list_model(listing.config, listing.folder, token)),
                )
            &&& forall|listed: Listed| always(#[trigger] next(listed), asks, ends)
        },
        Plan::ReadSecret(key, next) => {
            &&& asks(Question::ReadSecret(key))
            &&& forall|answer: Result<Option<Seq<char>>, Seq<char>>|
                always(#[trigger] next(answer), asks, ends)
        },
        Plan::WriteSecret(key, value, next) => {
            &&& asks(Question::WriteSecret(key, value))
            &&& forall|answer: Result<(), Seq<char>>| always(#[trigger] next(answer), asks, ends)
        },
        Plan::LoadConfig(key, next) => {
            &&& asks(Question::LoadConfig(key))
            &&& forall|answer: Result<Option<ConfigModel>, Seq<char>>|
                always(#[trigger] next(answer), asks, ends)
        },
        Plan::SaveConfig(key, config, next) => {
            &&& asks(Question::SaveConfig(key, config))
            &&& forall|answer: Result<(), Seq<char>>| always(#[trigger] next(answer), asks, ends)
        },
        Plan::DecodeConfig(document, next) => {
            &&& asks(Question::DecodeConfig(document))
            &&& forall|answer: Result<ConfigModel, Seq<char>>|
                always(#[trigger] next(answer), asks, ends)
        },
    }
}

/// Whatever the host answers, the plan asks at most so many things. A listing may
/// ask for any number of pages.
pub open spec fn asks_at_most<R>(plan: Plan<R>, n: nat) -> bool
    decreases plan,
{
    match plan {
        Plan::Return(_) => true,
        Plan::Listing(_, _) => false,
        Plan::Http(_, next) => n > 0 && forall|answer: Result<HttpReplyModel, Seq<char>>|
            asks_at_most(#[trigger] next(answer), (n - 1) as nat),
        Plan::ReadSecret(_, next) => n > 0 && forall|answer: Result<Option<Seq<char>>, Seq<char>>|
            asks_at_most(#[trigger] next(answer), (n - 1) as nat),
        Plan::WriteSecret(_, _, next) => n > 0 && forall|answer: Result<(), Seq<char>>|
            asks_at_most(#[trigger] next(answer), (n - 1) as nat),
        Plan::LoadConfig(_, next) => n > 0 && forall|answer: Result<Option<ConfigModel>, Seq<char>>|
            asks_at_most(#[trigger] next(answer), (n - 1) as nat),
        Plan::SaveConfig(_, _, next) => n > 0 && forall|answer: Result<(), Seq<char>>|
            asks_at_most(#[trigger] next(answer), (n - 1) as nat),
        Plan::DecodeConfig(_, next) => n > 0 && forall|answer: Result<ConfigModel, Seq<char>>|
            asks_at_most(#[trigger] next(answer), (n - 1) as nat),
    }
}

/// What always holds of two plans holds of one after the other.
pub proof fn law_always_in_sequence<A, B>(
    plan: Plan<A>,
    rest: spec_fn(A) -> Plan<B>,
    asks: spec_fn(Question) -> bool,
    between: spec_fn(A) -> bool,
    ends: spec_fn(B) -> bool,
)
    requires
        always(plan, asks, between),
        forall|result: A| between(result) ==> always(#[trigger] rest(result), asks, ends),
    ensures
        always(bind(plan, rest), asks, ends),
    decreases plan,
{
    let whole = bind(plan, rest);
    match plan {
        Plan::Return(result) => {
            assert(always(rest(result), asks, ends));
        },
        Plan::Http(request, next) => {
            assert forall|answer: Result<HttpReplyModel, Seq<char>>|
                always(#[trigger] whole->Http_1(answer), asks, ends) by {
                law_always_in_sequence(next(answer), rest, asks, between, ends);
            }
        },
        Plan::Listing(listing, next) => {
            assert forall|listed: Listed|
                always(#[trigger] whole->Listing_1(listed), asks, ends) by {
                law_always_in_sequence(next(listed), rest, asks, between, ends);
            }
        },
        Plan::ReadSecret(key, next) => {
            assert forall|answer: Result<Option<Seq<char>>, Seq<char>>|
                always(#[trigger] whole->ReadSecret_1(answer), asks, ends) by {
                law_always_in_sequence(next(answer), rest, asks, between, ends);
            }
        },
        Plan::WriteSecret(key, value, next) => {
            assert forall|answer: Result<(), Seq<char>>|
                always(#[trigger] whole->WriteSecret_2(answer), asks, ends) by {
                law_always_in_sequence(next(answer), rest, asks, between, ends);
            }
        },
        Plan::LoadConfig(key, next) => {
            assert forall|answer: Result<Option<ConfigModel>, Seq<char>>|
                always(#[trigger] whole->LoadConfig_1(answer), asks, ends) by {
                law_always_in_sequence(next(answer), rest, asks, between, ends);
            }
        },
        Plan::SaveConfig(key, config, next) => {
            assert forall|answer: Result<(), Seq<char>>|
                always(#[trigger] whole->SaveConfig_2(answer), asks, ends) by {
                law_always_in_sequence(next(answer), rest, asks, between, ends);
            }
        },
        Plan::DecodeConfig(document, next) => {
            assert forall|answer: Result<ConfigModel, Seq<char>>|
                always(#[trigger] whole->DecodeConfig_1(answer), asks, ends) by {
                law_always_in_sequence(next(answer), rest, asks, between, ends);
            }
        },
    }
}

/// What always keeps to some questions and results keeps to more of them.
pub proof fn law_always_is_monotone<R>(
    plan: Plan<R>,
    asks: spec_fn(Question) -> bool,
    ends: spec_fn(R) -> bool,
    more: spec_fn(Question) -> bool,
    wider: spec_fn(R) -> bool,
)
    requires
        always(plan, asks, ends),
        forall|question: Question| #[trigger] asks(question) ==> more(question),
        forall|result: R| #[trigger] ends(result) ==> wider(result),
    ensures
        always(plan, more, wider),
    decreases plan,
{
    match plan {
        Plan::Return(result) => {},
        Plan::Http(_, next) => {
            assert forall|answer: Result<HttpReplyModel, Seq<char>>|
                always(#[trigger] next(answer), more, wider) by {
                law_always_is_monotone(next(answer), asks, ends, more, wider);
            }
        },
        Plan::Listing(listing, next) => {
            assert forall|token: Option<Seq<char>>|
                more(
                    Question::Http(#[trigger] list_model(listing.config, listing.folder, token)),
                ) by {
                assert(asks(Question::Http(list_model(listing.config, listing.folder, token))));
            }
            assert forall|listed: Listed| always(#[trigger] next(listed), more, wider) by {
                law_always_is_monotone(next(listed), asks, ends, more, wider);
            }
        },
        Plan::ReadSecret(_, next) => {
            assert forall|answer: Result<Option<Seq<char>>, Seq<char>>|
                always(#[trigger] next(answer), more, wider) by {
                law_always_is_monotone(next(answer), asks, ends, more, wider);
            }
        },
        Plan::WriteSecret(_, _, next) => {
            assert forall|answer: Result<(), Seq<char>>|
                always(#[trigger] next(answer), more, wider) by {
                law_always_is_monotone(next(answer), asks, ends, more, wider);
            }
        },
        Plan::LoadConfig(_, next) => {
            assert forall|answer: Result<Option<ConfigModel>, Seq<char>>|
                always(#[trigger] next(answer), more, wider) by {
                law_always_is_monotone(next(answer), asks, ends, more, wider);
            }
        },
        Plan::SaveConfig(_, _, next) => {
            assert forall|answer: Result<(), Seq<char>>|
                always(#[trigger] next(answer), more, wider) by {
                law_always_is_monotone(next(answer), asks, ends, more, wider);
            }
        },
        Plan::DecodeConfig(_, next) => {
            assert forall|answer: Result<ConfigModel, Seq<char>>|
                always(#[trigger] next(answer), more, wider) by {
                law_always_is_monotone(next(answer), asks, ends, more, wider);
            }
        },
    }
}

} // verus!
