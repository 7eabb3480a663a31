//! What an operation does, as a tree of questions to the host.
//!
//! A [`Plan`] is either finished, with a result, or asks the host one thing and
//! goes on with a plan for every answer. A folder is listed page by page, for as
//! many pages as the host tells of; but for that, every plan ends after finitely
//! many questions, whatever the answers are.
use crate::config::ConfigModel;
use crate::drive_replies::{listed_page, ListPageModel};
use crate::http::{HttpReplyModel, HttpRequestModel};
use crate::json::Json;
use vstd::prelude::*;

verus! {

/// The names in a folder, or a message of what went wrong.
pub type Listed = Result<Seq<Seq<char>>, Seq<char>>;

/// A listing that is not complete yet: the names so far, and the token of the next
/// page, which is the first one where there is none.
pub struct ListingModel {
    pub config: ConfigModel,
    pub folder: Seq<char>,
    pub names: Seq<Seq<char>>,
    pub token: Option<Seq<char>>,
}

/// Goes on with what came of the request for a page: with the next page, if the
/// reply tells of one, or with the listing.
pub open spec fn after_page<R>(
    listing: ListingModel,
    next: spec_fn(Listed) -> Plan<R>,
    answer: Result<HttpReplyModel, Seq<char>>,
) -> Plan<R> {
    match answer {
        Err(message) => next(Err(message)),
        Ok(reply) => match listed_page(reply) {
            Err(message) => next(Err(message)),
            Ok(page) => match page.token {
                Some(token) => Plan::Listing(
                    ListingModel {
                        names: listing.names + page.names,
                        token: Some(token),
                        ..listing
                    },
                    next,
                ),
                None => next(Ok(listing.names + page.names)),
            },
        },
    }
}

#[verifier::reject_recursive_types(R)]
pub enum Plan<R> {
    /// Finished, with a result.
    Return(R),
    /// Performs an HTTP request.
    Http(HttpRequestModel, spec_fn(Result<HttpReplyModel, Seq<char>>) -> Plan<R>),
    /// Performs the request for the next page of a listing, and those for all the
    /// pages after it; then goes on with the listing.
    Listing(ListingModel, spec_fn(Listed) -> Plan<R>),
    /// Reads a secret.
    ReadSecret(Seq<char>, spec_fn(Result<Option<Seq<char>>, Seq<char>>) -> Plan<R>),
    /// Writes a secret, or deletes it where there is nothing to write.
    WriteSecret(Seq<char>, Option<Seq<char>>, spec_fn(Result<(), Seq<char>>) -> Plan<R>),
    /// Reads the configuration saved under a storage key.
    LoadConfig(Seq<char>, spec_fn(Result<Option<ConfigModel>, Seq<char>>) -> Plan<R>),
    /// Saves a configuration under a storage key.
    SaveConfig(Seq<char>, ConfigModel, spec_fn(Result<(), Seq<char>>) -> Plan<R>),
    /// Reads a configuration out of a JSON document.
    DecodeConfig(Json, spec_fn(Result<ConfigModel, Seq<char>>) -> Plan<R>),
}

/// The plan that does `plan` and then what `rest` makes of its result. A proof
/// that looks more than one question ahead needs as much fuel for it.
pub open spec fn bind<A, B>(plan: Plan<A>, rest: spec_fn(A) -> Plan<B>) -> Plan<B>
    decreases plan,
{
    match plan {
        Plan::Return(result) => rest(result),
        Plan::Http(request, next) => Plan::Http(
            request,
            |answer: Result<HttpReplyModel, Seq<char>>| bind(next(answer), rest),
        ),
        Plan::Listing(listing, next) => Plan::Listing(
            listing,
            |listed: Listed| bind(next(listed), rest),
        ),
        Plan::ReadSecret(key, next) => Plan::ReadSecret(
            key,
            |answer: Result<Option<Seq<char>>, Seq<char>>| bind(next(answer), rest),
        ),
        Plan::WriteSecret(key, value, next) => Plan::WriteSecret(
            key,
            value,
            |answer: Result<(), Seq<char>>| bind(next(answer), rest),
        ),
        Plan::LoadConfig(key, next) => Plan::LoadConfig(
            key,
            |answer: Result<Option<ConfigModel>, Seq<char>>| bind(next(answer), rest),
        ),
        Plan::SaveConfig(key, config, next) => Plan::SaveConfig(
            key,
            config,
            |answer: Result<(), Seq<char>>| bind(next(answer), rest),
        ),
        Plan::DecodeConfig(document, next) => Plan::DecodeConfig(
            document,
            |answer: Result<ConfigModel, Seq<char>>| bind(next(answer), rest),
        ),
    }
}

/// To go on by ending with the result changes nothing.
pub proof fn law_returning_changes_nothing<A>(plan: Plan<A>, rest: spec_fn(A) -> Plan<A>)
    requires
        forall|result: A| #[trigger] rest(result) == Plan::Return(result),
    ensures
        bind(plan, rest) == plan,
    decreases plan,
{
    let whole = bind(plan, rest);
    match plan {
        Plan::Return(result) => {
            assert(rest(result) == Plan::Return(result));
        },
        Plan::Listing(_, next) => {
            assert forall|answer: Listed| #[trigger]
                whole->Listing_1(answer) == next(answer) by {
                law_returning_changes_nothing(next(answer), rest);
            }
            assert(whole->Listing_1 =~= next);
        },
        Plan::Http(_, next) => {
            assert forall|answer: Result<HttpReplyModel, Seq<char>>| #[trigger]
                whole->Http_1(answer) == next(answer) by {
                law_returning_changes_nothing(next(answer), rest);
            }
            assert(whole->Http_1 =~= next);
        },
        Plan::ReadSecret(_, next) => {
            assert forall|answer: Result<Option<Seq<char>>, Seq<char>>| #[trigger]
                whole->ReadSecret_1(answer) == next(answer) by {
                law_returning_changes_nothing(next(answer), rest);
            }
            assert(whole->ReadSecret_1 =~= next);
        },
        Plan::WriteSecret(_, _, next) => {
            assert forall|answer: Result<(), Seq<char>>| #[trigger]
                whole->WriteSecret_2(answer) == next(answer) by {
                law_returning_changes_nothing(next(answer), rest);
            }
            assert(whole->WriteSecret_2 =~= next);
        },
        Plan::LoadConfig(_, next) => {
            assert forall|answer: Result<Option<ConfigModel>, Seq<char>>| #[trigger]
                whole->LoadConfig_1(answer) == next(answer) by {
                law_returning_changes_nothing(next(answer), rest);
            }
            assert(whole->LoadConfig_1 =~= next);
        },
        Plan::SaveConfig(_, _, next) => {
            assert forall|answer: Result<(), Seq<char>>| #[trigger]
                whole->SaveConfig_2(answer) == next(answer) by {
                law_returning_changes_nothing(next(answer), rest);
            }
            assert(whole->SaveConfig_2 =~= next);
        },
        Plan::DecodeConfig(_, next) => {
            assert forall|answer: Result<ConfigModel, Seq<char>>| #[trigger]
                whole->DecodeConfig_1(answer) == next(answer) by {
                law_returning_changes_nothing(next(answer), rest);
            }
            assert(whole->DecodeConfig_1 =~= next);
        },
    }
}

/// The continuation of a listing in a plan that something follows.
pub open spec fn bound<A, B>(
    next: spec_fn(Listed) -> Plan<A>,
    rest: spec_fn(A) -> Plan<B>,
) -> spec_fn(Listed) -> Plan<B> {
    |listed: Listed| bind(next(listed), rest)
}

/// It does not matter to a page whether something follows the listing.
pub proof fn law_pages_in_sequence<A, B>(
    listing: ListingModel,
    next: spec_fn(Listed) -> Plan<A>,
    rest: spec_fn(A) -> Plan<B>,
    answer: Result<HttpReplyModel, Seq<char>>,
)
    ensures
        bind(Plan::Listing(listing, next), rest) == Plan::Listing(listing, bound(next, rest)),
        bind(after_page(listing, next, answer), rest) == after_page(
            listing,
            bound(next, rest),
            answer,
        ),
{
    let one = bind(Plan::Listing(listing, next), rest);
    assert(one->Listing_1 =~= bound(next, rest));
    if let Ok(reply) = answer {
        if let Ok(page) = listed_page(reply) {
            if page.token is Some {
                let two = bind(after_page(listing, next, answer), rest);
                assert(two->Listing_1 =~= bound(next, rest));
            }
        }
    }
}

/// What two continuations do, one after the other.
pub open spec fn chained<A, B, C>(
    first: spec_fn(A) -> Plan<B>,
    second: spec_fn(B) -> Plan<C>,
) -> spec_fn(A) -> Plan<C> {
    |result: A| bind(first(result), second)
}

/// It does not matter in which order plans are put one after the other.
pub proof fn law_sequence_is_associative<A, B, C>(
    plan: Plan<A>,
    first: spec_fn(A) -> Plan<B>,
    second: spec_fn(B) -> Plan<C>,
)
    ensures
        bind(bind(plan, first), second) == bind(plan, chained(first, second)),
    decreases plan,
{
    let left = bind(bind(plan, first), second);
    let right = bind(plan, chained(first, second));
    match plan {
        Plan::Return(result) => {},
        Plan::Http(_, next) => {
            assert forall|answer: Result<HttpReplyModel, Seq<char>>| #[trigger]
                left->Http_1(answer) == right->Http_1(answer) by {
                law_sequence_is_associative(next(answer), first, second);
            }
            assert(left->Http_1 =~= right->Http_1);
        },
        Plan::Listing(_, next) => {
            assert forall|listed: Listed| #[trigger]
                left->Listing_1(listed) == right->Listing_1(listed) by {
                law_sequence_is_associative(next(listed), first, second);
            }
            assert(left->Listing_1 =~= right->Listing_1);
        },
        Plan::ReadSecret(_, next) => {
            assert forall|answer: Result<Option<Seq<char>>, Seq<char>>| #[trigger]
                left->ReadSecret_1(answer) == right->ReadSecret_1(answer) by {
                law_sequence_is_associative(next(answer), first, second);
            }
            assert(left->ReadSecret_1 =~= right->ReadSecret_1);
        },
        Plan::WriteSecret(_, _, next) => {
            assert forall|answer: Result<(), Seq<char>>| #[trigger]
                left->WriteSecret_2(answer) == right->WriteSecret_2(answer) by {
                law_sequence_is_associative(next(answer), first, second);
            }
            assert(left->WriteSecret_2 =~= right->WriteSecret_2);
        },
        Plan::LoadConfig(_, next) => {
            assert forall|answer: Result<Option<ConfigModel>, Seq<char>>| #[trigger]
                left->LoadConfig_1(answer) == right->LoadConfig_1(answer) by {
                law_sequence_is_associative(next(answer), first, second);
            }
            assert(left->LoadConfig_1 =~= right->LoadConfig_1);
        },
        Plan::SaveConfig(_, _, next) => {
            assert forall|answer: Result<(), Seq<char>>| #[trigger]
                left->SaveConfig_2(answer) == right->SaveConfig_2(answer) by {
                law_sequence_is_associative(next(answer), first, second);
            }
            assert(left->SaveConfig_2 =~= right->SaveConfig_2);
        },
        Plan::DecodeConfig(_, next) => {
            assert forall|answer: Result<ConfigModel, Seq<char>>| #[trigger]
                left->DecodeConfig_1(answer) == right->DecodeConfig_1(answer) by {
                law_sequence_is_associative(next(answer), first, second);
            }
            assert(left->DecodeConfig_1 =~= right->DecodeConfig_1);
        },
    }
}

// ---------------------------------------------------------------------------
// Pages
// ---------------------------------------------------------------------------

/// The names on all of some pages, in order.
pub open spec fn joined(pages: Seq<Seq<Seq<char>>>) -> Seq<Seq<char>>
    decreases pages.len(),
{
    if pages.len() == 0 {
        Seq::empty()
    } else {
        joined(pages.drop_last()) + pages.last()
    }
}

/// What is left of a plan after some replies to its requests.
pub open spec fn replied<R>(plan: Plan<R>, replies: Seq<HttpReplyModel>) -> Plan<R>
    decreases replies.len(),
{
    if replies.len() == 0 {
        plan
    } else {
        match replied(plan, replies.drop_last()) {
            Plan::Http(_, next) => next(Ok(replies.last())),
            Plan::Listing(listing, next) => after_page(listing, next, Ok(replies.last())),
            other => other,
        }
    }
}

/// Replies that are the pages of a listing, each but the last with the token of
/// the next one.
pub open spec fn are_pages(
    replies: Seq<HttpReplyModel>,
    pages: Seq<Seq<Seq<char>>>,
    tokens: Seq<Seq<char>>,
) -> bool {
    &&& replies.len() == pages.len() == tokens.len() + 1
    &&& forall|i: int|
        0 <= i < replies.len() ==> listed_page(#[trigger] replies[i]) == Ok::<
            ListPageModel,
            Seq<char>,
        >(
            ListPageModel {
                names: pages[i],
                token: if i < tokens.len() {
                    Some(tokens[i])
                } else {
                    None
                },
            },
        )
}

/// A listing holds the names of every finite run of pages, in their order. Until
/// the last page was handed in it waits for the page whose token came with the one
/// before it.
pub proof fn law_pages_add_up<R>(
    config: ConfigModel,
    folder: Seq<char>,
    next: spec_fn(Listed) -> Plan<R>,
    replies: Seq<HttpReplyModel>,
    pages: Seq<Seq<Seq<char>>>,
    tokens: Seq<Seq<char>>,
    k: int,
)
    requires
        are_pages(replies, pages, tokens),
        0 <= k <= replies.len(),
    ensures
        ({
            let first = ListingModel { config, folder, names: Seq::empty(), token: None };
            let left = replied(Plan::Listing(first, next), replies.take(k));
            if k == replies.len() {
                left == next(Ok(joined(pages)))
            } else {
                left == Plan::Listing(
                    ListingModel {
                        config,
                        folder,
                        names: joined(pages.take(k)),
                        token: if k == 0 {
                            None
                        } else {
                            Some(tokens[k - 1])
                        },
                    },
                    next,
                )
            }
        }),
    decreases k,
{
    if k > 0 {
        law_pages_add_up(config, folder, next, replies, pages, tokens, k - 1);
        assert(replies.take(k).drop_last() =~= replies.take(k - 1));
        assert(replies.take(k).last() == replies[k - 1]);
        assert(pages.take(k).drop_last() =~= pages.take(k - 1));
        assert(pages.take(k).last() == pages[k - 1]);
        assert(pages.take(pages.len() as int) =~= pages);
    } else {
        assert(pages.take(0) =~= Seq::empty());
    }
}

} // verus!
