//! The requests of a subscriber and the text that answers each.

use vstd::prelude::*;
use crate::ledger::urls_of;
use crate::registry::{
    after_subscribe, after_unsubscribe, subscribe_result, unsubscribe_result, Registry,
    SubscribeOutcome, UnsubscribeOutcome, ValidationError,
};

verus! {

/// The answer to a subscriber who follows no search.
pub const NOTHING_FOLLOWED: &'static str = "Not subbed to anything...";

/// The strings of `lines`, each but the last followed by a line break.
pub open spec fn joined(lines: Seq<Seq<char>>) -> Seq<char>
    decreases lines.len(),
{
    if lines.len() == 0 {
        Seq::empty()
    } else if lines.len() == 1 {
        lines[0]
    } else {
        joined(lines.drop_last()) + "\n"@ + lines.last()
    }
}

/// The answer to a list request: the searches one to a line, or a notice
/// that there are none.
pub open spec fn list_text(urls: Seq<Seq<char>>) -> Seq<char> {
    if urls.len() == 0 {
        NOTHING_FOLLOWED@
    } else {
        joined(urls)
    }
}

/// The answer to a subscribe request.
pub open spec fn subscribe_text(result: Result<SubscribeOutcome, ValidationError>) -> Seq<char> {
    match result {
        Ok(SubscribeOutcome::Added) => "Successfully subed to link."@,
        Ok(SubscribeOutcome::AlreadyPresent) => "Already subed to link."@,
        Err(ValidationError::EmptyUrl) => "Please specify the URL: /subscribe <URL>"@,
    }
}

/// The answer to an unsubscribe request.
pub open spec fn unsubscribe_text(outcome: UnsubscribeOutcome) -> Seq<char> {
    match outcome {
        UnsubscribeOutcome::Removed => "Successfully unsubed from link."@,
        UnsubscribeOutcome::NotFound => "Not subed to that link."@,
    }
}

impl ValidationError {
    /// The rejection as the subscriber reads it.
    pub fn message(&self) -> (text: String)
        ensures
            text@ == subscribe_text(Err(*self)),
    {
        match self {
            ValidationError::EmptyUrl => "Please specify the URL: /subscribe <URL>".to_owned(),
        }
    }
}

/// Writes the answer to a subscribe request.
pub fn subscribe_reply(result: Result<SubscribeOutcome, ValidationError>) -> (text: String)
    ensures
        text@ == subscribe_text(result),
{
    match result {
        Ok(SubscribeOutcome::Added) => "Successfully subed to link.".to_owned(),
        Ok(SubscribeOutcome::AlreadyPresent) => "Already subed to link.".to_owned(),
        Err(error) => error.message(),
    }
}

/// Writes the answer to an unsubscribe request.
pub fn unsubscribe_reply(outcome: UnsubscribeOutcome) -> (text: String)
    ensures
        text@ == unsubscribe_text(outcome),
{
    match outcome {
        UnsubscribeOutcome::Removed => "Successfully unsubed from link.".to_owned(),
        UnsubscribeOutcome::NotFound => "Not subed to that link.".to_owned(),
    }
}

/// Writes the answer to a list request.
pub fn list_reply(urls: &Vec<String>) -> (text: String)
    ensures
        text@ == list_text(urls.deep_view()),
{
    if urls.len() == 0 {
        return NOTHING_FOLLOWED.to_owned();
    }
    let mut text = urls[0].clone();
    let mut i: usize = 1;
    while i < urls.len()
        invariant
            1 <= i <= urls.len(),
            text@ == joined(urls.deep_view().take(i as int)),
        decreases urls.len() - i,
    {
        proof {
            let all = urls.deep_view();
            assert(all.take(i + 1).drop_last() =~= all.take(i as int));
        }
        text.append("\n");
        text.append(urls[i].as_str());
        i += 1;
    }
    proof {
        assert(urls.deep_view().take(i as int) =~= urls.deep_view());
    }
    text
}

/// What a subscriber asks of the registry.
#[derive(Clone, Debug, PartialEq, Eq)]
pub enum Request {
    /// Follow the search at this address.
    Subscribe(String),
    /// Stop following the search at this address.
    Unsubscribe(String),
    /// Name the searches followed.
    List,
}

/// A request in contracts.
pub ghost enum RequestView {
    Subscribe(Seq<char>),
    Unsubscribe(Seq<char>),
    List,
}

impl View for Request {
    type V = RequestView;

    open spec fn view(&self) -> RequestView {
        match self {
            Request::Subscribe(url) => RequestView::Subscribe(url@),
            Request::Unsubscribe(url) => RequestView::Unsubscribe(url@),
            Request::List => RequestView::List,
        }
    }
}

/// The answer to a request.
#[derive(Clone, Debug, PartialEq, Eq)]
pub struct Answer {
    /// The single text that goes back to the subscriber.
    pub text: String,
    /// Whether the request changed the registry, so that it is to be saved.
    pub changed: bool,
}

/// The registry after `request` of `subscriber`.
pub open spec fn after_request(
    registry: Map<i64, Seq<Seq<char>>>,
    subscriber: i64,
    request: RequestView,
) -> Map<i64, Seq<Seq<char>>> {
    match request {
        RequestView::Subscribe(url) => after_subscribe(registry, subscriber, url),
        RequestView::Unsubscribe(url) => after_unsubscribe(registry, subscriber, url),
        RequestView::List => registry,
    }
}

/// The text that answers an unsubscribe request of `subscriber` for `url`:
/// a subscriber that has never subscribed to anything is told so, and any
/// other is told what the request did.
pub open spec fn unsubscribe_answer(
    registry: Map<i64, Seq<Seq<char>>>,
    subscriber: i64,
    url: Seq<char>,
) -> Seq<char> {
    if registry.contains_key(subscriber) {
        unsubscribe_text(unsubscribe_result(registry, subscriber, url))
    } else {
        NOTHING_FOLLOWED@
    }
}

/// The text that answers `request` of `subscriber`.
pub open spec fn answer_text(
    registry: Map<i64, Seq<Seq<char>>>,
    subscriber: i64,
    request: RequestView,
) -> Seq<char> {
    match request {
        RequestView::Subscribe(url) => subscribe_text(subscribe_result(registry, subscriber, url)),
        RequestView::Unsubscribe(url) => unsubscribe_answer(registry, subscriber, url),
        RequestView::List => list_text(urls_of(registry, subscriber)),
    }
}

/// Whether `request` of `subscriber` changes the registry: a subscribe
/// request that adds a search does, and an unsubscribe request that removes
/// one.
pub open spec fn changes_registry(
    registry: Map<i64, Seq<Seq<char>>>,
    subscriber: i64,
    request: RequestView,
) -> bool {
    match request {
        RequestView::Subscribe(url) => subscribe_result(registry, subscriber, url) == Ok::<
            SubscribeOutcome,
            ValidationError,
        >(SubscribeOutcome::Added),
        RequestView::Unsubscribe(url) => unsubscribe_result(registry, subscriber, url)
            == UnsubscribeOutcome::Removed,
        RequestView::List => false,
    }
}

/// Carries out `request` of `subscriber` on `registry` and writes the
/// answer.
pub fn answer(registry: &mut Registry, subscriber: i64, request: &Request) -> (answer: Answer)
    ensures
        final(registry)@ == after_request(old(registry)@, subscriber, request@),
        answer.text@ == answer_text(old(registry)@, subscriber, request@),
        answer.changed == changes_registry(old(registry)@, subscriber, request@),
        !answer.changed ==> final(registry)@ == old(registry)@,
{
    match request {
        Request::Subscribe(url) => {
            let result = registry.subscribe(subscriber, url.as_str());
            let changed = match result {
                Ok(SubscribeOutcome::Added) => true,
                _ => false,
            };
            Answer { text: subscribe_reply(result), changed }
        },
        Request::Unsubscribe(url) => {
            let known = registry.knows(subscriber);
            let outcome = registry.unsubscribe(subscriber, url.as_str());
            let changed = match outcome {
                UnsubscribeOutcome::Removed => true,
                UnsubscribeOutcome::NotFound => false,
            };
            let text = if known {
                unsubscribe_reply(outcome)
            } else {
                NOTHING_FOLLOWED.to_owned()
            };
            Answer { text, changed }
        },
        Request::List => Answer { text: list_reply(&registry.list(subscriber)), changed: false },
    }
}

} // verus!
