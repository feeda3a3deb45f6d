//! Linking storefront accounts through a plugin.

use vstd::prelude::*;

use crate::text::appended;

verus! {

broadcast use vstd::string::group_string_axioms;

/// Names what `url::Url::parse` makes of a text: the URL as it is then written,
/// or the error's message.
pub uninterp spec fn parsed_url(text: Seq<char>) -> Result<Seq<char>, Seq<char>>;

/// `url::Url::parse` reads an absolute URL and writes it in its normal form.
/// Which texts are URLs, and their normal form, is left to the name.
#[verifier::external_body]
fn parse_url(text: &str) -> (out: Result<String, String>)
    ensures
        match (out, parsed_url(text@)) {
            (Ok(url), Ok(named)) => url@ == named,
            (Err(error), Err(named)) => error@ == named,
            _ => false,
        },
{
    match url::Url::parse(text) {
        Ok(url) => Ok(url.to_string()),
        Err(error) => Err(error.to_string()),
    }
}

/// What becomes of a guest's request for input from the user.
#[derive(Debug)]
pub enum InputRequest {
    /// The runtime fails: the guest's interaction is not one that it was given.
    Fail(String),
    /// The guest gets this error text.
    Refuse(String),
    /// The user is to be asked, at this URL and with these instructions.
    Ask { url: String, instructions: String },
}

/// What becomes of a request whose interaction is known, for what its URL
/// parses to.
pub open spec fn is_request_outcome(
    url: Result<Seq<char>, Seq<char>>,
    instructions: Seq<char>,
    out: InputRequest,
) -> bool {
    match url {
        Ok(url) => out matches InputRequest::Ask { url: shown, instructions: kept } && shown@ == url
            && kept@ == instructions,
        Err(error) => out matches InputRequest::Refuse(text) && text@
            == "invalid interaction URL: "@ + error,
    }
}

/// Decides what becomes of a request whose interaction is known, for what its
/// URL parses to.
pub fn ask_at(url: Result<String, String>, instructions: String) -> (out: InputRequest)
    ensures
        is_request_outcome(
            match url {
                Ok(url) => Ok(url@),
                Err(error) => Err(error@),
            },
            instructions@,
            out,
        ),
{
    match url {
        Ok(url) => InputRequest::Ask { url, instructions },
        Err(error) => InputRequest::Refuse(appended("invalid interaction URL: ", &error)),
    }
}

/// Decides what becomes of a guest's request for input: the interaction has to
/// be known, and the URL to be one.
pub fn request_input(interaction: Result<(), String>, url: &str, instructions: String) -> (out:
    InputRequest)
    ensures
        match interaction {
            Ok(_) => is_request_outcome(parsed_url(url@), instructions@, out),
            Err(error) => out == InputRequest::Fail(error),
        },
{
    match interaction {
        Ok(_) => ask_at(parse_url(url), instructions),
        Err(error) => InputRequest::Fail(error),
    }
}

/// Linking an account: what to do next.
#[derive(Debug)]
pub enum LinkAccount<T> {
    /// Bind the exports of the interface to the instance.
    Bind,
    /// Hand the interaction over to the instance.
    PushInteraction,
    /// Call the guest with the interaction.
    Invoke,
    /// Take the interaction back.
    DeleteInteraction { answer: Result<T, String> },
    /// Nothing more to do.
    Done(Result<Result<T, String>, String>),
}

/// An answer to what a [`LinkAccount`] asks for.
#[derive(Debug)]
pub enum LinkReply<T> {
    /// Whether the exports could be bound.
    Bound(Result<(), String>),
    /// Whether the interaction could be handed over.
    Pushed(Result<(), String>),
    /// What the guest returned, or how the runtime failed.
    Returned(Result<Result<T, String>, String>),
    /// Whether the interaction could be taken back.
    Deleted(Result<(), String>),
}

/// One step of linking an account. An answer to something else leaves it as it
/// is.
pub open spec fn link_next<T>(
    before: LinkAccount<T>,
    reply: LinkReply<T>,
    after: LinkAccount<T>,
) -> bool {
    match (before, reply) {
        (LinkAccount::Bind, LinkReply::Bound(Ok(_))) => after == LinkAccount::<T>::PushInteraction,
        (LinkAccount::Bind, LinkReply::Bound(Err(error))) => after == LinkAccount::<T>::Done(
            Ok(Err(error)),
        ),
        (LinkAccount::PushInteraction, LinkReply::Pushed(Ok(_))) => after == LinkAccount::<
            T,
        >::Invoke,
        (LinkAccount::PushInteraction, LinkReply::Pushed(Err(error))) => after == LinkAccount::<
            T,
        >::Done(Err(error)),
        (LinkAccount::Invoke, LinkReply::Returned(Ok(answer))) => after == (LinkAccount::<
            T,
        >::DeleteInteraction { answer }),
        (LinkAccount::Invoke, LinkReply::Returned(Err(error))) => after == LinkAccount::<T>::Done(
            Err(error),
        ),
        (LinkAccount::DeleteInteraction { answer }, LinkReply::Deleted(Ok(_))) => after
            == LinkAccount::<T>::Done(Ok(answer)),
        (LinkAccount::DeleteInteraction { .. }, LinkReply::Deleted(Err(error))) => after
            == LinkAccount::<T>::Done(Err(error)),
        _ => after == before,
    }
}

impl<T> LinkAccount<T> {
    /// Takes the answer to what was asked for.
    pub fn resume(self, reply: LinkReply<T>) -> (out: LinkAccount<T>)
        ensures
            link_next(self, reply, out),
    {
        match (self, reply) {
            (LinkAccount::Bind, LinkReply::Bound(Ok(_))) => LinkAccount::PushInteraction,
            (LinkAccount::Bind, LinkReply::Bound(Err(error))) => LinkAccount::Done(Ok(Err(error))),
            (LinkAccount::PushInteraction, LinkReply::Pushed(Ok(_))) => LinkAccount::Invoke,
            (LinkAccount::PushInteraction, LinkReply::Pushed(Err(error))) => LinkAccount::Done(
                Err(error),
            ),
            (
                LinkAccount::Invoke,
                LinkReply::Returned(Ok(answer)),
            ) => LinkAccount::DeleteInteraction { answer },
            (LinkAccount::Invoke, LinkReply::Returned(Err(error))) => LinkAccount::Done(Err(error)),
            (
                LinkAccount::DeleteInteraction { answer },
                LinkReply::Deleted(Ok(_)),
            ) => LinkAccount::Done(Ok(answer)),
            (
                LinkAccount::DeleteInteraction { .. },
                LinkReply::Deleted(Err(error)),
            ) => LinkAccount::Done(Err(error)),
            (state, _) => state,
        }
    }
}

/// Begins to link an account.
pub fn link_account<T>() -> (out: LinkAccount<T>)
    ensures
        out == LinkAccount::<T>::Bind,
{
    LinkAccount::Bind
}

/// Whenever linking ends without a failure of the runtime, the interaction that
/// was handed over has been taken back, and the answer is the guest's; or it
/// was never handed over, since the exports could not be bound.
pub proof fn law_interaction_is_taken_back<T>(
    states: Seq<LinkAccount<T>>,
    replies: Seq<LinkReply<T>>,
    at: int,
)
    requires
        crate::runs::is_run(
            |s: LinkAccount<T>, r: LinkReply<T>, t: LinkAccount<T>| link_next(s, r, t),
            states,
            replies,
        ),
        states[0] is Bind,
        0 <= at < states.len(),
    ensures
        match states[at] {
            LinkAccount::DeleteInteraction { answer } => exists|i: int|
                0 <= i < at && states[i] is Invoke && #[trigger] replies[i] == LinkReply::Returned(
                    Ok(answer),
                ),
            LinkAccount::Done(Ok(answer)) => {
                ||| exists|i: int|
                    0 <= i < at && states[i] is Bind && answer is Err && #[trigger] replies[i]
                        == LinkReply::<T>::Bound(Err(answer->Err_0))
                ||| exists|i: int, j: int|
                    #![trigger replies[i], replies[j]]
                    {
                        &&& 0 <= i < j < at
                        &&& states[i] is Invoke
                        &&& replies[i] == LinkReply::Returned(Ok(answer))
                        &&& states[j] is DeleteInteraction
                        &&& replies[j] matches LinkReply::Deleted(Ok(_))
                    }
            },
            _ => true,
        },
    decreases at,
{
    if at > 0 {
        law_interaction_is_taken_back(states, replies, at - 1);
        let reply = replies[at - 1];
        assert(link_next(states[at - 1], reply, states[at]));
    }
}

/// Linking an account comes to what its steps come to: exports that cannot be
/// bound are an answer to the caller, any other step that fails is a failure of
/// the runtime, and what the guest answered comes out unchanged once the
/// interaction was taken back.
pub proof fn law_linking_comes_to_its_steps<T>(
    bound: Result<(), String>,
    pushed: Result<(), String>,
    returned: Result<Result<T, String>, String>,
    deleted: Result<(), String>,
    states: (LinkAccount<T>, LinkAccount<T>, LinkAccount<T>, LinkAccount<T>),
)
    requires
        link_next(LinkAccount::Bind, LinkReply::Bound(bound), states.0),
        link_next(states.0, LinkReply::Pushed(pushed), states.1),
        link_next(states.1, LinkReply::Returned(returned), states.2),
        link_next(states.2, LinkReply::Deleted(deleted), states.3),
    ensures
        match (bound, pushed, returned, deleted) {
            (Err(error), _, _, _) => states.0 == LinkAccount::<T>::Done(Ok(Err(error)))
                && states.3 == states.0,
            (Ok(_), Err(error), _, _) => states.0 is PushInteraction && states.3 == LinkAccount::<
                T,
            >::Done(Err(error)),
            (Ok(_), Ok(_), Err(error), _) => states.1 is Invoke && states.3 == LinkAccount::<
                T,
            >::Done(Err(error)),
            (Ok(_), Ok(_), Ok(answer), Err(error)) => states.1 is Invoke && states.2 == (
            LinkAccount::DeleteInteraction { answer }) && states.3 == LinkAccount::<T>::Done(
                Err(error),
            ),
            (Ok(_), Ok(_), Ok(answer), Ok(_)) => states.1 is Invoke && states.2 == (
            LinkAccount::DeleteInteraction { answer }) && states.3 == LinkAccount::Done(Ok(answer)),
        },
{
}

/// An answer to something that linking did not ask for leaves it as it is.
pub proof fn law_linking_ignores_other_answers<T>(
    before: LinkAccount<T>,
    reply: LinkReply<T>,
    after: LinkAccount<T>,
)
    requires
        link_next(before, reply, after),
        !(before is Bind && reply is Bound),
        !(before is PushInteraction && reply is Pushed),
        !(before is Invoke && reply is Returned),
        !(before is DeleteInteraction && reply is Deleted),
    ensures
        after == before,
{
}

/// The user is asked exactly if the URL is one, at that URL in its normal form
/// and with the guest's instructions unchanged; otherwise the guest is told what
/// is wrong with it.
pub proof fn law_user_is_asked_at_the_url(
    url: Result<Seq<char>, Seq<char>>,
    instructions: Seq<char>,
    out: InputRequest,
)
    requires
        is_request_outcome(url, instructions, out),
    ensures
        match out {
            InputRequest::Ask { url: shown, instructions: kept } => url == Ok::<
                Seq<char>,
                Seq<char>,
            >(shown@) && kept@ == instructions,
            InputRequest::Refuse(text) => url matches Err(error) && text@
                == "invalid interaction URL: "@ + error,
            InputRequest::Fail(_) => false,
        },
{
}

}
