//! The response handle: what the transport replied, readable until the body
//! has been read, and the body itself, readable once.

use crate::entries::{
    collapse, distinct_names, has_name, is_last_occurrence, lemma_collapse_distinct,
    lemma_collapse_last_wins, lemma_collapse_names, position, same_name, value_of,
};
use crate::error::Error;
use crate::header::{is_text, text_of};
use crate::table::HeaderTable;
use crate::transport::{decode_header_value, header_entries, header_pairs};
use reqwest::header::HeaderMap;
use vstd::prelude::*;

verus! {

/// What the transport hands over when a send succeeds: the status, the address
/// that finally answered, the headers as they came, and the body still to be
/// read, in whatever form the transport keeps it.
#[derive(Debug)]
pub struct Reply<T> {
    pub status: u16,
    pub url: String,
    pub headers: HeaderMap,
    pub body: T,
}

/// How reading the body ended.
#[derive(Debug, PartialEq, Eq)]
pub enum BodyRead {
    /// The whole body arrived and was decoded to this text.
    Text(String),
    /// The transport failed while the body was arriving; the text is its diagnostic.
    Failed(String),
    /// The body arrived but is not text; the text says why.
    Undecodable(String),
}

/// A response whose body can be read once. Until then it answers questions
/// about the reply; afterwards every question fails with `ResponseConsumed`.
#[derive(Debug)]
pub struct ReqwestResponse<T> {
    response: Option<Reply<T>>,
}

/// Every received header value reads as text.
pub open spec fn all_text(sent: Seq<(Seq<char>, Seq<u8>)>) -> bool {
    forall|i: int| 0 <= i < sent.len() ==> is_text((#[trigger] sent[i]).1)
}

/// The value at `at` does not read as text and every value before it does.
pub open spec fn first_undecodable(sent: Seq<(Seq<char>, Seq<u8>)>, at: int) -> bool {
    &&& 0 <= at < sent.len()
    &&& !is_text(sent[at].1)
    &&& forall|j: int| 0 <= j < at ==> is_text((#[trigger] sent[j]).1)
}

/// The received headers with each value as text.
pub open spec fn decoded(sent: Seq<(Seq<char>, Seq<u8>)>) -> Seq<(Seq<char>, Seq<char>)> {
    Seq::new(sent.len(), |i: int| (sent[i].0, text_of(sent[i].1)))
}

/// The mapping that `headers` reports for received headers whose values all
/// read as text: each name once, with the value that came last.
pub open spec fn snapshot(sent: Seq<(Seq<char>, Seq<u8>)>) -> Seq<(Seq<char>, Seq<char>)> {
    collapse(decoded(sent))
}

/// What a finished body read means to the caller.
pub open spec fn spec_body_text(read: BodyRead) -> Result<String, Error> {
    match read {
        BodyRead::Text(text) => Ok(text),
        BodyRead::Failed(diagnostic) => Err(Error::RequestFailed(diagnostic)),
        BodyRead::Undecodable(reason) => Err(Error::DecodeFailure(reason)),
    }
}

/// What a finished send means to the caller: a fresh handle on the reply, or
/// `RequestFailed` with the transport's diagnostic.
pub open spec fn spec_get_response<T>(sent: Result<Reply<T>, String>) -> Result<
    ReqwestResponse<T>,
    Error,
> {
    match sent {
        Ok(reply) => Ok(ReqwestResponse::holding(reply)),
        Err(diagnostic) => Err(Error::RequestFailed(diagnostic)),
    }
}

/// The status that a handle in state `held` reports.
pub open spec fn status_in<T>(held: Option<Reply<T>>) -> Result<u16, Error> {
    match held {
        Some(reply) => Ok(reply.status),
        None => Err(Error::ResponseConsumed),
    }
}

/// What a body read on a handle in state `held` returns when the transport's
/// read, if it comes to one, ends as `read`.
pub open spec fn text_in<T>(held: Option<Reply<T>>, read: BodyRead) -> Result<String, Error> {
    match held {
        Some(_) => spec_body_text(read),
        None => Err(Error::ResponseConsumed),
    }
}

/// Turns the end of a body read into the caller's result.
pub fn body_text(read: BodyRead) -> (text: Result<String, Error>)
    ensures
        text == spec_body_text(read),
{
    match read {
        BodyRead::Text(text) => Ok(text),
        BodyRead::Failed(diagnostic) => Err(Error::RequestFailed(diagnostic)),
        BodyRead::Undecodable(reason) => Err(Error::DecodeFailure(reason)),
    }
}

/// Turns the end of a send into the caller's result: a handle that owns the
/// reply, or `RequestFailed` with the transport's diagnostic. No handle is made
/// for a failed send.
pub fn get_response<T>(sent: Result<Reply<T>, String>) -> (response: Result<
    ReqwestResponse<T>,
    Error,
>)
    ensures
        response == spec_get_response(sent),
{
    match sent {
        Ok(reply) => Ok(ReqwestResponse { response: Some(reply) }),
        Err(diagnostic) => Err(Error::RequestFailed(diagnostic)),
    }
}

impl<T> ReqwestResponse<T> {
    /// The reply that the handle still owns; nothing once the body was read.
    pub closed spec fn held(&self) -> Option<Reply<T>> {
        self.response
    }

    /// The handle that owns `reply`, with its body unread.
    pub closed spec fn holding(reply: Reply<T>) -> ReqwestResponse<T> {
        ReqwestResponse { response: Some(reply) }
    }

    /// A handle is what it holds: the fresh handle on a reply holds that reply,
    /// and two handles that hold the same are the same.
    pub proof fn lemma_holding(reply: Reply<T>, other: ReqwestResponse<T>)
        ensures
            Self::holding(reply).held() == Some(reply),
            other.held() == Some(reply) ==> other == Self::holding(reply),
    {
    }

    /// A handle that owns `reply`, with its body unread.
    pub fn new(reply: Reply<T>) -> (handle: ReqwestResponse<T>)
        ensures
            handle == Self::holding(reply),
            handle.held() == Some(reply),
    {
        ReqwestResponse { response: Some(reply) }
    }

    /// Whether the body was read already.
    pub fn is_consumed(&self) -> (consumed: bool)
        ensures
            consumed == self.held() is None,
    {
        self.response.is_none()
    }

    /// The reply, while the handle owns it.
    pub fn inner(&self) -> (reply: Result<&Reply<T>, Error>)
        ensures
            match self.held() {
                Some(held) => reply == Ok::<_, Error>(&held),
                None => reply == Err::<&Reply<T>, _>(Error::ResponseConsumed),
            },
    {
        match &self.response {
            Some(reply) => Ok(reply),
            None => Err(Error::ResponseConsumed),
        }
    }

    /// Takes the reply out of the handle, which owns nothing from then on.
    pub fn take_inner(&mut self) -> (reply: Result<Reply<T>, Error>)
        ensures
            final(self).held() is None,
            match old(self).held() {
                Some(held) => reply == Ok::<_, Error>(held),
                None => reply == Err::<Reply<T>, _>(Error::ResponseConsumed),
            },
    {
        match self.response.take() {
            Some(reply) => Ok(reply),
            None => Err(Error::ResponseConsumed),
        }
    }

    /// The status code of the reply.
    pub fn status(&self) -> (status: Result<u16, Error>)
        ensures
            status == status_in(self.held()),
    {
        match &self.response {
            Some(reply) => Ok(reply.status),
            None => Err(Error::ResponseConsumed),
        }
    }

    /// The address that finally answered, after the transport followed redirects.
    pub fn url(&self) -> (url: Result<String, Error>)
        ensures
            match self.held() {
                Some(held) => url matches Ok(text) && text@ == held.url@,
                None => url == Err::<String, _>(Error::ResponseConsumed),
            },
    {
        match &self.response {
            Some(reply) => Ok(reply.url.clone()),
            None => Err(Error::ResponseConsumed),
        }
    }

    /// The received headers as a mapping from name to text.
    ///
    /// A name that came more than once stands once, with the value that came
    /// last. If a value does not read as text, the first such header is
    /// reported by name as `DecodeFailure`.
    pub fn headers(&self) -> (headers: Result<HeaderTable, Error>)
        ensures
            match self.held() {
                None => headers == Err::<HeaderTable, _>(Error::ResponseConsumed),
                Some(held) => {
                    let sent = header_entries(held.headers);
                    if all_text(sent) {
                        headers matches Ok(table) && table@ == snapshot(sent)
                    } else {
                        headers matches Err(Error::DecodeFailure(name)) && exists|at: int|
                            first_undecodable(sent, at) && name@ == (#[trigger] sent[at]).0
                    }
                },
            },
    {
        let reply = match &self.response {
            Some(reply) => reply,
            None => {
                return Err(Error::ResponseConsumed);
            },
        };
        let ghost sent = header_entries(reply.headers);
        let pairs = header_pairs(&reply.headers);
        let mut table = HeaderTable::new();
        let mut i: usize = 0;
        assert(decoded(sent.take(0)) =~= Seq::empty());
        while i < pairs.len()
            invariant
                i <= pairs.len(),
                self.held() matches Some(held) && sent == header_entries(held.headers),
                pairs.len() == sent.len(),
                forall|j: int|
                    0 <= j < pairs.len() ==> (#[trigger] pairs[j]).0@ == sent[j].0 && pairs[j].1@
                        == sent[j].1,
                forall|j: int| 0 <= j < i ==> is_text((#[trigger] sent[j]).1),
                table@ == snapshot(sent.take(i as int)),
            decreases pairs.len() - i,
        {
            let name = pairs[i].0.clone();
            assert(name@ == sent[i as int].0);
            match decode_header_value(pairs[i].1.as_slice()) {
                None => {
                    assert(first_undecodable(sent, i as int));
                    return Err(Error::DecodeFailure(name));
                },
                Some(text) => {
                    proof {
                        let next = decoded(sent.take(i + 1));
                        assert(next.drop_last() =~= decoded(sent.take(i as int)));
                        assert(next.last() == (name@, text@));
                    }
                    table.insert(name, text);
                },
            }
            i += 1;
        }
        assert(sent.take(pairs.len() as int) =~= sent);
        assert(all_text(sent));
        Ok(table)
    }

    /// Reads the body as text, once.
    ///
    /// The handle gives its reply's body to `read`, which waits for the whole
    /// body and decodes it, and owns nothing from then on, however the read
    /// ends. On a handle whose body was read before, `read` is not called and
    /// the result is `ResponseConsumed`.
    pub fn text<F: FnOnce(T) -> BodyRead>(&mut self, read: F) -> (text: Result<String, Error>)
        requires
            old(self).held() matches Some(held) ==> call_requires(read, (held.body,)),
        ensures
            final(self).held() is None,
            match old(self).held() {
                Some(held) => exists|end: BodyRead|
                    call_ensures(read, (held.body,), end) && text == text_in(
                        old(self).held(),
                        end,
                    ),
                None => forall|end: BodyRead| text == text_in(old(self).held(), end),
            },
    {
        match self.take_inner() {
            Ok(reply) => {
                let end = read(reply.body);
                let ghost ended = end;
                let text = body_text(end);
                assert(call_ensures(read, (reply.body,), ended) && text == text_in(
                    old(self).held(),
                    ended,
                ));
                text
            },
            Err(error) => Err(error),
        }
    }
}

/// A second body read fails with `ResponseConsumed`: every body read leaves
/// the handle owning nothing, and on such a handle a body read fails so,
/// whatever the transport would have delivered; so does a status query.
pub proof fn lemma_body_is_read_once<T>(left: Option<Reply<T>>, second: BodyRead)
    requires
        left is None,
    ensures
        text_in(left, second) == Err::<String, _>(Error::ResponseConsumed),
        status_in(left) == Err::<u16, _>(Error::ResponseConsumed),
{
}

/// The mapping reported for received headers holds every name that came, each
/// once.
pub proof fn lemma_snapshot_names(sent: Seq<(Seq<char>, Seq<u8>)>, name: Seq<char>)
    ensures
        has_name(snapshot(sent), name) <==> has_name(sent, name),
        distinct_names(snapshot(sent)),
{
    lemma_collapse_distinct(decoded(sent));
    lemma_collapse_names(decoded(sent), name);
    if has_name(sent, name) {
        let i = position(sent, name);
        assert(same_name(decoded(sent)[i].0, name));
    }
    if has_name(decoded(sent), name) {
        let i = position(decoded(sent), name);
        assert(same_name(sent[i].0, name));
    }
}

/// In the mapping reported for received headers, a name carries the text of
/// the value that came last under it.
pub proof fn lemma_snapshot_last_wins(sent: Seq<(Seq<char>, Seq<u8>)>, name: Seq<char>, at: int)
    requires
        is_last_occurrence(sent, name, at),
    ensures
        has_name(snapshot(sent), name),
        value_of(snapshot(sent), name) == text_of(sent[at].1),
{
    assert(same_name(decoded(sent)[at].0, name));
    assert forall|j: int| at < j < decoded(sent).len() implies !same_name(
        (#[trigger] decoded(sent)[j]).0,
        name,
    ) by {
        assert(!same_name(sent[j].0, name));
    }
    lemma_collapse_last_wins(decoded(sent), name, at);
}

} // verus!
