//! Building the description of a request from what the caller gave.

use crate::entries::{distinct_names, same_name};
use crate::error::Error;
use crate::header::{
    lemma_lowered_twice, lowered, valid_header_name, valid_header_value, ASSURED_HEADERS,
};
use crate::table::HeaderTable;
use crate::transport::{
    header_entries, insert_header, is_header_name, is_header_value, new_header_map,
};
use reqwest::header::HeaderMap;
use vstd::prelude::*;
use vstd::utf8::encode_utf8;

verus! {

/// A request that is ready for the transport: the target, the headers in the
/// transport's own map, and the body as it is to be sent.
#[derive(Debug)]
pub struct RequestSpec {
    url: String,
    headers: Option<HeaderMap>,
    body: Option<Vec<u8>>,
}

/// What a `RequestSpec` holds, as plain mathematical values.
pub struct RequestView {
    pub url: Seq<char>,
    pub headers: Option<Seq<(Seq<char>, Seq<u8>)>>,
    pub body: Option<Seq<u8>>,
}

impl View for RequestSpec {
    type V = RequestView;

    closed spec fn view(&self) -> RequestView {
        RequestView {
            url: self.url@,
            headers: match self.headers {
                Some(map) => Some(header_entries(map)),
                None => None,
            },
            body: match self.body {
                Some(bytes) => Some(bytes@),
                None => None,
            },
        }
    }
}

/// Both parts of the header are well formed.
pub open spec fn well_formed(pair: (Seq<char>, Seq<char>)) -> bool {
    valid_header_name(pair.0) && valid_header_value(pair.1)
}

/// Every header is well formed.
pub open spec fn all_well_formed(headers: Seq<(Seq<char>, Seq<char>)>) -> bool {
    forall|i: int| 0 <= i < headers.len() ==> well_formed(#[trigger] headers[i])
}

/// The header at `at` is malformed and every header before it is well formed.
pub open spec fn first_malformed(headers: Seq<(Seq<char>, Seq<char>)>, at: int) -> bool {
    &&& 0 <= at < headers.len()
    &&& !well_formed(headers[at])
    &&& forall|j: int| 0 <= j < at ==> well_formed(#[trigger] headers[j])
}

/// The headers as the transport keeps them, one pair for each given pair and
/// in the same order: the name in lower case, the value as the bytes of its
/// text.
pub open spec fn on_the_wire(headers: Seq<(Seq<char>, Seq<char>)>) -> Seq<(Seq<char>, Seq<u8>)> {
    Seq::new(headers.len(), |i: int| (lowered(headers[i].0), encode_utf8(headers[i].1)))
}

/// The pairs of an optional table; none where there is no table.
pub open spec fn given(headers: Option<HeaderTable>) -> Seq<(Seq<char>, Seq<char>)> {
    match headers {
        Some(table) => table@,
        None => Seq::empty(),
    }
}

/// The request that well-formed input describes.
pub open spec fn described(
    url: Seq<char>,
    headers: Option<HeaderTable>,
    body: Option<Vec<u8>>,
) -> RequestView {
    RequestView {
        url,
        headers: match headers {
            Some(table) => Some(on_the_wire(table@)),
            None => None,
        },
        body: match body {
            Some(bytes) => Some(bytes@),
            None => None,
        },
    }
}

/// `built` is what building a request from this input yields.
///
/// If a header is malformed it is `InvalidHeader` with the name of the first
/// such header. If all headers are well formed and there are no more than
/// `ASSURED_HEADERS` of them, it is the request that the input describes. With
/// more well-formed headers it is that request too, unless the transport's map
/// did not take one of the headers beyond the first `ASSURED_HEADERS`; then it
/// is `InvalidHeader` with the name of that header.
pub open spec fn builds(
    url: Seq<char>,
    headers: Option<HeaderTable>,
    body: Option<Vec<u8>>,
    built: Result<RequestSpec, Error>,
) -> bool {
    &&& !all_well_formed(given(headers)) ==> (built matches Err(Error::InvalidHeader(name))
        && exists|at: int|
        first_malformed(given(headers), at) && name@ == #[trigger] given(headers)[at].0)
    &&& all_well_formed(given(headers)) ==> match built {
        Ok(request) => request@ == described(url, headers, body),
        Err(error) => error matches Error::InvalidHeader(name) && exists|at: int|
            ASSURED_HEADERS <= at < given(headers).len() && name@ == #[trigger] given(
                headers,
            )[at].0,
    }
    &&& all_well_formed(given(headers)) && given(headers).len() <= ASSURED_HEADERS ==> built is Ok
}

impl RequestSpec {
    /// The target of the request, as the caller gave it.
    pub fn url(&self) -> (url: &String)
        ensures
            url@ == self@.url,
    {
        &self.url
    }

    /// The headers in the transport's map, if the caller gave any.
    pub fn headers(&self) -> (headers: Option<&HeaderMap>)
        ensures
            match headers {
                Some(map) => self@.headers == Some(header_entries(*map)),
                None => self@.headers is None,
            },
    {
        self.headers.as_ref()
    }

    /// The body, if the caller gave one.
    pub fn body(&self) -> (body: Option<&Vec<u8>>)
        ensures
            match body {
                Some(bytes) => self@.body == Some(bytes@),
                None => self@.body is None,
            },
    {
        self.body.as_ref()
    }

    /// The three parts of the request, for the transport to build its own from.
    pub fn into_parts(self) -> (parts: (String, Option<HeaderMap>, Option<Vec<u8>>))
        ensures
            parts.0@ == self@.url,
            match parts.1 {
                Some(map) => self@.headers == Some(header_entries(map)),
                None => self@.headers is None,
            },
            match parts.2 {
                Some(bytes) => self@.body == Some(bytes@),
                None => self@.body is None,
            },
    {
        (self.url, self.headers, self.body)
    }
}

/// Checks every header of the table: nothing is wrong when all are well
/// formed; otherwise the first malformed header, in the table's order, is
/// reported as `InvalidHeader` with its name as the caller wrote it.
pub fn check_headers(headers: &HeaderTable) -> (checked: Result<(), Error>)
    ensures
        all_well_formed(headers@) ==> checked is Ok,
        !all_well_formed(headers@) ==> (checked matches Err(Error::InvalidHeader(name))
            && exists|at: int|
            first_malformed(headers@, at) && name@ == #[trigger] headers@[at].0),
{
    let count = headers.len();
    let mut i: usize = 0;
    while i < count
        invariant
            i <= count,
            count == headers@.len(),
            forall|j: int| 0 <= j < i ==> well_formed(#[trigger] headers@[j]),
        decreases count - i,
    {
        match headers.entry(i) {
            Some((name, value)) => {
                if !is_header_name(name.as_str()) || !is_header_value(value.as_str()) {
                    assert(first_malformed(headers@, i as int));
                    return Err(Error::InvalidHeader(name.clone()));
                }
            },
            None => {},
        }
        i += 1;
    }
    Ok(())
}

/// Turns the caller's target, headers and body into a request for the
/// transport, or names the header that stands in the way.
///
/// Every header is checked before anything else happens. If one is malformed,
/// the first such header, in the table's order, is reported as `InvalidHeader`
/// with its name as the caller wrote it. Otherwise the headers go into the
/// transport's map, the body is attached as given, and no header is added.
///
/// Well-formed headers, up to `ASSURED_HEADERS` of them, are always built into
/// a request. The transport's map may not take more. A header that it did not
/// take is reported as `InvalidHeader` with its name, although nothing is wrong
/// with the header itself: this is the one case in which that kind does not
/// mean a malformed header, and it arises only beyond `ASSURED_HEADERS`
/// headers.
pub fn setup_request(url: String, headers: Option<HeaderTable>, body: Option<Vec<u8>>) -> (built:
    Result<RequestSpec, Error>)
    ensures
        builds(url@, headers, body, built),
{
    let map = match headers {
        None => None,
        Some(table) => {
            let ghost wanted = table@;
            match check_headers(&table) {
                Err(error) => {
                    return Err(error);
                },
                Ok(()) => {},
            }
            let pairs = table.into_pairs();
            let mut map = new_header_map();
            let mut i: usize = 0;
            proof {
                assert(on_the_wire(wanted.take(0)) =~= Seq::empty());
            }
            while i < pairs.len()
                invariant
                    i <= pairs.len(),
                    pairs.deep_view() == wanted,
                    wanted == given(headers),
                    all_well_formed(wanted),
                    distinct_names(wanted),
                    header_entries(map) == on_the_wire(wanted.take(i as int)),
                decreases pairs.len() - i,
            {
                let name = &pairs[i].0;
                let value = &pairs[i].1;
                proof {
                    assert(wanted[i as int] == (name@, value@));
                    assert(well_formed(wanted[i as int]));
                    let stored = on_the_wire(wanted.take(i as int));
                    assert forall|j: int| 0 <= j < stored.len() implies !same_name(
                        (#[trigger] stored[j]).0,
                        name@,
                    ) by {
                        lemma_lowered_twice(wanted[j].0);
                        assert(!same_name(wanted[j].0, wanted[i as int].0));
                    }
                    assert(stored.push((lowered(name@), encode_utf8(value@))) =~= on_the_wire(
                        wanted.take(i + 1),
                    ));
                }
                if !insert_header(&mut map, name.as_str(), value.as_str()) {
                    let unstored = name.clone();
                    assert(unstored@ == wanted[i as int].0);
                    return Err(Error::InvalidHeader(unstored));
                }
                i += 1;
            }
            assert(wanted.take(pairs.len() as int) =~= wanted);
            Some(map)
        },
    };
    Ok(RequestSpec { url, headers: map, body })
}

} // verus!
