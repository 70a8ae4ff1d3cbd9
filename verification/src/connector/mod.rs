//! The queue of requests that a driver sends as one batch, and what the
//! crawler reads off the headers of a response.

pub mod connector_utils;
pub mod extractor;
pub mod navigator;

use crate::http::{clone_raw, Raw, Request, RequestView, Response};
use crate::text::{occurs_at, split, split_char, starts_with, string_from_utf8};
use std::collections::VecDeque;
use vstd::prelude::*;
use vstd::utf8::{decode_utf8, valid_utf8};

verus! {

/// What a `Content-Type` header says, as far as the crawler cares.
#[derive(Debug)]
pub enum HeaderContentType {
    /// An image, with the format named behind the `/`.
    Image(String),
    /// A text, with the format named behind the `/`.
    Text(String),
    /// Anything else, or why the header could not be read.
    Others(String),
}

/// A content type, as plain values.
pub ghost enum ContentTypeView {
    Image(Seq<char>),
    Text(Seq<char>),
    Others(Seq<char>),
}

impl View for HeaderContentType {
    type V = ContentTypeView;

    open spec fn view(&self) -> ContentTypeView {
        match self {
            HeaderContentType::Image(format) => ContentTypeView::Image(format@),
            HeaderContentType::Text(format) => ContentTypeView::Text(format@),
            HeaderContentType::Others(value) => ContentTypeView::Others(value@),
        }
    }
}

pub open spec fn image_prefix() -> Seq<char> {
    seq!['i', 'm', 'a', 'g', 'e']
}

pub open spec fn text_prefix() -> Seq<char> {
    seq!['t', 'e', 'x', 't']
}

/// Whether a format can be read off the header value: a value that
/// announces an image or a text has a `/` behind which the format stands.
pub open spec fn names_format(content_type: Seq<char>) -> bool {
    occurs_at(content_type, 0, image_prefix()) || occurs_at(content_type, 0, text_prefix())
        ==> split(content_type, '/').len() >= 2
}

/// What a header value announces: an image or a text of the format that
/// stands between the first `/` and the next, or something else.
pub open spec fn content_type_of(content_type: Seq<char>) -> ContentTypeView {
    if occurs_at(content_type, 0, image_prefix()) {
        ContentTypeView::Image(split(content_type, '/')[1])
    } else if occurs_at(content_type, 0, text_prefix()) {
        ContentTypeView::Text(split(content_type, '/')[1])
    } else {
        ContentTypeView::Others(content_type)
    }
}

pub open spec fn no_content_type() -> Seq<char> {
    seq!['n', 'o', ' ', 'c', 'o', 'n', 't', 'e', 'n', 't', '-', 't', 'y', 'p', 'e']
}

pub open spec fn too_many_content_types() -> Seq<char> {
    seq![
        'c',
        'o',
        'n',
        't',
        'e',
        'n',
        't',
        '-',
        't',
        'y',
        'p',
        'e',
        ' ',
        'i',
        's',
        ' ',
        'm',
        'o',
        'r',
        'e',
        ' ',
        't',
        'h',
        'a',
        'n',
        ' ',
        '2',
    ]
}

pub open spec fn unknown_content_type() -> Seq<char> {
    seq!['u', 'n', 'k', 'n', 'o', 'w', 'n']
}

/// Whether the content type of a response can be read: a header of exactly
/// one line holds valid UTF-8 that names its format.
pub open spec fn content_type_readable(header: Option<Seq<Seq<u8>>>) -> bool {
    header matches Some(lines) ==> lines.len() == 1 ==> valid_utf8(lines[0]) && names_format(
        decode_utf8(lines[0]),
    )
}

/// The content type that a response announces.
pub open spec fn announced(header: Option<Seq<Seq<u8>>>) -> ContentTypeView {
    match header {
        None => ContentTypeView::Others(no_content_type()),
        Some(lines) => if lines.len() > 1 {
            ContentTypeView::Others(too_many_content_types())
        } else if lines.len() == 1 {
            content_type_of(decode_utf8(lines[0]))
        } else {
            ContentTypeView::Others(unknown_content_type())
        },
    }
}

impl HeaderContentType {
    /// Whether a format can be read off `content_type`.
    pub fn has_format(content_type: &str) -> (ok: bool)
        ensures
            ok == names_format(content_type@),
    {
        proof {
            reveal_strlit("image");
            reveal_strlit("text");
            assert("image"@ =~= image_prefix());
            assert("text"@ =~= text_prefix());
        }
        if starts_with(content_type, "image") || starts_with(content_type, "text") {
            split_char(content_type, '/').len() >= 2
        } else {
            true
        }
    }

    /// Reads a header value.
    pub fn from_str(content_type: &str) -> (kind: HeaderContentType)
        requires
            names_format(content_type@),
        ensures
            kind@ == content_type_of(content_type@),
    {
        proof {
            reveal_strlit("image");
            reveal_strlit("text");
            assert("image"@ =~= image_prefix());
            assert("text"@ =~= text_prefix());
        }
        if starts_with(content_type, "image") {
            let image_format = HeaderContentType::get_image_format(content_type);
            HeaderContentType::Image(image_format)
        } else if starts_with(content_type, "text") {
            let text_format = HeaderContentType::get_text_format(content_type);
            HeaderContentType::Text(text_format)
        } else {
            HeaderContentType::Others(content_type.to_owned())
        }
    }

    /// The format of an image type such as `image/png`: what stands behind
    /// the first `/`, up to the next.
    pub fn get_image_format(content_type: &str) -> (format: String)
        requires
            split(content_type@, '/').len() >= 2,
        ensures
            format@ == split(content_type@, '/')[1],
    {
        let split_collection = split_char(content_type, '/');
        split_collection[1].clone()
    }

    /// The format of a text type such as `text/html`: what stands behind the
    /// first `/`, up to the next.
    pub fn get_text_format(content_type: &str) -> (format: String)
        requires
            split(content_type@, '/').len() >= 2,
        ensures
            format@ == split(content_type@, '/')[1],
    {
        let split_collection = split_char(content_type, '/');
        split_collection[1].clone()
    }
}

/// The requests that wait to be sent, oldest first.
pub struct Connector {
    requests: VecDeque<Request>,
}

impl View for Connector {
    type V = Seq<Request>;

    closed spec fn view(&self) -> Seq<Request> {
        self.requests@
    }
}

impl Connector {
    /// The requests that wait, as plain values.
    pub open spec fn views(&self) -> Seq<RequestView> {
        Seq::new(self@.len(), |i: int| self@[i]@)
    }

    /// A connector with nothing to send.
    pub fn new() -> (conn: Connector)
        ensures
            conn@ == Seq::<Request>::empty(),
    {
        Connector { requests: VecDeque::new() }
    }

    pub fn get_requests_count(&self) -> (length: usize)
        ensures
            length == self@.len(),
    {
        self.requests.len()
    }

    /// Puts `req` behind the requests that wait.
    pub fn add_request(&mut self, req: Request)
        ensures
            final(self)@ == old(self)@.push(req),
    {
        self.requests.push_back(req);
    }

    /// Moves the requests of `reqs` behind those that wait, in their order.
    pub fn add_requests(&mut self, reqs: &mut VecDeque<Request>)
        ensures
            final(self)@ == old(self)@ + old(reqs)@,
            final(reqs)@ == Seq::<Request>::empty(),
    {
        self.requests.append(reqs);
    }

    pub fn clear_requests(&mut self)
        ensures
            final(self)@ == Seq::<Request>::empty(),
    {
        self.requests.clear();
    }

    pub fn requests(&self) -> (requests: &VecDeque<Request>)
        ensures
            requests@ == self@,
    {
        &self.requests
    }

    /// The URLs of the requests that wait, in the order in which they came.
    pub fn request_urls(&self) -> (urls: Vec<String>)
        ensures
            urls.len() == self@.len(),
            forall|i: int| 0 <= i < urls.len() ==> (#[trigger] urls[i])@ == self@[i]@.uri.source,
    {
        let mut urls: Vec<String> = Vec::new();
        let mut i: usize = 0;
        while i < self.requests.len()
            invariant
                i <= self.requests.len(),
                urls.len() == i,
                forall|j: int| 0 <= j < i ==> (#[trigger] urls[j])@ == self@[j]@.uri.source,
            decreases self.requests.len() - i,
        {
            let request = &self.requests[i];
            let url = request.uri().as_str();
            urls.push(url.to_owned());
            i += 1;
        }
        urls
    }

    /// Empties the queue and hands out what waited as one batch. A request's
    /// place in the batch is the index under which its response is reported.
    pub fn take_requests(&mut self) -> (batch: Vec<Request>)
        ensures
            batch@ == old(self)@,
            final(self)@ == Seq::<Request>::empty(),
    {
        let mut batch: Vec<Request> = Vec::new();
        loop
            invariant
                batch@ + self.requests@ == old(self).requests@,
            ensures
                batch@ == old(self).requests@,
                self.requests@.len() == 0,
            decreases self.requests@.len(),
        {
            let pop = self.requests.pop_front();
            match pop {
                None => {
                    assert(batch@ + self.requests@ =~= batch@);
                    break ;
                },
                Some(request) => {
                    let ghost before = batch@;
                    batch.push(request);
                    assert(batch@ + self.requests@ =~= old(self).requests@);
                },
            }
        }
        assert(self.requests@ =~= Seq::<Request>::empty());
        batch
    }

    /// A copy of the cookies that a response set.
    pub fn get_raw_cookies(response: &Response) -> (cookies: Option<Raw>)
        ensures
            cookies.deep_view() == response.set_cookie.deep_view(),
    {
        clone_raw(&response.set_cookie)
    }

    /// Whether the content type of `response` can be read.
    pub fn has_readable_content_type(response: &Response) -> (ok: bool)
        ensures
            ok == content_type_readable(response.content_type.deep_view()),
    {
        match &response.content_type {
            None => true,
            Some(content_type) => {
                if content_type.len() != 1 {
                    true
                } else {
                    match string_from_utf8(content_type.line(0)) {
                        None => false,
                        Some(content) => HeaderContentType::has_format(content.as_str()),
                    }
                }
            },
        }
    }

    /// The content type that `response` announces. A response without the
    /// header, or with more than one line of it, has a type of its own.
    pub fn get_content_type(response: &Response) -> (kind: HeaderContentType)
        requires
            content_type_readable(response.content_type.deep_view()),
        ensures
            kind@ == announced(response.content_type.deep_view()),
    {
        let content_type = match &response.content_type {
            Some(content) => content,
            None => {
                proof {
                    reveal_strlit("no content-type");
                    assert("no content-type"@ =~= no_content_type());
                }
                return HeaderContentType::Others("no content-type".to_owned());
            },
        };
        if content_type.len() > 1 {
            proof {
                reveal_strlit("content-type is more than 2");
                assert("content-type is more than 2"@ =~= too_many_content_types());
            }
            return HeaderContentType::Others("content-type is more than 2".to_owned());
        }
        if content_type.len() == 1 {
            let content = string_from_utf8(content_type.line(0)).unwrap();
            return HeaderContentType::from_str(content.as_str());
        }
        proof {
            reveal_strlit("unknown");
            assert("unknown"@ =~= unknown_content_type());
        }
        HeaderContentType::Others("unknown".to_owned())
    }
}

} // verus!
