//! The upstream page source: the request each fetch needs, the errors a
//! fetch can surface, and the cursor that walks the whole pagination.
//! The transport call itself lives outside the library; everything that
//! decides what to fetch next and what a result means lives here.
use crate::records::Message;
use crate::records::Sr;
use crate::text::append_u64;
use crate::text::bool_str;
use crate::text::bool_text;
use crate::text::dec_digits;
use vstd::prelude::*;

verus! {

/// One upstream request: the response format, whether the upstream
/// should indent it, and the page asked for.
#[derive(Debug)]
pub struct SrRequest {
    pub format: String,
    pub indent: bool,
    pub page: u32,
}

impl SrRequest {
    /// A request for one page.
    pub fn new(format: String, indent: bool, page: u32) -> (r: SrRequest)
        ensures
            r.format == format,
            r.indent == indent,
            r.page == page,
    {
        SrRequest { format, indent, page }
    }

    /// The URL this request asks for.
    pub fn url(&self) -> (r: String)
        ensures
            r@ == "http://api.sr.se/api/v2/traffic/messages?format="@ + self.format@ + "&indent="@
                + bool_text(self.indent) + "&page="@ + dec_digits(self.page as nat),
    {
        let mut s = String::from_str("http://api.sr.se/api/v2/traffic/messages?format=");
        s.append(self.format.as_str());
        s.append("&indent=");
        s.append(bool_str(self.indent));
        s.append("&page=");
        append_u64(&mut s, self.page as u64);
        proof {
            assert(s@ =~= "http://api.sr.se/api/v2/traffic/messages?format="@ + self.format@
                + "&indent="@ + bool_text(self.indent) + "&page="@ + dec_digits(self.page as nat));
        }
        s
    }
}

/// What can go wrong fetching one page.
#[derive(Debug)]
pub enum SrError {
    /// The upstream answered but the body could not be read.
    Unknwon { message: String },
    /// The body was read but is not a well-formed page.
    ParseError,
    /// The upstream could not be reached.
    CommunicationError { message: String },
}

impl SrError {
    /// A human-readable description of the failure, one line.
    pub fn message(&self) -> (r: String)
        ensures
            (*self matches SrError::Unknwon { message } ==> r@ == "Uknown error: "@ + message@
                + "\n"@),
            *self is ParseError ==> r@ == "Parse error\n"@,
            (*self matches SrError::CommunicationError { message } ==> r@
                == "Communication Error: "@ + message@ + "\n"@),
    {
        match self {
            SrError::Unknwon { message } => {
                let mut s = String::from_str("Uknown error: ");
                s.append(message.as_str());
                s.append("\n");
                s
            },
            SrError::ParseError => String::from_str("Parse error\n"),
            SrError::CommunicationError { message } => {
                let mut s = String::from_str("Communication Error: ");
                s.append(message.as_str());
                s.append("\n");
                s
            },
        }
    }
}

/// The cursor of a full historical load: fetch page one, read the page
/// total from it, then fetch pages one through the total in order,
/// concatenating their records. The first failed fetch aborts the whole
/// load; partial results are never returned.
pub struct AllPagesLoader {
    /// The page total read from the probe fetch, once known.
    pub total: Option<u32>,
    /// The next page to ask for once the total is known.
    pub next_page: u64,
    /// The records collected so far, in feed order.
    pub messages: Vec<Message>,
}

impl AllPagesLoader {
    /// The cursor's invariant: until the total is known nothing is
    /// collected, and the cursor never walks past one page beyond the
    /// total.
    pub open spec fn wf(&self) -> bool {
        match self.total {
            None => self.next_page == 1 && self.messages@.len() == 0,
            Some(t) => 1 <= self.next_page <= t as int + 1,
        }
    }

    /// Whether every page has been collected.
    pub open spec fn spec_done(&self) -> bool {
        match self.total {
            None => false,
            Some(t) => self.next_page > t as int,
        }
    }

    /// A cursor that has fetched nothing yet.
    pub fn new() -> (r: AllPagesLoader)
        ensures
            r.wf(),
            r.total is None,
            r.messages@ == Seq::<Message>::empty(),
    {
        AllPagesLoader { total: None, next_page: 1, messages: Vec::new() }
    }

    /// Whether every page has been collected.
    pub fn done(&self) -> (r: bool)
        ensures
            r == self.spec_done(),
    {
        match self.total {
            None => false,
            Some(t) => self.next_page > t as u64,
        }
    }

    /// The request to make next: the probe for page one while the total
    /// is unknown, then each page in order; `None` once done.
    pub fn next_request(&self) -> (r: Option<SrRequest>)
        requires
            self.wf(),
        ensures
            self.spec_done() ==> r is None,
            !self.spec_done() ==> match r {
                Some(req) => req.format@ == "json"@ && !req.indent && req.page as int
                    == self.next_page as int,
                None => false,
            },
    {
        if self.done() {
            None
        } else {
            Some(SrRequest::new(String::from_str("json"), false, self.next_page as u32))
        }
    }

    /// Feeds the cursor the page it asked for. The probe answer fixes
    /// the total and is otherwise discarded; every later page's records
    /// are appended in feed order and the cursor advances one page.
    pub fn offer_page(&mut self, page: Sr) -> (appended: bool)
        requires
            old(self).wf(),
            !old(self).spec_done(),
        ensures
            final(self).wf(),
            old(self).total is None ==> {
                &&& final(self).total == Some(page.pagination.totalpages)
                &&& final(self).next_page == 1
                &&& final(self).messages@ == old(self).messages@
                &&& !appended
            },
            old(self).total is Some ==> {
                &&& final(self).total == old(self).total
                &&& final(self).next_page == old(self).next_page + 1
                &&& final(self).messages@ == old(self).messages@ + page.messages@
                &&& appended
            },
    {
        let mut page = page;
        match self.total {
            None => {
                self.total = Some(page.pagination.totalpages);
                self.next_page = 1;
                false
            },
            Some(_) => {
                self.messages.append(&mut page.messages);
                self.next_page = self.next_page + 1;
                true
            },
        }
    }

    /// Hands the collected records out, in feed order.
    pub fn into_messages(self) -> (r: Vec<Message>)
        ensures
            r@ == self.messages@,
    {
        self.messages
    }
}

} // verus!
