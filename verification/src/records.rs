//! The typed records of the upstream feed: one page's pagination block,
//! the traffic records it carries, and their textual rendering for the
//! subscriber wire protocol.
use crate::text::append_i32;
use crate::text::dec_int;
use crate::timestamp::Timestamp;
use vstd::prelude::*;

verus! {

/// The pagination block of one fetched page. The upstream promises
/// `page <= totalpages`; `page == totalpages` marks the final page.
pub struct Pagination {
    pub page: u32,
    pub size: u32,
    pub totalhits: u32,
    pub totalpages: u32,
}

impl Pagination {
    /// The upstream's invariant on a well-formed pagination block.
    pub open spec fn wf(&self) -> bool {
        self.page <= self.totalpages
    }

    /// A page is the last one exactly when its number equals the total.
    pub fn is_last_page(&self) -> (r: bool)
        ensures
            r == (self.page == self.totalpages),
    {
        self.page == self.totalpages
    }

    /// The number of the page after this one, or `None` on the last page.
    pub fn next(&self) -> (r: Option<u32>)
        requires
            self.wf(),
        ensures
            self.page == self.totalpages ==> r is None,
            self.page < self.totalpages ==> r == Some((self.page + 1) as u32),
    {
        if self.is_last_page() {
            None
        } else {
            Some(self.page + 1)
        }
    }
}

/// The advisory categories the upstream distinguishes.
#[derive(Clone, Copy, Debug, PartialEq, Eq, Structural)]
pub enum Category {
    Vagtrafik,
    Kollektivtrafik,
    PlaneradStorning,
    Ovrigt,
}

impl Category {
    /// The small integer code the upstream uses for this category.
    pub fn code(&self) -> (r: i32)
        ensures
            *self is Vagtrafik ==> r == 0,
            *self is Kollektivtrafik ==> r == 1,
            *self is PlaneradStorning ==> r == 2,
            *self is Ovrigt ==> r == 3,
    {
        match self {
            Category::Vagtrafik => 0,
            Category::Kollektivtrafik => 1,
            Category::PlaneradStorning => 2,
            Category::Ovrigt => 3,
        }
    }

    /// The category of an upstream code, or `None` for an unknown code.
    pub fn from_code(c: i32) -> (r: Option<Category>)
        ensures
            c == 0 ==> r == Some(Category::Vagtrafik),
            c == 1 ==> r == Some(Category::Kollektivtrafik),
            c == 2 ==> r == Some(Category::PlaneradStorning),
            c == 3 ==> r == Some(Category::Ovrigt),
            !(0 <= c <= 3) ==> r is None,
    {
        match c {
            0 => Some(Category::Vagtrafik),
            1 => Some(Category::Kollektivtrafik),
            2 => Some(Category::PlaneradStorning),
            3 => Some(Category::Ovrigt),
            _ => None,
        }
    }
}

/// One traffic-advisory record. Two records with the same `id` are the
/// same logical event even if other fields differ between polls.
///
/// The coordinates are carried as the upstream's decimal text: the
/// service never computes with them, it only passes them through.
pub struct Message {
    pub id: i32,
    pub createddate: Timestamp,
    pub exactlocation: String,
    pub description: String,
    pub title: String,
    pub latitude: String,
    pub longitude: String,
    pub category: i32,
    pub subcategory: String,
}

/// The text sent to a subscriber for one record: every field, one per line.
pub open spec fn rendered_lines(m: Message) -> Seq<char> {
    "id: "@ + dec_int(m.id as int) + "\n"@ + "Created Date: "@ + m.createddate.rendered@ + "\n"@
        + "Exact location: "@ + m.exactlocation@ + "\n"@ + "Title: "@ + m.title@ + "\n"@
        + "Description: "@ + m.description@ + "\n"@ + "Latitude: "@ + m.latitude@ + "\n"@
        + "Longitude: "@ + m.longitude@ + "\n"@ + "category: "@ + dec_int(m.category as int)
        + "\n"@ + "subcategory: "@ + m.subcategory@ + "\n"@
}

impl Message {
    /// An equal copy.
    pub fn duplicate(&self) -> (r: Message)
        ensures
            r == *self,
    {
        Message {
            id: self.id,
            createddate: self.createddate.duplicate(),
            exactlocation: self.exactlocation.clone(),
            description: self.description.clone(),
            title: self.title.clone(),
            latitude: self.latitude.clone(),
            longitude: self.longitude.clone(),
            category: self.category,
            subcategory: self.subcategory.clone(),
        }
    }

    /// Renders the record for the subscriber wire protocol.
    pub fn render_lines(&self) -> (r: String)
        ensures
            r@ == rendered_lines(*self),
    {
        let mut s = String::new();
        s.append("id: ");
        append_i32(&mut s, self.id);
        s.append("\n");
        s.append("Created Date: ");
        s.append(self.createddate.rendered.as_str());
        s.append("\n");
        s.append("Exact location: ");
        s.append(self.exactlocation.as_str());
        s.append("\n");
        s.append("Title: ");
        s.append(self.title.as_str());
        s.append("\n");
        s.append("Description: ");
        s.append(self.description.as_str());
        s.append("\n");
        s.append("Latitude: ");
        s.append(self.latitude.as_str());
        s.append("\n");
        s.append("Longitude: ");
        s.append(self.longitude.as_str());
        s.append("\n");
        s.append("category: ");
        append_i32(&mut s, self.category);
        s.append("\n");
        s.append("subcategory: ");
        s.append(self.subcategory.as_str());
        s.append("\n");
        proof {
            assert(s@ =~= rendered_lines(*self));
        }
        s
    }
}

/// An equal copy of a record sequence.
pub fn duplicate_all(v: &Vec<Message>) -> (r: Vec<Message>)
    ensures
        r@ == v@,
{
    let mut r: Vec<Message> = Vec::new();
    let n = v.len();
    let mut i: usize = 0;
    while i < n
        invariant
            0 <= i <= n,
            n == v@.len(),
            r@ == v@.take(i as int),
        decreases n - i,
    {
        r.push(v[i].duplicate());
        proof {
            assert(v@.take(i + 1).drop_last() =~= v@.take(i as int));
            assert(v@.take(i + 1) =~= v@.take(i as int).push(v@[i as int]));
        }
        i = i + 1;
    }
    proof {
        assert(v@.take(n as int) =~= v@);
    }
    r
}

/// One fetched page: an opaque copyright notice, the pagination block,
/// and the page's records in feed order.
pub struct Sr {
    pub copyright: String,
    pub pagination: Pagination,
    pub messages: Vec<Message>,
}

} // verus!
