use pepe::AllPagesLoader;
use pepe::Message;
use pepe::Pagination;
use pepe::Sr;
use pepe::SrError;
use pepe::SrRequest;
use pepe::Timestamp;

fn cmsg(id: i32) -> Message {
    Message {
        id,
        createddate: Timestamp {
            millis: 0,
            rendered: String::from("1970-01-01 01:00:00 CET"),
        },
        exactlocation: String::from("Road E4"),
        description: String::from("Closure"),
        title: String::from("Traffic"),
        latitude: String::from("59.1"),
        longitude: String::from("17.9"),
        category: 3,
        subcategory: String::from("Ovrigt"),
    }
}

fn cpage(page: u32, totalpages: u32, ids: &[i32]) -> Sr {
    Sr {
        copyright: String::from("Copyright Sveriges Radio"),
        pagination: Pagination {
            page,
            size: ids.len() as u32,
            totalhits: ids.len() as u32,
            totalpages,
        },
        messages: ids.iter().map(|&i| cmsg(i)).collect(),
    }
}

#[test]
fn request_new_sets_fields() {
    let req = SrRequest::new(String::from("json"), false, 3);
    assert_eq!(req.format, "json");
    assert!(!req.indent);
    assert_eq!(req.page, 3);
}

#[test]
fn request_url_exact() {
    let req = SrRequest::new(String::from("json"), false, 1);
    assert_eq!(
        req.url(),
        "http://api.sr.se/api/v2/traffic/messages?format=json&indent=false&page=1"
    );
    let req = SrRequest::new(String::from("json"), true, 12);
    assert_eq!(
        req.url(),
        "http://api.sr.se/api/v2/traffic/messages?format=json&indent=true&page=12"
    );
}

#[test]
fn error_messages_exact() {
    assert_eq!(SrError::ParseError.message(), "Parse error\n");
    let unknown = SrError::Unknwon {
        message: String::from("boom"),
    };
    assert_eq!(unknown.message(), "Uknown error: boom\n");
    let transport = SrError::CommunicationError {
        message: String::from("refused"),
    };
    assert_eq!(transport.message(), "Communication Error: refused\n");
}

#[test]
fn load_all_walks_pages_in_order() {
    let mut loader = AllPagesLoader::new();

    // The probe: page one, read only for the total.
    let req = loader.next_request().unwrap();
    assert_eq!(req.page, 1);
    assert_eq!(req.format, "json");
    assert!(!req.indent);
    assert!(!loader.offer_page(cpage(1, 2, &[1, 2])));

    // Then pages one through the total, records concatenated.
    let req = loader.next_request().unwrap();
    assert_eq!(req.page, 1);
    assert!(loader.offer_page(cpage(1, 2, &[1, 2])));
    let req = loader.next_request().unwrap();
    assert_eq!(req.page, 2);
    assert!(loader.offer_page(cpage(2, 2, &[3])));

    assert!(loader.done());
    assert!(loader.next_request().is_none());
    let ids: Vec<i32> = loader.into_messages().iter().map(|m| m.id).collect();
    assert_eq!(ids, vec![1, 2, 3]);
}
