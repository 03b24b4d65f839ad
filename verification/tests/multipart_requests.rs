use actix_multipart::{Field, Multipart};
use actix_web::error::PayloadError;
use actix_web::http::header::CONTENT_TYPE;
use actix_web::test::TestRequest;
use bytes::Bytes;
use futures::stream::Stream;
use shelfie::ident::StoredObjectId;
use shelfie::storage::StorageRoot;
use shelfie::upload::{upload, Response, UploadAction, UploadEvent, UploadState};
use shelfie::writer::{save_file, FieldWriter, WriteError, WriterAction, WriterEvent};

/// Files in memory: paths and what they hold.
type Shelf = Vec<(String, Vec<u8>)>;

/// Stores one field of a real multipart stream on the shelf.
fn store(field: Field, root: &StorageRoot, shelf: &mut Shelf) -> Result<StoredObjectId, WriteError> {
    let mut chunks = field.wait();
    let (mut writer, mut action) = FieldWriter::open(root);
    let mut file = 0;
    loop {
        let event = match action {
            WriterAction::CreateFile(path) => {
                shelf.push((path, vec![]));
                file = shelf.len() - 1;
                WriterEvent::Created
            }
            WriterAction::NextChunk => match chunks.next() {
                Some(Ok(bytes)) => WriterEvent::Chunk(bytes.to_vec()),
                Some(Err(_)) => WriterEvent::FieldAborted,
                None => WriterEvent::EndOfField,
            },
            WriterAction::Store(bytes) => {
                shelf[file].1.extend_from_slice(&bytes);
                WriterEvent::Written
            }
            WriterAction::Finish(outcome) => return outcome,
        };
        assert!(writer.can_take(&event));
        let next = save_file(writer, event);
        writer = next.0;
        action = next.1;
    }
}

/// Handles a real multipart stream as a server would, with the shelf
/// in place of the disk.
fn handle(multipart: Multipart, root: &StorageRoot, shelf: &mut Shelf) -> (UploadState, Response) {
    let mut items = multipart.wait();
    let mut state = UploadState::AwaitingField;
    loop {
        let (event, field) = match items.next() {
            Some(Ok(field)) => (UploadEvent::Field, Some(field)),
            Some(Err(_)) => (UploadEvent::Malformed, None),
            None => (UploadEvent::EndOfFields, None),
        };
        let (next, mut action) = upload(state, event);
        state = next;
        if action == UploadAction::SaveField {
            let outcome = store(field.unwrap(), root, shelf);
            let next = upload(state, UploadEvent::Saved(outcome));
            state = next.0;
            action = next.1;
        }
        if let UploadAction::Respond(response) = action {
            return (state, response);
        }
    }
}

fn request(uri: &str, content_type: &str, data: Vec<Vec<u8>>) -> Multipart {
    let request = TestRequest::post()
        .uri(uri)
        .header(CONTENT_TYPE, content_type)
        .to_http_request();
    let iter = data.into_iter().map(|r| Bytes::from(r));
    Multipart::new(request.headers(), futures::stream::iter_ok::<_, PayloadError>(iter))
}

fn root() -> StorageRoot {
    StorageRoot::new("/srv/shelf".to_string())
}

fn part(name: &str, content: &str) -> Vec<u8> {
    format!(
        "--abbc761f78ff4d7cb7573b5a23f96ef0\r\nContent-Disposition: form-data; name=\"{}\"; filename=\"foobar.txt\"\r\nContent-Type: text/plain; charset=utf-8\r\n\r\n{}\r\n",
        name, content
    )
    .into_bytes()
}

const WELL_FORMED: &str = "multipart/form-data; boundary=\"abbc761f78ff4d7cb7573b5a23f96ef0\"";

#[test]
fn it_gracefully_handles_malformed_boundaries() {
    // Prepare our payloads
    let mut data: Vec<Vec<u8>> = vec![];
    for i in 0..99 {
        let payload = format!(
            "--------------------------d74496d66958873e\r\nContent-Disposition: form-data; name=\"file{}\"; filename=\"foobar.txt\"\r\n\r\nthis is a test\r\n",
            i
        );
        data.push(payload.clone().into_bytes());
    }
    // Add the last boundary
    data.push("------------------------d74496d66958873e--\r\n".to_string().into_bytes());
    let multipart = request(
        "http://localhost",
        "multipart/form-data; boundary=----------------------d74496d66958873e;",
        data,
    );
    let mut shelf: Shelf = vec![];
    let (state, response) = handle(multipart, &root(), &mut shelf);
    let output: Result<(), u16> = if response.status == 303 { Ok(()) } else { Err(response.status) };

    assert!(output.is_err());
    assert!(matches!(state, UploadState::Failed(_)));
    assert_eq!(response, Response { status: 400, location: None });
    assert!(shelf.is_empty());
}

#[test]
fn of_three_fields_only_the_first_is_stored() {
    let data = vec![
        part("a", "content of field A"),
        part("b", "what field B holds"),
        part("c", "C, the third"),
        b"--abbc761f78ff4d7cb7573b5a23f96ef0--\r\n".to_vec(),
    ];
    let mut shelf: Shelf = vec![];
    let (state, response) = handle(request("http://localhost", WELL_FORMED, data), &root(), &mut shelf);
    assert_eq!(response.status, 303);
    assert_eq!(shelf.len(), 1);
    assert_eq!(shelf[0].1, b"content of field A".to_vec());
    let id = match state {
        UploadState::Completed(id) => id,
        _ => unreachable!(),
    };
    assert_eq!(shelf[0].0, format!("/srv/shelf/{}", id.as_str()));
    assert_eq!(response.location, Some(format!("/id/{}", id.as_str())));
}

#[test]
fn a_field_split_over_many_chunks_is_stored_whole() {
    let whole = part("file", "this is a test\r\nwith a second line\r\nand a third");
    let mut data: Vec<Vec<u8>> = whole.chunks(7).map(|piece| piece.to_vec()).collect();
    data.push(b"--abbc761f78ff4d7cb7573b5a23f96ef0--\r\n".to_vec());
    let mut shelf: Shelf = vec![];
    let (_, response) = handle(request("http://localhost", WELL_FORMED, data), &root(), &mut shelf);
    assert_eq!(response.status, 303);
    assert_eq!(shelf.len(), 1);
    assert_eq!(shelf[0].1, b"this is a test\r\nwith a second line\r\nand a third".to_vec());
}

#[test]
fn a_request_without_fields_is_not_found_and_stores_nothing() {
    // The form in which this multipart reader takes a body to end before its first part.
    let data = vec![b"abbc761f78ff4d7cb7573b5a23f96ef0--\r\n".to_vec()];
    let mut shelf: Shelf = vec![];
    let (state, response) = handle(request("http://localhost", WELL_FORMED, data), &root(), &mut shelf);
    assert_eq!(response, Response { status: 404, location: None });
    assert!(matches!(state, UploadState::Failed(shelfie::upload::UploadError::NotFound)));
    assert!(shelf.is_empty());
}

#[test]
fn a_body_that_never_opens_a_part_is_malformed() {
    for body in [&b"--abbc761f78ff4d7cb7573b5a23f96ef0--\r\n"[..], &b""[..], &b"no boundary in here\r\n"[..]] {
        let mut shelf: Shelf = vec![];
        let (state, response) = handle(request("http://localhost", WELL_FORMED, vec![body.to_vec()]), &root(), &mut shelf);
        assert_eq!(response, Response { status: 400, location: None });
        assert!(matches!(state, UploadState::Failed(shelfie::upload::UploadError::Malformed)));
        assert!(shelf.is_empty());
    }
}

#[test]
fn a_request_without_a_boundary_is_malformed() {
    let data = vec![part("a", "content")];
    let mut shelf: Shelf = vec![];
    let (_, response) = handle(request("http://localhost", "multipart/form-data", data), &root(), &mut shelf);
    assert_eq!(response, Response { status: 400, location: None });
    assert!(shelf.is_empty());
}

#[test]
fn a_field_cut_short_fails_on_the_server_side() {
    let data = vec![
        b"--abbc761f78ff4d7cb7573b5a23f96ef0\r\nContent-Disposition: form-data; name=\"a\"\r\n\r\nthe start of a field that never".to_vec(),
    ];
    let mut shelf: Shelf = vec![];
    let (state, response) = handle(request("http://localhost", WELL_FORMED, data), &root(), &mut shelf);
    assert_eq!(response, Response { status: 500, location: None });
    assert!(matches!(
        state,
        UploadState::Failed(shelfie::upload::UploadError::Write(WriteError::Incomplete))
    ));
    assert_eq!(shelf.len(), 1);
}
